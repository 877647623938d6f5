use makky::path::{is_absolute, join, same};

#[test]
fn absolute_paths_begin_at_the_root() {
    assert!(is_absolute("/"));
    assert!(is_absolute("/abs/a"));
    assert!(!is_absolute(""));
    assert!(!is_absolute("rel/b"));
    assert!(!is_absolute("./x"));
}

#[test]
fn join_puts_one_separator_between() {
    assert_eq!(join("/root", "rel/b"), "/root/rel/b");
    assert_eq!(join("/root/", "rel/b"), "/root/rel/b");
    assert_eq!(join("/", "b"), "/b");
    assert_eq!(join("", "b"), "b");
    assert_eq!(join("/root", ""), "/root/");
}

#[test]
fn join_of_an_absolute_name_replaces_the_base() {
    assert_eq!(join("/root", "/abs/a"), "/abs/a");
    assert_eq!(join("", "/abs/a"), "/abs/a");
}

#[test]
fn same_compares_text() {
    assert!(same("/abs/a", "/abs/a"));
    assert!(!same("/abs/a", "/abs/a/"));
    assert!(!same("/abs/a", "/abs/b"));
    assert!(same("", ""));
}
