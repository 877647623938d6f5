use makky::metadata::{parse, read_entries, validate, Config, Declared, Entry, EntryFacts, Error, Line, NewEntry};

fn texts(list: &[&str]) -> Vec<Line> {
    list.iter().map(|x| Line::Text(String::from(*x))).collect()
}

fn fine() -> EntryFacts {
    EntryFacts { source_exists: true, target_exists: false, target_is_symlink: false, target_is_file: false }
}

#[test]
fn new_entry_holds_an_absolute_source_and_a_relative_target() {
    let entry = NewEntry::create(String::from("/abs/a"), String::from("rel/b")).unwrap();
    assert_eq!(entry.source(), "/abs/a");
    assert_eq!(entry.target(), "rel/b");
    assert_eq!(entry.serialize(), "/abs/a\nrel/b\n");
}

#[test]
fn new_entry_checks_the_source_first() {
    match NewEntry::create(String::from("a"), String::from("/b")) {
        Err(Error::NewEntrySourceNotAbsolute(path)) => assert_eq!(path, "a"),
        other => panic!("Unexpected outcome: {:?}", other),
    }
    match NewEntry::create(String::from("/a"), String::from("/b")) {
        Err(Error::NewEntryTargetIsAbsolute(path)) => assert_eq!(path, "/b"),
        other => panic!("Unexpected outcome: {:?}", other),
    }
    assert!(NewEntry::create(String::from(""), String::from("b")).is_err());
    assert!(NewEntry::create(String::from("/a"), String::from("")).is_ok());
}

#[test]
fn parse_pairs_lines_in_order() {
    let pairs = parse(&texts(&["/abs/a", "rel/b", "/abs/c", "d"])).unwrap();
    assert_eq!(pairs.len(), 2);
    assert_eq!(pairs[0].source, "/abs/a");
    assert_eq!(pairs[0].target, "rel/b");
    assert_eq!(pairs[1].source, "/abs/c");
    assert_eq!(pairs[1].target, "d");
    assert!(parse(&texts(&[])).unwrap().is_empty());
}

#[test]
fn parse_stops_at_the_first_fatal_line() {
    assert!(matches!(parse(&texts(&["/abs/a"])), Err(Error::ParseEntryTargetMissing)));
    assert!(matches!(parse(&texts(&["/abs/a", "b", "/abs/c"])), Err(Error::ParseEntryTargetMissing)));

    let mut lines = texts(&["/abs/a", "b"]);
    lines.push(Line::Unread(String::from("bad source")));
    lines.push(Line::Unread(String::from("bad target")));
    match parse(&lines) {
        Err(Error::ParseEntrySource(cause)) => assert_eq!(cause, "bad source"),
        other => panic!("Unexpected outcome: {:?}", other),
    }

    let mut lines = texts(&["/abs/a"]);
    lines.push(Line::Unread(String::from("bad target")));
    match parse(&lines) {
        Err(Error::ParseEntryTarget(cause)) => assert_eq!(cause, "bad target"),
        other => panic!("Unexpected outcome: {:?}", other),
    }
}

#[test]
fn entry_rules() {
    let entry = Entry::create(String::from("/abs/a"), String::from("rel/b"), "/root", fine()).unwrap();
    assert_eq!(entry.source_path, "/abs/a");
    assert_eq!(entry.target_path, "/root/rel/b");
    assert_eq!(entry.to_string(), "/abs/a -> /root/rel/b");
    assert_eq!(Entry::target_path("/root", "rel/b"), "/root/rel/b");

    let missing = EntryFacts { source_exists: false, target_exists: true, target_is_symlink: false, target_is_file: true };
    match Entry::create(String::from("/abs/a"), String::from("b"), "/root", missing) {
        Err(Error::EntrySourceNotExists(path)) => assert_eq!(path, "/abs/a"),
        other => panic!("Unexpected outcome: {:?}", other),
    }

    let occupied = EntryFacts { source_exists: true, target_exists: true, target_is_symlink: false, target_is_file: true };
    match Entry::create(String::from("/abs/a"), String::from("b"), "/root", occupied) {
        Err(Error::EntryTargetExists(path)) => assert_eq!(path, "/root/b"),
        other => panic!("Unexpected outcome: {:?}", other),
    }

    let link = EntryFacts { source_exists: true, target_exists: true, target_is_symlink: true, target_is_file: true };
    assert!(Entry::create(String::from("/abs/a"), String::from("b"), "/root", link).is_ok());
    let directory = EntryFacts { source_exists: true, target_exists: true, target_is_symlink: false, target_is_file: false };
    assert!(Entry::create(String::from("/abs/a"), String::from("b"), "/root", directory).is_ok());
}

#[test]
fn read_entries_gives_every_entry_in_file_order() {
    let config = Config::Lines(texts(&["/abs/a", "rel/b", "/abs/c", "d"]));
    let entries = read_entries(&config, "/root", true, &vec![fine(), fine()]).unwrap();
    assert_eq!(entries.len(), 2);
    assert_eq!(entries[0].source_path, "/abs/a");
    assert_eq!(entries[0].target_path, "/root/rel/b");
    assert_eq!(entries[1].source_path, "/abs/c");
    assert_eq!(entries[1].target_path, "/root/d");
}

#[test]
fn read_entries_checks_the_root_before_the_file() {
    let config = Config::Unopened(String::from("denied"));
    match read_entries(&config, "root", false, &vec![]) {
        Err(Error::TargetRootNotAbsolute(path)) => assert_eq!(path, "root"),
        other => panic!("Unexpected outcome: {:?}", other),
    }
    match read_entries(&config, "/root", false, &vec![]) {
        Err(Error::TargetRootNotADirectory(path)) => assert_eq!(path, "/root"),
        other => panic!("Unexpected outcome: {:?}", other),
    }
    match read_entries(&config, "/root", true, &vec![]) {
        Err(Error::OpenConfig(cause)) => assert_eq!(cause, "denied"),
        other => panic!("Unexpected outcome: {:?}", other),
    }
    let config = Config::Lines(texts(&["/abs/a"]));
    assert!(matches!(read_entries(&config, "/root", true, &vec![]), Err(Error::ParseEntryTargetMissing)));
}

#[test]
fn read_entries_collects_every_validation_error() {
    let config = Config::Lines(texts(&["/abs/a", "t", "/abs/b", "t", "/abs/c", "u", "/abs/d", "v", "/abs/e", "t"]));
    let missing = EntryFacts { source_exists: false, target_exists: false, target_is_symlink: false, target_is_file: false };
    let occupied = EntryFacts { source_exists: true, target_exists: true, target_is_symlink: false, target_is_file: true };
    let facts = vec![fine(), missing, missing, occupied, fine()];
    let err = read_entries(&config, "/root", true, &facts).unwrap_err();
    assert_eq!(
        err.to_string(),
        "parse entries:\n\tentry: target duplicate: /abs/b -> t\n\tentry: source not exists: /abs/c\n\tentry: target already exists: /root/v\n\tentry: target duplicate: /abs/e -> t"
    );
    assert!(err.source().is_none());
    match err {
        Error::ParseEntries(errors) => {
            assert_eq!(errors.len(), 4);
            assert!(matches!(&errors[0], Error::EntryTargetDuplicate { source, target } if source == "/abs/b" && target == "t"));
            assert!(matches!(&errors[1], Error::EntrySourceNotExists(path) if path == "/abs/c"));
            assert!(matches!(&errors[2], Error::EntryTargetExists(path) if path == "/root/v"));
            assert!(matches!(&errors[3], Error::EntryTargetDuplicate { source, .. } if source == "/abs/e"));
        }
        other => panic!("Unexpected error: {:?}", other),
    }
}

#[test]
fn a_target_counts_as_seen_even_where_its_entry_failed() {
    let pairs = vec![
        Declared { source: String::from("/gone"), target: String::from("t") },
        Declared { source: String::from("/abs/a"), target: String::from("t") },
    ];
    let missing = EntryFacts { source_exists: false, target_exists: false, target_is_symlink: false, target_is_file: false };
    match validate(&pairs, "/root", &vec![missing, fine()]) {
        Err(Error::ParseEntries(errors)) => {
            assert_eq!(errors.len(), 2);
            assert!(matches!(&errors[0], Error::EntrySourceNotExists(_)));
            assert!(matches!(&errors[1], Error::EntryTargetDuplicate { .. }));
        }
        other => panic!("Unexpected outcome: {:?}", other),
    }
}

#[test]
fn a_pair_without_observation_counts_as_not_found() {
    let pairs = vec![Declared { source: String::from("/abs/a"), target: String::from("t") }];
    match validate(&pairs, "/root", &vec![]) {
        Err(Error::ParseEntries(errors)) => {
            assert_eq!(errors.len(), 1);
            assert!(matches!(&errors[0], Error::EntrySourceNotExists(path) if path == "/abs/a"));
        }
        other => panic!("Unexpected outcome: {:?}", other),
    }
}

#[test]
fn store_error_texts() {
    assert_eq!(Error::EntrySourceNotExists(String::from("/a")).to_string(), "entry: source not exists: /a");
    assert_eq!(
        Error::EntryTargetDuplicate { source: String::from("/a"), target: String::from("b") }.to_string(),
        "entry: target duplicate: /a -> b"
    );
    assert_eq!(Error::EntryTargetExists(String::from("/r/b")).to_string(), "entry: target already exists: /r/b");
    assert_eq!(
        Error::NewEntrySourceNotAbsolute(String::from("a")).to_string(),
        "new entry: source is not an absolute path: a"
    );
    assert_eq!(
        Error::NewEntryTargetIsAbsolute(String::from("/b")).to_string(),
        "new entry: target must be a relative path: /b"
    );
    assert_eq!(Error::OpenConfig(String::from("x")).to_string(), "open config: x");
    assert_eq!(Error::ParseEntries(Vec::new()).to_string(), "parse entries:");
    assert_eq!(Error::ParseEntrySource(String::from("x")).to_string(), "parse entry source: x");
    assert_eq!(Error::ParseEntryTarget(String::from("x")).to_string(), "parse entry target: x");
    assert_eq!(Error::ParseEntryTargetMissing.to_string(), "parse entry target: missing");
    assert_eq!(Error::TargetRootNotAbsolute(String::from("r")).to_string(), "target root is not an absolute path: r");
    assert_eq!(Error::TargetRootNotADirectory(String::from("/r")).to_string(), "target root is not a directory: /r");
    assert_eq!(Error::WriteNewEntry(String::from("x")).to_string(), "write new entry: x");
    assert_eq!(Error::WriteNewEntry(String::from("x")).source().unwrap(), "x");
    assert_eq!(Error::ParseEntrySource(String::from("y")).source().unwrap(), "y");
    assert_eq!(Error::ParseEntryTarget(String::from("z")).source().unwrap(), "z");
    assert!(Error::ParseEntries(Vec::new()).source().is_none());
}
