use makky::app;
use makky::command::{parse, Error, Name, Type};
use makky::handler;
use makky::metadata;
use makky::symlink;

fn words(list: &[&str]) -> Vec<String> {
    list.iter().map(|x| String::from(*x)).collect()
}

#[test]
fn parse_link() {
    match parse(&words(&["link", "/meta", "/root"])).unwrap() {
        Type::Link(args) => {
            assert_eq!(args.metadata_path, "/meta");
            assert_eq!(args.target_root, "/root");
        }
        other => panic!("Unexpected command: {:?}", other),
    }
}

#[test]
fn parse_unlink() {
    match parse(&words(&["unlink", "/meta", "/root", "ignored"])).unwrap() {
        Type::Unlink(args) => {
            assert_eq!(args.metadata_path, "/meta");
            assert_eq!(args.target_root, "/root");
        }
        other => panic!("Unexpected command: {:?}", other),
    }
}

#[test]
fn parse_register() {
    match parse(&words(&["register", "/meta", "/abs/a", "rel/b"])).unwrap() {
        Type::Register(args) => {
            assert_eq!(args.metadata_path, "/meta");
            assert_eq!(args.source, "/abs/a");
            assert_eq!(args.target, "rel/b");
        }
        other => panic!("Unexpected command: {:?}", other),
    }
}

#[test]
fn parse_tells_what_is_missing() {
    assert!(matches!(parse(&words(&[])), Err(Error::CommandNotProvided)));
    assert!(matches!(parse(&words(&["link"])), Err(Error::MetadataPathNotProvided)));
    assert!(matches!(parse(&words(&["link", "/meta"])), Err(Error::TargetRootNotProvided)));
    assert!(matches!(parse(&words(&["unlink", "/meta"])), Err(Error::TargetRootNotProvided)));
    assert!(matches!(parse(&words(&["register", "/meta"])), Err(Error::LinkSourceNotProvided)));
    assert!(matches!(parse(&words(&["register", "/meta", "/abs/a"])), Err(Error::LinkTargetNotProvided)));
}

#[test]
fn parse_judges_the_verb_first() {
    match parse(&words(&["lnk"])) {
        Err(Error::UnknownCommand(word)) => assert_eq!(word, "lnk"),
        other => panic!("Unexpected outcome: {:?}", other),
    }
    assert!(matches!(parse(&words(&["Link", "/meta", "/root"])), Err(Error::UnknownCommand(_))));
}

#[test]
fn names_of_the_verbs() {
    assert_eq!(Name::from_str("link").unwrap(), Name::Link);
    assert_eq!(Name::from_str("register").unwrap(), Name::Register);
    assert_eq!(Name::from_str("unlink").unwrap(), Name::Unlink);
    assert!(Name::from_str("").is_err());
}

#[test]
fn command_error_texts() {
    assert_eq!(Error::CommandNotProvided.to_string(), "command not provided");
    assert_eq!(Error::LinkSourceNotProvided.to_string(), "link source not provided");
    assert_eq!(Error::LinkTargetNotProvided.to_string(), "link target not provided");
    assert_eq!(Error::MetadataPathNotProvided.to_string(), "metadata path not provided");
    assert_eq!(Error::TargetRootNotProvided.to_string(), "target root not provided");
    assert_eq!(Error::UnknownCommand(String::from("x")).to_string(), "unknown command: x");
}

#[test]
fn handler_error_texts() {
    let occupied = || symlink::Error::TargetOccupied(String::from("/root/b"));
    let err = handler::Error::LinkCreate {
        err: occupied(),
        source: String::from("/abs/a"),
        target: String::from("/root/b"),
    };
    assert_eq!(err.to_string(), "link: create /abs/a -> /root/b: target occupied: /root/b");
    assert_eq!(err.source().unwrap(), "target occupied: /root/b");
    let err = handler::Error::LinkRemove {
        err: occupied(),
        source: String::from("/abs/a"),
        target: String::from("/root/b"),
    };
    assert_eq!(err.to_string(), "link: remove /abs/a -> /root/b: target occupied: /root/b");
    let err = handler::Error::LinkReadMetadata(metadata::Error::ParseEntryTargetMissing);
    assert_eq!(err.to_string(), "link: read metadata: parse entry target: missing");
    let err = handler::Error::RegisterNewEntryWrite(metadata::Error::WriteNewEntry(String::from("disk full")));
    assert_eq!(err.to_string(), "register: write new entry: write new entry: disk full");
    assert_eq!(err.source().unwrap(), "write new entry: disk full");
}

#[test]
fn run_reports_the_outcome() {
    let status = app::run(Ok(()));
    assert_eq!(status.code(), 0);
    assert!(status.report().is_none());

    let status = app::run(Err(app::Error::Command(Error::CommandNotProvided)));
    assert_eq!(status.code(), 1);
    assert_eq!(status.report().unwrap(), "Error: command: command not provided");

    let err = app::Error::Handler(handler::Error::LinkReadMetadata(metadata::Error::OpenConfig(String::from(
        "denied",
    ))));
    assert_eq!(err.to_string(), "handler: link: read metadata: open config: denied");
    assert_eq!(err.source().unwrap(), "link: read metadata: open config: denied");
    assert_eq!(app::run(Err(err)).code(), 1);
}
