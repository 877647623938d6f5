//! The command line: three verbs, each with a metadata path and the
//! arguments of its own.

use vstd::prelude::*;
use vstd::string::*;
use crate::path::same;

verus! {

/// A parsed command.
#[derive(Debug)]
pub enum Type {
    Link(ArgsLink),
    Register(ArgsRegister),
    Unlink(ArgsUnlink),
}

#[derive(Debug)]
pub struct ArgsLink {
    pub metadata_path: String,
    pub target_root: String,
}

#[derive(Debug)]
pub struct ArgsRegister {
    pub metadata_path: String,
    pub source: String,
    pub target: String,
}

#[derive(Debug)]
pub struct ArgsUnlink {
    pub metadata_path: String,
    pub target_root: String,
}

pub ghost enum TypeView {
    Link { metadata_path: Seq<char>, target_root: Seq<char> },
    Register { metadata_path: Seq<char>, source: Seq<char>, target: Seq<char> },
    Unlink { metadata_path: Seq<char>, target_root: Seq<char> },
}

impl View for Type {
    type V = TypeView;

    open spec fn view(&self) -> TypeView {
        match *self {
            Type::Link(args) => TypeView::Link {
                metadata_path: args.metadata_path@,
                target_root: args.target_root@,
            },
            Type::Register(args) => TypeView::Register {
                metadata_path: args.metadata_path@,
                source: args.source@,
                target: args.target@,
            },
            Type::Unlink(args) => TypeView::Unlink {
                metadata_path: args.metadata_path@,
                target_root: args.target_root@,
            },
        }
    }
}

/// The verb of a command.
#[derive(Clone, Copy, Debug, PartialEq, Eq, Structural)]
pub enum Name {
    Link,
    Register,
    Unlink,
}

/// Why a command line was refused.
#[derive(Debug)]
pub enum Error {
    CommandNotProvided,
    LinkSourceNotProvided,
    LinkTargetNotProvided,
    MetadataPathNotProvided,
    TargetRootNotProvided,
    UnknownCommand(String),
}

pub ghost enum ErrorView {
    CommandNotProvided,
    LinkSourceNotProvided,
    LinkTargetNotProvided,
    MetadataPathNotProvided,
    TargetRootNotProvided,
    UnknownCommand(Seq<char>),
}

impl View for Error {
    type V = ErrorView;

    open spec fn view(&self) -> ErrorView {
        match *self {
            Error::CommandNotProvided => ErrorView::CommandNotProvided,
            Error::LinkSourceNotProvided => ErrorView::LinkSourceNotProvided,
            Error::LinkTargetNotProvided => ErrorView::LinkTargetNotProvided,
            Error::MetadataPathNotProvided => ErrorView::MetadataPathNotProvided,
            Error::TargetRootNotProvided => ErrorView::TargetRootNotProvided,
            Error::UnknownCommand(value) => ErrorView::UnknownCommand(value@),
        }
    }
}

/// The text shown for an error.
pub open spec fn message_spec(e: ErrorView) -> Seq<char> {
    match e {
        ErrorView::CommandNotProvided => "command not provided"@,
        ErrorView::LinkSourceNotProvided => "link source not provided"@,
        ErrorView::LinkTargetNotProvided => "link target not provided"@,
        ErrorView::MetadataPathNotProvided => "metadata path not provided"@,
        ErrorView::TargetRootNotProvided => "target root not provided"@,
        ErrorView::UnknownCommand(value) => "unknown command: "@ + value,
    }
}

impl Error {
    /// The text shown for this error.
    pub fn to_string(&self) -> (r: String)
        ensures
            r@ == message_spec(self@),
    {
        match self {
            Error::CommandNotProvided => String::from_str("command not provided"),
            Error::LinkSourceNotProvided => String::from_str("link source not provided"),
            Error::LinkTargetNotProvided => String::from_str("link target not provided"),
            Error::MetadataPathNotProvided => String::from_str("metadata path not provided"),
            Error::TargetRootNotProvided => String::from_str("target root not provided"),
            Error::UnknownCommand(value) => {
                let mut out = String::from_str("unknown command: ");
                out.append(value.as_str());
                out
            },
        }
    }
}

/// The verb that a word names.
pub open spec fn name_spec(word: Seq<char>) -> Result<Name, ErrorView> {
    if word == "link"@ {
        Ok(Name::Link)
    } else if word == "register"@ {
        Ok(Name::Register)
    } else if word == "unlink"@ {
        Ok(Name::Unlink)
    } else {
        Err(ErrorView::UnknownCommand(word))
    }
}

impl Name {
    pub fn from_str(word: &str) -> (r: Result<Name, Error>)
        ensures
            match name_spec(word@) {
                Ok(name) => r == Ok::<Name, Error>(name),
                Err(e) => r is Err && r->Err_0@ == e,
            },
    {
        if same(word, "link") {
            Ok(Name::Link)
        } else if same(word, "register") {
            Ok(Name::Register)
        } else if same(word, "unlink") {
            Ok(Name::Unlink)
        } else {
            Err(Error::UnknownCommand(String::from_str(word)))
        }
    }
}

/// The command that the words after the program's name give: the verb, the
/// metadata path, then the target root (`link`, `unlink`) or the source and
/// the target (`register`). Words beyond those are ignored. The verb is
/// judged before anything else is missed.
pub open spec fn parse_spec(args: Seq<String>) -> Result<TypeView, ErrorView> {
    if args.len() < 1 {
        Err(ErrorView::CommandNotProvided)
    } else {
        match name_spec(args[0]@) {
            Err(e) => Err(e),
            Ok(name) => if args.len() < 2 {
                Err(ErrorView::MetadataPathNotProvided)
            } else {
                match name {
                    Name::Link => if args.len() < 3 {
                        Err(ErrorView::TargetRootNotProvided)
                    } else {
                        Ok(TypeView::Link { metadata_path: args[1]@, target_root: args[2]@ })
                    },
                    Name::Register => if args.len() < 3 {
                        Err(ErrorView::LinkSourceNotProvided)
                    } else if args.len() < 4 {
                        Err(ErrorView::LinkTargetNotProvided)
                    } else {
                        Ok(
                            TypeView::Register {
                                metadata_path: args[1]@,
                                source: args[2]@,
                                target: args[3]@,
                            },
                        )
                    },
                    Name::Unlink => if args.len() < 3 {
                        Err(ErrorView::TargetRootNotProvided)
                    } else {
                        Ok(TypeView::Unlink { metadata_path: args[1]@, target_root: args[2]@ })
                    },
                }
            },
        }
    }
}

/// Parses the words that follow the program's name.
pub fn parse(args: &Vec<String>) -> (r: Result<Type, Error>)
    ensures
        match parse_spec(args@) {
            Ok(command) => r is Ok && r->Ok_0@ == command,
            Err(e) => r is Err && r->Err_0@ == e,
        },
{
    if args.len() < 1 {
        return Err(Error::CommandNotProvided);
    }
    let name = Name::from_str(args[0].as_str())?;
    if args.len() < 2 {
        return Err(Error::MetadataPathNotProvided);
    }
    let metadata_path = args[1].clone();
    match name {
        Name::Link => {
            if args.len() < 3 {
                return Err(Error::TargetRootNotProvided);
            }
            Ok(Type::Link(ArgsLink { metadata_path, target_root: args[2].clone() }))
        },
        Name::Register => {
            if args.len() < 3 {
                return Err(Error::LinkSourceNotProvided);
            }
            if args.len() < 4 {
                return Err(Error::LinkTargetNotProvided);
            }
            Ok(
                Type::Register(
                    ArgsRegister {
                        metadata_path,
                        source: args[2].clone(),
                        target: args[3].clone(),
                    },
                ),
            )
        },
        Name::Unlink => {
            if args.len() < 3 {
                return Err(Error::TargetRootNotProvided);
            }
            Ok(Type::Unlink(ArgsUnlink { metadata_path, target_root: args[2].clone() }))
        },
    }
}

} // verus!
