//! How a run ends: with success, or with the one error that stopped it.

use vstd::prelude::*;
use vstd::string::*;
use crate::command;
use crate::handler;

verus! {

/// What stopped a run: the command line, or the command itself.
#[derive(Debug)]
pub enum Error {
    Command(command::Error),
    Handler(handler::Error),
}

pub ghost enum ErrorView {
    Command(command::ErrorView),
    Handler(handler::ErrorView),
}

impl View for Error {
    type V = ErrorView;

    open spec fn view(&self) -> ErrorView {
        match *self {
            Error::Command(err) => ErrorView::Command(err@),
            Error::Handler(err) => ErrorView::Handler(err@),
        }
    }
}

/// The text shown for an error, with the text of its cause behind it.
pub open spec fn message_spec(e: ErrorView) -> Seq<char> {
    match e {
        ErrorView::Command(err) => "command: "@ + command::message_spec(err),
        ErrorView::Handler(err) => "handler: "@ + handler::message_spec(err),
    }
}

/// The text of the error below.
pub open spec fn source_spec(e: ErrorView) -> Seq<char> {
    match e {
        ErrorView::Command(err) => command::message_spec(err),
        ErrorView::Handler(err) => handler::message_spec(err),
    }
}

impl Error {
    /// The text shown for this error.
    pub fn to_string(&self) -> (r: String)
        ensures
            r@ == message_spec(self@),
    {
        match self {
            Error::Command(err) => {
                let mut out = String::from_str("command: ");
                out.append(err.to_string().as_str());
                out
            },
            Error::Handler(err) => {
                let mut out = String::from_str("handler: ");
                out.append(err.to_string().as_str());
                out
            },
        }
    }

    /// The text of the error below.
    pub fn source(&self) -> (r: Option<String>)
        ensures
            r is Some,
            r->Some_0@ == source_spec(self@),
    {
        match self {
            Error::Command(err) => Some(err.to_string()),
            Error::Handler(err) => Some(err.to_string()),
        }
    }
}

/// How a run ended.
#[derive(Debug)]
pub enum Status {
    Success,
    Failure(Error),
}

/// The line written to the error stream for a run that failed.
pub open spec fn report_spec(e: ErrorView) -> Seq<char> {
    "Error: "@ + message_spec(e)
}

impl Status {
    /// The exit code of the process: 0 on full success, 1 on any error.
    pub fn code(&self) -> (r: u8)
        ensures
            r == (if *self is Success {
                0u8
            } else {
                1u8
            }),
    {
        match self {
            Status::Success => 0,
            Status::Failure(_) => 1,
        }
    }

    /// The line for the error stream: none on success, else the error.
    pub fn report(&self) -> (r: Option<String>)
        ensures
            match *self {
                Status::Success => r is None,
                Status::Failure(err) => r is Some && r->Some_0@ == report_spec(err@),
            },
    {
        match self {
            Status::Success => None,
            Status::Failure(err) => {
                let mut out = String::from_str("Error: ");
                out.append(err.to_string().as_str());
                Some(out)
            },
        }
    }
}

/// The status of a run from the outcome of its command.
pub fn run(outcome: Result<(), Error>) -> (r: Status)
    ensures
        match outcome {
            Ok(_) => r is Success,
            Err(e) => r == Status::Failure(e),
        },
{
    match outcome {
        Ok(()) => Status::Success,
        Err(err) => Status::Failure(err),
    }
}

} // verus!
