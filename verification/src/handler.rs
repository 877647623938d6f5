//! The three commands, as far as they decide: `register` gives the text to
//! append to the metadata file, `link` and `unlink` the entries to
//! reconcile. Whatever fails is told under the command's name.

use vstd::prelude::*;
use vstd::string::*;
use crate::command::{ArgsLink, ArgsRegister, ArgsUnlink};
use crate::metadata;
use crate::path::{is_absolute_spec, join_spec};
use crate::metadata::{Config, Entry, EntryFacts, EntryView, NewEntry};
use crate::symlink;

verus! {

/// Why a command failed.
#[derive(Debug)]
pub enum Error {
    LinkCreate { err: symlink::Error, source: String, target: String },
    LinkReadMetadata(metadata::Error),
    LinkRemove { err: symlink::Error, source: String, target: String },
    RegisterNewEntryCreate(metadata::Error),
    RegisterNewEntryWrite(metadata::Error),
}

pub ghost enum ErrorView {
    LinkCreate { err: symlink::ErrorView, source: Seq<char>, target: Seq<char> },
    LinkReadMetadata(metadata::ErrorView),
    LinkRemove { err: symlink::ErrorView, source: Seq<char>, target: Seq<char> },
    RegisterNewEntryCreate(metadata::ErrorView),
    RegisterNewEntryWrite(metadata::ErrorView),
}

impl View for Error {
    type V = ErrorView;

    open spec fn view(&self) -> ErrorView {
        match *self {
            Error::LinkCreate { err, source, target } => ErrorView::LinkCreate {
                err: err@,
                source: source@,
                target: target@,
            },
            Error::LinkReadMetadata(err) => ErrorView::LinkReadMetadata(err@),
            Error::LinkRemove { err, source, target } => ErrorView::LinkRemove {
                err: err@,
                source: source@,
                target: target@,
            },
            Error::RegisterNewEntryCreate(err) => ErrorView::RegisterNewEntryCreate(err@),
            Error::RegisterNewEntryWrite(err) => ErrorView::RegisterNewEntryWrite(err@),
        }
    }
}

/// The text shown for an error: the command's part, then the text of what
/// went wrong below it.
pub open spec fn message_spec(e: ErrorView) -> Seq<char> {
    match e {
        ErrorView::LinkCreate { err, source, target } => "link: create "@ + source + " -> "@
            + target + ": "@ + symlink::message_spec(err),
        ErrorView::LinkReadMetadata(err) => "link: read metadata: "@ + metadata::message_spec(err),
        ErrorView::LinkRemove { err, source, target } => "link: remove "@ + source + " -> "@
            + target + ": "@ + symlink::message_spec(err),
        ErrorView::RegisterNewEntryCreate(err) => "register: create new entry: "@
            + metadata::message_spec(err),
        ErrorView::RegisterNewEntryWrite(err) => "register: write new entry: "@
            + metadata::message_spec(err),
    }
}

/// The text of the error below: every command error has one.
pub open spec fn source_spec(e: ErrorView) -> Seq<char> {
    match e {
        ErrorView::LinkCreate { err, .. } => symlink::message_spec(err),
        ErrorView::LinkReadMetadata(err) => metadata::message_spec(err),
        ErrorView::LinkRemove { err, .. } => symlink::message_spec(err),
        ErrorView::RegisterNewEntryCreate(err) => metadata::message_spec(err),
        ErrorView::RegisterNewEntryWrite(err) => metadata::message_spec(err),
    }
}

fn between(label: &str, source: &str, target: &str, text: &str) -> (r: String)
    ensures
        r@ == label@ + source@ + " -> "@ + target@ + ": "@ + text@,
{
    let mut out = String::from_str(label);
    out.append(source);
    out.append(" -> ");
    out.append(target);
    out.append(": ");
    out.append(text);
    out
}

fn prefixed(label: &str, text: &str) -> (r: String)
    ensures
        r@ == label@ + text@,
{
    let mut out = String::from_str(label);
    out.append(text);
    out
}

impl Error {
    /// The text shown for this error.
    pub fn to_string(&self) -> (r: String)
        ensures
            r@ == message_spec(self@),
    {
        match self {
            Error::LinkCreate { err, source, target } => between(
                "link: create ",
                source.as_str(),
                target.as_str(),
                err.to_string().as_str(),
            ),
            Error::LinkReadMetadata(err) => prefixed(
                "link: read metadata: ",
                err.to_string().as_str(),
            ),
            Error::LinkRemove { err, source, target } => between(
                "link: remove ",
                source.as_str(),
                target.as_str(),
                err.to_string().as_str(),
            ),
            Error::RegisterNewEntryCreate(err) => prefixed(
                "register: create new entry: ",
                err.to_string().as_str(),
            ),
            Error::RegisterNewEntryWrite(err) => prefixed(
                "register: write new entry: ",
                err.to_string().as_str(),
            ),
        }
    }

    /// The text of the error below.
    pub fn source(&self) -> (r: Option<String>)
        ensures
            r is Some,
            r->Some_0@ == source_spec(self@),
    {
        match self {
            Error::LinkCreate { err, .. } => Some(err.to_string()),
            Error::LinkReadMetadata(err) => Some(err.to_string()),
            Error::LinkRemove { err, .. } => Some(err.to_string()),
            Error::RegisterNewEntryCreate(err) => Some(err.to_string()),
            Error::RegisterNewEntryWrite(err) => Some(err.to_string()),
        }
    }
}

/// What `register` answers: the text that the pair adds to the metadata
/// file, or why the pair is refused.
pub open spec fn register_spec(source: Seq<char>, target: Seq<char>) -> Result<
    Seq<char>,
    ErrorView,
> {
    match metadata::new_entry_spec(source, target) {
        Ok(entry) => Ok(metadata::serialize_spec(entry)),
        Err(e) => Err(ErrorView::RegisterNewEntryCreate(e)),
    }
}

/// What `link` and `unlink` answer: the entries to reconcile, in file
/// order, or why the metadata was refused.
pub open spec fn entries_spec(
    config: Config,
    target_root: Seq<char>,
    root_is_dir: bool,
    facts: Seq<EntryFacts>,
) -> Result<Seq<EntryView>, ErrorView> {
    match metadata::read_spec(config, target_root, root_is_dir, facts) {
        Ok(entries) => Ok(entries),
        Err(e) => Err(ErrorView::LinkReadMetadata(e)),
    }
}

/// Validates the pair of a `register` command and gives the text to append
/// to the metadata file at `args.metadata_path`.
pub fn register(args: ArgsRegister) -> (r: Result<String, Error>)
    ensures
        match register_spec(args.source@, args.target@) {
            Ok(text) => r is Ok && r->Ok_0@ == text,
            Err(e) => r is Err && r->Err_0@ == e,
        },
{
    match NewEntry::create(args.source, args.target) {
        Ok(entry) => Ok(entry.serialize()),
        Err(e) => Err(Error::RegisterNewEntryCreate(e)),
    }
}

/// The entries that a `link` command is to reconcile towards links, each
/// by `symlink::create`.
pub fn link(args: &ArgsLink, config: &Config, root_is_dir: bool, facts: &Vec<EntryFacts>) -> (r:
    Result<Vec<Entry>, Error>)
    ensures
        match entries_spec(*config, args.target_root@, root_is_dir, facts@) {
            Ok(entries) => r is Ok && metadata::entry_views(r->Ok_0@) == entries,
            Err(e) => r is Err && r->Err_0@ == e,
        },
{
    match metadata::read_entries(config, args.target_root.as_str(), root_is_dir, facts) {
        Ok(entries) => Ok(entries),
        Err(e) => Err(Error::LinkReadMetadata(e)),
    }
}

/// The entries that an `unlink` command is to reconcile away from links,
/// each by `symlink::remove`.
pub fn unlink(args: &ArgsUnlink, config: &Config, root_is_dir: bool, facts: &Vec<EntryFacts>) -> (r:
    Result<Vec<Entry>, Error>)
    ensures
        match entries_spec(*config, args.target_root@, root_is_dir, facts@) {
            Ok(entries) => r is Ok && metadata::entry_views(r->Ok_0@) == entries,
            Err(e) => r is Err && r->Err_0@ == e,
        },
{
    match metadata::read_entries(config, args.target_root.as_str(), root_is_dir, facts) {
        Ok(entries) => Ok(entries),
        Err(e) => Err(Error::LinkReadMetadata(e)),
    }
}

/// Register, then link: a pair that the store accepts for `target_root`
/// becomes the position of its source and of its target below the root,
/// and where `create` answers there for a source that is a file, the
/// target stands as a link that resolves to the source once the steps are
/// carried out.
pub proof fn lemma_registered_pair_is_linked(
    source: Seq<char>,
    target: Seq<char>,
    target_root: Seq<char>,
    facts: EntryFacts,
    before: symlink::ProbeView,
)
    requires
        metadata::entry_spec(source, target, target_root, facts) is Ok,
        symlink::create_spec(
            source,
            join_spec(target_root, target),
            symlink::FactsView { source: symlink::PathType::File, target: before },
        ) is Ok,
    ensures
        metadata::entry_spec(source, target, target_root, facts) == Ok::<
            EntryView,
            metadata::ErrorView,
        >(
            EntryView {
                source_path: source,
                target_path: join_spec(target_root, target),
            },
        ),
        symlink::classify(
            source,
            join_spec(target_root, target),
            symlink::after_create(
                source,
                join_spec(target_root, target),
                symlink::FactsView { source: symlink::PathType::File, target: before },
            ),
        ) == Ok::<symlink::TargetState, symlink::ErrorView>(symlink::TargetState::Equals),
{
    symlink::lemma_create_links_file(source, join_spec(target_root, target), before);
}

/// A target that is declared twice stops `link` and `unlink` before
/// anything is touched: where two pairs of the file declare the same
/// target, no entry is given, whatever was observed, and the error names
/// the later pair as a duplicate.
pub proof fn lemma_duplicate_target_gives_no_entries(
    lines: Vec<metadata::Line>,
    target_root: Seq<char>,
    facts: Seq<EntryFacts>,
    first: int,
    second: int,
)
    requires
        is_absolute_spec(target_root),
        metadata::parse_spec(lines@) is Ok,
        0 <= first < second < metadata::parse_spec(lines@)->Ok_0.len(),
        metadata::parse_spec(lines@)->Ok_0[first].target == metadata::parse_spec(
            lines@,
        )->Ok_0[second].target,
    ensures
        entries_spec(Config::Lines(lines), target_root, true, facts) matches Err(
            ErrorView::LinkReadMetadata(metadata::ErrorView::ParseEntries(errors)),
        ) && errors.contains(
            metadata::ErrorView::EntryTargetDuplicate {
                source: metadata::parse_spec(lines@)->Ok_0[second].source,
                target: metadata::parse_spec(lines@)->Ok_0[second].target,
            },
        ),
{
    metadata::lemma_duplicate_target(
        metadata::parse_spec(lines@)->Ok_0,
        facts,
        target_root,
        first,
        second,
    );
}

} // verus!
