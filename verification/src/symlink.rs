//! The link reconciler: classifies one target position against the link
//! that is wanted there, and names the steps that create or remove it.
//!
//! Nothing here touches the filesystem. The caller observes a position
//! (`Facts`), asks for the steps (`create`, `remove`), carries them out in
//! order, and comes back with fresh observations for every step that names
//! a position of its own.

use vstd::prelude::*;
use vstd::string::*;
use crate::path::{join, join_spec, lies_under, same, starts_with};

verus! {

/// The kind of a filesystem node, as far as reconciliation cares.
#[derive(Clone, Copy, Debug, PartialEq, Eq, Structural)]
pub enum PathType {
    Directory,
    File,
}

impl PathType {
    /// The kind of a node of which only "is it a directory" is known.
    pub fn from(is_dir: bool) -> (r: PathType)
        ensures
            r == (if is_dir {
                PathType::Directory
            } else {
                PathType::File
            }),
    {
        if is_dir {
            PathType::Directory
        } else {
            PathType::File
        }
    }
}

/// What was observed at a target path.
#[derive(Debug)]
pub enum Probe {
    /// Nothing is found there.
    Missing,
    /// A symbolic link whose full resolution failed, with the cause.
    Broken(String),
    /// A symbolic link that fully resolves to `path`, a node of kind `kind`.
    Link { path: String, kind: PathType },
    /// A node that is no symbolic link.
    Plain(PathType),
}

pub ghost enum ProbeView {
    Missing,
    Broken(Seq<char>),
    Link { path: Seq<char>, kind: PathType },
    Plain(PathType),
}

impl View for Probe {
    type V = ProbeView;

    open spec fn view(&self) -> ProbeView {
        match *self {
            Probe::Missing => ProbeView::Missing,
            Probe::Broken(cause) => ProbeView::Broken(cause@),
            Probe::Link { path, kind } => ProbeView::Link { path: path@, kind },
            Probe::Plain(kind) => ProbeView::Plain(kind),
        }
    }
}

/// What was observed of one (source, target) position: the kind of the
/// source, and what stands at the target.
#[derive(Debug)]
pub struct Facts {
    pub source: PathType,
    pub target: Probe,
}

pub ghost struct FactsView {
    pub source: PathType,
    pub target: ProbeView,
}

impl View for Facts {
    type V = FactsView;

    open spec fn view(&self) -> FactsView {
        FactsView { source: self.source, target: self.target@ }
    }
}

/// How a target position relates to the wanted source.
#[derive(Clone, Copy, Debug, PartialEq, Eq, Structural)]
pub enum TargetState {
    Equals,
    NotPresent,
    Occupied(PathType),
    LinksTo(PathType),
}

/// What stands between a position and the wanted link.
#[derive(Debug)]
pub enum State {
    Equals,
    VacantFile { source_path: String, target_path: String, target_exists: bool },
    VacantDirectory { source_path: String, target_path: String },
}

pub ghost enum StateView {
    Equals,
    VacantFile { source_path: Seq<char>, target_path: Seq<char>, target_exists: bool },
    VacantDirectory { source_path: Seq<char>, target_path: Seq<char> },
}

impl View for State {
    type V = StateView;

    open spec fn view(&self) -> StateView {
        match *self {
            State::Equals => StateView::Equals,
            State::VacantFile { source_path, target_path, target_exists } => StateView::VacantFile {
                source_path: source_path@,
                target_path: target_path@,
                target_exists,
            },
            State::VacantDirectory { source_path, target_path } => StateView::VacantDirectory {
                source_path: source_path@,
                target_path: target_path@,
            },
        }
    }
}

/// Why a reconciliation stopped. `err` is the text of the underlying cause.
#[derive(Debug)]
pub enum Error {
    CanonicalizeTarget { err: String, path: String },
    CreateNewSymlink { err: String, source: String, target: String },
    CreateParent { err: String, path: String },
    CreateTargetDirectory { err: String, path: String },
    ReadDirectory { err: String, path: String },
    TargetOccupied(String),
    Unlink { err: String, path: String },
}

pub ghost enum ErrorView {
    CanonicalizeTarget { err: Seq<char>, path: Seq<char> },
    CreateNewSymlink { err: Seq<char>, source: Seq<char>, target: Seq<char> },
    CreateParent { err: Seq<char>, path: Seq<char> },
    CreateTargetDirectory { err: Seq<char>, path: Seq<char> },
    ReadDirectory { err: Seq<char>, path: Seq<char> },
    TargetOccupied(Seq<char>),
    Unlink { err: Seq<char>, path: Seq<char> },
}

impl View for Error {
    type V = ErrorView;

    open spec fn view(&self) -> ErrorView {
        match *self {
            Error::CanonicalizeTarget { err, path } => ErrorView::CanonicalizeTarget {
                err: err@,
                path: path@,
            },
            Error::CreateNewSymlink { err, source, target } => ErrorView::CreateNewSymlink {
                err: err@,
                source: source@,
                target: target@,
            },
            Error::CreateParent { err, path } => ErrorView::CreateParent { err: err@, path: path@ },
            Error::CreateTargetDirectory { err, path } => ErrorView::CreateTargetDirectory {
                err: err@,
                path: path@,
            },
            Error::ReadDirectory { err, path } => ErrorView::ReadDirectory {
                err: err@,
                path: path@,
            },
            Error::TargetOccupied(path) => ErrorView::TargetOccupied(path@),
            Error::Unlink { err, path } => ErrorView::Unlink { err: err@, path: path@ },
        }
    }
}

/// The text shown for an error.
pub open spec fn message_spec(e: ErrorView) -> Seq<char> {
    match e {
        ErrorView::CanonicalizeTarget { err, path } => "canonicalize target: "@ + path + ": "@
            + err,
        ErrorView::CreateNewSymlink { err, source, target } => "create new symlink: "@ + source
            + " -> "@ + target + ": "@ + err,
        ErrorView::CreateParent { err, path } => "create parent directory for "@ + path + ": "@
            + err,
        ErrorView::CreateTargetDirectory { err, path } => "create target directory: "@ + path
            + ": "@ + err,
        ErrorView::ReadDirectory { err, path } => "read directory: "@ + path + ": "@ + err,
        ErrorView::TargetOccupied(path) => "target occupied: "@ + path,
        ErrorView::Unlink { err, path } => "unlink: "@ + path + ": "@ + err,
    }
}

/// The text of the underlying cause, where there is one.
pub open spec fn source_spec(e: ErrorView) -> Option<Seq<char>> {
    match e {
        ErrorView::CanonicalizeTarget { err, .. } => Some(err),
        ErrorView::CreateNewSymlink { err, .. } => Some(err),
        ErrorView::CreateParent { err, .. } => Some(err),
        ErrorView::CreateTargetDirectory { err, .. } => Some(err),
        ErrorView::ReadDirectory { err, .. } => Some(err),
        ErrorView::TargetOccupied(_) => None,
        ErrorView::Unlink { err, .. } => Some(err),
    }
}

fn labelled(label: &str, path: &str, err: &str) -> (r: String)
    ensures
        r@ == label@ + path@ + ": "@ + err@,
{
    let mut out = String::from_str(label);
    out.append(path);
    out.append(": ");
    out.append(err);
    out
}

impl Error {
    pub fn canonicalize_target(err: String, path: &str) -> (r: Error)
        ensures
            r@ == (ErrorView::CanonicalizeTarget { err: err@, path: path@ }),
    {
        Error::CanonicalizeTarget { err, path: String::from_str(path) }
    }

    pub fn create_new_symlink(err: String, source: &str, target: &str) -> (r: Error)
        ensures
            r@ == (ErrorView::CreateNewSymlink { err: err@, source: source@, target: target@ }),
    {
        Error::CreateNewSymlink {
            err,
            source: String::from_str(source),
            target: String::from_str(target),
        }
    }

    pub fn create_parent(err: String, path: &str) -> (r: Error)
        ensures
            r@ == (ErrorView::CreateParent { err: err@, path: path@ }),
    {
        Error::CreateParent { err, path: String::from_str(path) }
    }

    pub fn create_target_directory(err: String, path: &str) -> (r: Error)
        ensures
            r@ == (ErrorView::CreateTargetDirectory { err: err@, path: path@ }),
    {
        Error::CreateTargetDirectory { err, path: String::from_str(path) }
    }

    pub fn read_directory(err: String, path: &str) -> (r: Error)
        ensures
            r@ == (ErrorView::ReadDirectory { err: err@, path: path@ }),
    {
        Error::ReadDirectory { err, path: String::from_str(path) }
    }

    pub fn target_occupied(path: &str) -> (r: Error)
        ensures
            r@ == ErrorView::TargetOccupied(path@),
    {
        Error::TargetOccupied(String::from_str(path))
    }

    pub fn unlink(err: String, path: &str) -> (r: Error)
        ensures
            r@ == (ErrorView::Unlink { err: err@, path: path@ }),
    {
        Error::Unlink { err, path: String::from_str(path) }
    }

    /// The text shown for this error.
    pub fn to_string(&self) -> (r: String)
        ensures
            r@ == message_spec(self@),
    {
        match self {
            Error::CanonicalizeTarget { err, path } => labelled(
                "canonicalize target: ",
                path.as_str(),
                err.as_str(),
            ),
            Error::CreateNewSymlink { err, source, target } => {
                let mut out = String::from_str("create new symlink: ");
                out.append(source.as_str());
                out.append(" -> ");
                out.append(target.as_str());
                out.append(": ");
                out.append(err.as_str());
                out
            },
            Error::CreateParent { err, path } => labelled(
                "create parent directory for ",
                path.as_str(),
                err.as_str(),
            ),
            Error::CreateTargetDirectory { err, path } => labelled(
                "create target directory: ",
                path.as_str(),
                err.as_str(),
            ),
            Error::ReadDirectory { err, path } => labelled(
                "read directory: ",
                path.as_str(),
                err.as_str(),
            ),
            Error::TargetOccupied(path) => {
                let mut out = String::from_str("target occupied: ");
                out.append(path.as_str());
                out
            },
            Error::Unlink { err, path } => labelled("unlink: ", path.as_str(), err.as_str()),
        }
    }

    /// The text of the underlying cause, where there is one.
    pub fn source(&self) -> (r: Option<String>)
        ensures
            match source_spec(self@) {
                Some(cause) => r is Some && r->Some_0@ == cause,
                None => r is None,
            },
    {
        match self {
            Error::CanonicalizeTarget { err, .. } => Some(err.clone()),
            Error::CreateNewSymlink { err, .. } => Some(err.clone()),
            Error::CreateParent { err, .. } => Some(err.clone()),
            Error::CreateTargetDirectory { err, .. } => Some(err.clone()),
            Error::ReadDirectory { err, .. } => Some(err.clone()),
            Error::TargetOccupied(_) => None,
            Error::Unlink { err, .. } => Some(err.clone()),
        }
    }
}

/// The relation of a target position to `source`, from what was observed
/// there: absent; a link that resolves to exactly `source`; a link that
/// resolves elsewhere; a node that is no link. A link that cannot be
/// resolved is an error and never counts as absent.
pub open spec fn classify(source: Seq<char>, target: Seq<char>, probe: ProbeView) -> Result<
    TargetState,
    ErrorView,
> {
    match probe {
        ProbeView::Missing => Ok(TargetState::NotPresent),
        ProbeView::Broken(cause) => Err(ErrorView::CanonicalizeTarget { err: cause, path: target }),
        ProbeView::Link { path, kind } => if path == source {
            Ok(TargetState::Equals)
        } else {
            Ok(TargetState::LinksTo(kind))
        },
        ProbeView::Plain(kind) => Ok(TargetState::Occupied(kind)),
    }
}

/// The decision table: source kind and target relation to what stands
/// between the position and the wanted link, or a refusal.
pub open spec fn decide(
    source: Seq<char>,
    target: Seq<char>,
    kind: PathType,
    relation: TargetState,
) -> Result<StateView, ErrorView> {
    match (kind, relation) {
        (_, TargetState::Equals) => Ok(StateView::Equals),
        (PathType::Directory, TargetState::NotPresent) | (
            PathType::Directory,
            TargetState::Occupied(PathType::Directory),
        ) => Ok(StateView::VacantDirectory { source_path: source, target_path: target }),
        (PathType::File, TargetState::NotPresent) => Ok(
            StateView::VacantFile { source_path: source, target_path: target, target_exists: false },
        ),
        (PathType::File, TargetState::LinksTo(PathType::File)) => Ok(
            StateView::VacantFile { source_path: source, target_path: target, target_exists: true },
        ),
        _ => Err(ErrorView::TargetOccupied(target)),
    }
}

/// `classify`, then `decide`.
pub open spec fn state_spec(source: Seq<char>, target: Seq<char>, facts: FactsView) -> Result<
    StateView,
    ErrorView,
> {
    match classify(source, target, facts.target) {
        Ok(relation) => decide(source, target, facts.source, relation),
        Err(e) => Err(e),
    }
}

impl TargetState {
    pub fn new(source: &str, target: &str, probe: &Probe) -> (r: Result<TargetState, Error>)
        ensures
            match classify(source@, target@, probe@) {
                Ok(relation) => r == Ok::<TargetState, Error>(relation),
                Err(e) => r is Err && r->Err_0@ == e,
            },
    {
        match probe {
            Probe::Missing => Ok(TargetState::NotPresent),
            Probe::Broken(cause) => Err(Error::canonicalize_target(cause.clone(), target)),
            Probe::Link { path, kind } => {
                if same(path.as_str(), source) {
                    Ok(TargetState::Equals)
                } else {
                    Ok(TargetState::LinksTo(*kind))
                }
            },
            Probe::Plain(kind) => Ok(TargetState::Occupied(*kind)),
        }
    }
}

impl State {
    /// Applies the decision table to one position.
    pub fn decide(source_path: &str, target_path: &str, kind: PathType, relation: TargetState) -> (r:
        Result<State, Error>)
        ensures
            match decide(source_path@, target_path@, kind, relation) {
                Ok(state) => r is Ok && r->Ok_0@ == state,
                Err(e) => r is Err && r->Err_0@ == e,
            },
    {
        match (kind, relation) {
            (PathType::Directory, TargetState::Equals) => Ok(State::Equals),
            (PathType::Directory, TargetState::NotPresent) | (
                PathType::Directory,
                TargetState::Occupied(PathType::Directory),
            ) => Ok(
                State::VacantDirectory {
                    source_path: String::from_str(source_path),
                    target_path: String::from_str(target_path),
                },
            ),
            (PathType::Directory, TargetState::Occupied(PathType::File)) | (
                PathType::Directory,
                TargetState::LinksTo(PathType::File),
            ) | (PathType::Directory, TargetState::LinksTo(PathType::Directory)) => Err(
                Error::target_occupied(target_path),
            ),
            (PathType::File, TargetState::Equals) => Ok(State::Equals),
            (PathType::File, TargetState::NotPresent) => Ok(
                State::VacantFile {
                    source_path: String::from_str(source_path),
                    target_path: String::from_str(target_path),
                    target_exists: false,
                },
            ),
            (PathType::File, TargetState::Occupied(PathType::Directory)) | (
                PathType::File,
                TargetState::Occupied(PathType::File),
            ) | (PathType::File, TargetState::LinksTo(PathType::Directory)) => Err(
                Error::target_occupied(target_path),
            ),
            (PathType::File, TargetState::LinksTo(PathType::File)) => Ok(
                State::VacantFile {
                    source_path: String::from_str(source_path),
                    target_path: String::from_str(target_path),
                    target_exists: true,
                },
            ),
        }
    }

    /// Classifies the target, then applies the decision table.
    pub fn new(source_path: &str, target_path: &str, facts: &Facts) -> (r: Result<State, Error>)
        ensures
            match state_spec(source_path@, target_path@, facts@) {
                Ok(state) => r is Ok && r->Ok_0@ == state,
                Err(e) => r is Err && r->Err_0@ == e,
            },
    {
        match TargetState::new(source_path, target_path, &facts.target) {
            Ok(relation) => State::decide(source_path, target_path, facts.source, relation),
            Err(e) => Err(e),
        }
    }
}

/// One step towards a link or away from it. The first four change the
/// filesystem at one path. The others name positions that are to be
/// observed and decided in their turn.
#[derive(Debug)]
pub enum Action {
    /// Unlink the symbolic link at `path`.
    RemoveSymlink { path: String },
    /// Create whatever directories are missing above `path`.
    CreateParent { path: String },
    /// Create a symbolic link at `target` that points to `source`.
    CreateSymlink { source: String, target: String },
    /// Create the directory `path`.
    CreateDirectory { path: String },
    /// List the directory `source` and link each of its entries below
    /// `target` (`create_directory`).
    CreateEntries { source: String, target: String },
    /// List the directory `target` and clear what it holds of `source`
    /// (`remove_directory_entries`).
    RemoveEntries { source: String, target: String },
    /// Observe the entry `name` of the directory `target` and decide it
    /// (`remove_directory_entry`).
    RemoveEntry { source: String, target: String, name: String },
    /// Reconcile the position (`source`, `target`) towards a link
    /// (`create`).
    Create { source: String, target: String },
    /// Reconcile the position (`source`, `target`) away from a link
    /// (`remove`).
    Remove { source: String, target: String },
}

pub ghost enum ActionView {
    RemoveSymlink { path: Seq<char> },
    CreateParent { path: Seq<char> },
    CreateSymlink { source: Seq<char>, target: Seq<char> },
    CreateDirectory { path: Seq<char> },
    CreateEntries { source: Seq<char>, target: Seq<char> },
    RemoveEntries { source: Seq<char>, target: Seq<char> },
    RemoveEntry { source: Seq<char>, target: Seq<char>, name: Seq<char> },
    Create { source: Seq<char>, target: Seq<char> },
    Remove { source: Seq<char>, target: Seq<char> },
}

impl View for Action {
    type V = ActionView;

    open spec fn view(&self) -> ActionView {
        match *self {
            Action::RemoveSymlink { path } => ActionView::RemoveSymlink { path: path@ },
            Action::CreateParent { path } => ActionView::CreateParent { path: path@ },
            Action::CreateSymlink { source, target } => ActionView::CreateSymlink {
                source: source@,
                target: target@,
            },
            Action::CreateDirectory { path } => ActionView::CreateDirectory { path: path@ },
            Action::CreateEntries { source, target } => ActionView::CreateEntries {
                source: source@,
                target: target@,
            },
            Action::RemoveEntries { source, target } => ActionView::RemoveEntries {
                source: source@,
                target: target@,
            },
            Action::RemoveEntry { source, target, name } => ActionView::RemoveEntry {
                source: source@,
                target: target@,
                name: name@,
            },
            Action::Create { source, target } => ActionView::Create {
                source: source@,
                target: target@,
            },
            Action::Remove { source, target } => ActionView::Remove {
                source: source@,
                target: target@,
            },
        }
    }
}

/// The steps of a list, each by its view.
pub open spec fn steps(actions: Seq<Action>) -> Seq<ActionView> {
    actions.map_values(|a: Action| a@)
}

/// Whether anything was found at the probed path.
pub open spec fn present(probe: ProbeView) -> bool {
    !(probe is Missing)
}

/// Linking a file: the missing directories above the target, then the link.
pub open spec fn create_file_spec(source: Seq<char>, target: Seq<char>) -> Seq<ActionView> {
    seq![
        ActionView::CreateParent { path: target },
        ActionView::CreateSymlink { source: source, target: target },
    ]
}

/// Linking a directory: a real directory at the target, made unless one is
/// there, then its entries.
pub open spec fn enter_directory_spec(
    source: Seq<char>,
    target: Seq<char>,
    target_present: bool,
) -> Seq<ActionView> {
    if target_present {
        seq![ActionView::CreateEntries { source: source, target: target }]
    } else {
        seq![
            ActionView::CreateDirectory { path: target },
            ActionView::CreateEntries { source: source, target: target },
        ]
    }
}

/// The steps that bring a position in `state` to the wanted link.
pub open spec fn create_steps(state: StateView, target_present: bool) -> Seq<ActionView> {
    match state {
        StateView::Equals => seq![],
        StateView::VacantFile { source_path, target_path, target_exists } => if target_exists {
            seq![ActionView::RemoveSymlink { path: target_path }] + create_file_spec(
                source_path,
                target_path,
            )
        } else {
            create_file_spec(source_path, target_path)
        },
        StateView::VacantDirectory { source_path, target_path } => enter_directory_spec(
            source_path,
            target_path,
            target_present,
        ),
    }
}

/// The steps that take the link away from a position in `state`: a link to
/// the source, or a stale link to some file, is unlinked; a real directory
/// is kept and only searched.
pub open spec fn remove_steps(state: StateView, target: Seq<char>, target_present: bool) -> Seq<
    ActionView,
> {
    match state {
        StateView::Equals => seq![ActionView::RemoveSymlink { path: target }],
        StateView::VacantFile { source_path, target_path, target_exists } => if target_exists {
            seq![ActionView::RemoveSymlink { path: target }]
        } else {
            seq![]
        },
        StateView::VacantDirectory { source_path, target_path } => if target_present {
            seq![ActionView::RemoveEntries { source: source_path, target: target_path }]
        } else {
            seq![]
        },
    }
}

/// What `create` answers: the steps, or the refusal.
pub open spec fn create_spec(source: Seq<char>, target: Seq<char>, facts: FactsView) -> Result<
    Seq<ActionView>,
    ErrorView,
> {
    match state_spec(source, target, facts) {
        Ok(state) => Ok(create_steps(state, present(facts.target))),
        Err(e) => Err(e),
    }
}

/// What `remove` answers: the steps, or the refusal.
pub open spec fn remove_spec(source: Seq<char>, target: Seq<char>, facts: FactsView) -> Result<
    Seq<ActionView>,
    ErrorView,
> {
    match state_spec(source, target, facts) {
        Ok(state) => Ok(remove_steps(state, target, present(facts.target))),
        Err(e) => Err(e),
    }
}

fn probe_present(probe: &Probe) -> (r: bool)
    ensures
        r == present(probe@),
{
    match probe {
        Probe::Missing => false,
        _ => true,
    }
}

fn create_file(source: &str, target: &str, actions: &mut Vec<Action>)
    ensures
        steps(final(actions)@) == steps(old(actions)@) + create_file_spec(source@, target@),
{
    actions.push(Action::CreateParent { path: String::from_str(target) });
    actions.push(
        Action::CreateSymlink {
            source: String::from_str(source),
            target: String::from_str(target),
        },
    );
    assert(steps(actions@) =~= steps(old(actions)@) + create_file_spec(source@, target@));
}

fn enter_directory(source: &str, target: &str, target_present: bool) -> (r: Vec<Action>)
    ensures
        steps(r@) == enter_directory_spec(source@, target@, target_present),
{
    let mut actions: Vec<Action> = Vec::new();
    if !target_present {
        actions.push(Action::CreateDirectory { path: String::from_str(target) });
    }
    actions.push(
        Action::CreateEntries {
            source: String::from_str(source),
            target: String::from_str(target),
        },
    );
    assert(steps(actions@) =~= enter_directory_spec(source@, target@, target_present));
    actions
}

fn remove_symlink(path: &str) -> (r: Vec<Action>)
    ensures
        steps(r@) == seq![ActionView::RemoveSymlink { path: path@ }],
{
    let mut actions: Vec<Action> = Vec::new();
    actions.push(Action::RemoveSymlink { path: String::from_str(path) });
    assert(steps(actions@) =~= seq![ActionView::RemoveSymlink { path: path@ }]);
    actions
}

/// The steps that make `target` a link to `source`, from what was observed
/// of the two; none where the link already stands. A target that holds
/// anything but a link to a file is refused, and then there are no steps.
pub fn create(source: &str, target: &str, facts: &Facts) -> (r: Result<Vec<Action>, Error>)
    ensures
        match create_spec(source@, target@, facts@) {
            Ok(wanted) => r is Ok && steps(r->Ok_0@) == wanted,
            Err(e) => r is Err && r->Err_0@ == e,
        },
{
    let state = State::new(source, target, facts)?;
    match state {
        State::Equals => {
            let actions: Vec<Action> = Vec::new();
            assert(steps(actions@) =~= Seq::<ActionView>::empty());
            Ok(actions)
        },
        State::VacantFile { source_path, target_path, target_exists } => {
            let mut actions: Vec<Action> = Vec::new();
            if target_exists {
                actions = remove_symlink(target_path.as_str());
            }
            assert(!target_exists ==> steps(actions@) =~= Seq::<ActionView>::empty());
            create_file(source_path.as_str(), target_path.as_str(), &mut actions);
            assert(steps(actions@) =~= create_steps(state@, present(facts@.target)));
            Ok(actions)
        },
        State::VacantDirectory { source_path, target_path } => Ok(
            enter_directory(
                source_path.as_str(),
                target_path.as_str(),
                probe_present(&facts.target),
            ),
        ),
    }
}

/// The steps that take the link to `source` away from `target`, from what
/// was observed of the two. Only symbolic links are ever unlinked; a real
/// directory stays and is searched for links into `source`.
pub fn remove(source: &str, target: &str, facts: &Facts) -> (r: Result<Vec<Action>, Error>)
    ensures
        match remove_spec(source@, target@, facts@) {
            Ok(wanted) => r is Ok && steps(r->Ok_0@) == wanted,
            Err(e) => r is Err && r->Err_0@ == e,
        },
{
    let state = State::new(source, target, facts)?;
    match state {
        State::Equals => Ok(remove_symlink(target)),
        State::VacantFile { target_exists, .. } => {
            if target_exists {
                Ok(remove_symlink(target))
            } else {
                let actions: Vec<Action> = Vec::new();
                assert(steps(actions@) =~= Seq::<ActionView>::empty());
                Ok(actions)
            }
        },
        State::VacantDirectory { source_path, target_path } => {
            let mut actions: Vec<Action> = Vec::new();
            if probe_present(&facts.target) {
                actions.push(Action::RemoveEntries { source: source_path, target: target_path });
            }
            assert(steps(actions@) =~= remove_steps(state@, target@, present(facts@.target)));
            Ok(actions)
        },
    }
}

/// The positions below a linked directory: one for each name that the
/// source directory lists, in the order of the listing.
pub open spec fn create_directory_spec(
    source: Seq<char>,
    target: Seq<char>,
    names: Seq<String>,
) -> Seq<ActionView> {
    Seq::new(
        names.len(),
        |i: int|
            ActionView::Create {
                source: join_spec(source, names[i]@),
                target: join_spec(target, names[i]@),
            },
    )
}

/// Answers `CreateEntries`: `names` is what the directory `source` lists.
/// Each entry becomes a position of its own, to be reconciled towards a
/// link below `target` under the same name.
pub fn create_directory(source: &str, target: &str, names: &Vec<String>) -> (r: Vec<Action>)
    ensures
        steps(r@) == create_directory_spec(source@, target@, names@),
{
    let mut actions: Vec<Action> = Vec::new();
    let mut i: usize = 0;
    while i < names.len()
        invariant
            i <= names.len(),
            actions@.len() == i,
            forall|k: int|
                0 <= k < i ==> (#[trigger] actions@[k])@ == (ActionView::Create {
                    source: join_spec(source@, names@[k]@),
                    target: join_spec(target@, names@[k]@),
                }),
        decreases names.len() - i,
    {
        let name = names[i].as_str();
        actions.push(Action::Create { source: join(source, name), target: join(target, name) });
        i += 1;
    }
    assert(steps(actions@) =~= create_directory_spec(source@, target@, names@));
    actions
}

/// What one entry of a target directory was found to be.
#[derive(Debug)]
pub enum EntryKind {
    /// A symbolic link whose full resolution failed, with the cause.
    Broken(String),
    /// A symbolic link that fully resolves to this path.
    Link(String),
    /// A real directory; `mirrored` says whether the source side holds a
    /// directory of the same name.
    Directory { mirrored: bool },
    /// Anything else.
    Other,
}

/// One entry of a listed target directory.
#[derive(Debug)]
pub struct DirEntry {
    pub name: String,
    pub kind: EntryKind,
}

/// What one entry of a target directory asks for while links into `source`
/// are cleared. `owned` says whether a link's resolved path lies under
/// `source`: only then is the link taken up, as a position whose source is
/// the resolved path. A real directory is searched where the source side
/// has one of the same name, and never removed. A link that cannot be
/// resolved stops the work.
pub open spec fn entry_spec(source: Seq<char>, target: Seq<char>, entry: DirEntry, owned: bool) -> Result<
    Seq<ActionView>,
    ErrorView,
> {
    match entry.kind {
        EntryKind::Broken(cause) => Err(
            ErrorView::CanonicalizeTarget { err: cause@, path: join_spec(target, entry.name@) },
        ),
        EntryKind::Link(resolved) => if owned {
            Ok(seq![ActionView::Remove { source: resolved@, target: join_spec(target, entry.name@) }])
        } else {
            Ok(seq![])
        },
        EntryKind::Directory { mirrored } => if mirrored {
            Ok(
                seq![
                    ActionView::RemoveEntries {
                        source: join_spec(source, entry.name@),
                        target: join_spec(target, entry.name@),
                    },
                ],
            )
        } else {
            Ok(seq![])
        },
        EntryKind::Other => Ok(seq![]),
    }
}

/// Whether the resolved path of a link entry lies under `source`; false
/// for an entry that is no resolved link.
pub open spec fn owned_spec(source: Seq<char>, entry: DirEntry) -> bool {
    match entry.kind {
        EntryKind::Link(resolved) => lies_under(resolved@, source),
        _ => false,
    }
}

/// The decision for one entry, given whether its resolved path lies under
/// `source`.
pub fn decide_entry(source: &str, target: &str, entry: &DirEntry, owned: bool) -> (r: Result<
    Vec<Action>,
    Error,
>)
    ensures
        match entry_spec(source@, target@, *entry, owned) {
            Ok(wanted) => r is Ok && steps(r->Ok_0@) == wanted,
            Err(e) => r is Err && r->Err_0@ == e,
        },
{
    let mut actions: Vec<Action> = Vec::new();
    assert(steps(actions@) =~= Seq::<ActionView>::empty());
    match &entry.kind {
        EntryKind::Broken(cause) => {
            let path = join(target, entry.name.as_str());
            return Err(Error::canonicalize_target(cause.clone(), path.as_str()));
        },
        EntryKind::Link(resolved) => {
            if owned {
                actions.push(
                    Action::Remove {
                        source: resolved.clone(),
                        target: join(target, entry.name.as_str()),
                    },
                );
            }
        },
        EntryKind::Directory { mirrored } => {
            if *mirrored {
                actions.push(
                    Action::RemoveEntries {
                        source: join(source, entry.name.as_str()),
                        target: join(target, entry.name.as_str()),
                    },
                );
            }
        },
        EntryKind::Other => {},
    }
    assert(steps(actions@) =~= entry_spec(source@, target@, *entry, owned)->Ok_0);
    Ok(actions)
}

/// Answers `RemoveEntry`: `entry` is what was observed of one entry of the
/// directory `target`. A link is taken up only where its resolved path
/// lies under `source`.
pub fn remove_directory_entry(source: &str, target: &str, entry: &DirEntry) -> (r: Result<
    Vec<Action>,
    Error,
>)
    ensures
        match entry_spec(source@, target@, *entry, owned_spec(source@, *entry)) {
            Ok(wanted) => r is Ok && steps(r->Ok_0@) == wanted,
            Err(e) => r is Err && r->Err_0@ == e,
        },
{
    let owned = match &entry.kind {
        EntryKind::Link(resolved) => starts_with(resolved.as_str(), source),
        _ => false,
    };
    decide_entry(source, target, entry, owned)
}

/// The entries of a directory that is cleared: one for each name that the
/// target directory lists, in the order of the listing.
pub open spec fn remove_directory_entries_spec(
    source: Seq<char>,
    target: Seq<char>,
    names: Seq<String>,
) -> Seq<ActionView> {
    Seq::new(
        names.len(),
        |i: int| ActionView::RemoveEntry { source: source, target: target, name: names[i]@ },
    )
}

/// Answers `RemoveEntries`: `names` is what the directory `target` lists.
/// Each entry is to be observed and decided in its turn, when those before
/// it are done with.
pub fn remove_directory_entries(source: &str, target: &str, names: &Vec<String>) -> (r: Vec<Action>)
    ensures
        steps(r@) == remove_directory_entries_spec(source@, target@, names@),
{
    let mut actions: Vec<Action> = Vec::new();
    let mut i: usize = 0;
    while i < names.len()
        invariant
            i <= names.len(),
            actions@.len() == i,
            forall|k: int|
                0 <= k < i ==> (#[trigger] actions@[k])@ == (ActionView::RemoveEntry {
                    source: source@,
                    target: target@,
                    name: names@[k]@,
                }),
        decreases names.len() - i,
    {
        actions.push(
            Action::RemoveEntry {
                source: String::from_str(source),
                target: String::from_str(target),
                name: names[i].clone(),
            },
        );
        i += 1;
    }
    assert(steps(actions@) =~= remove_directory_entries_spec(source@, target@, names@));
    actions
}

/// Whether a step changes the filesystem itself, rather than name a
/// position that is to be decided next.
pub open spec fn mutates(step: ActionView) -> bool {
    step is RemoveSymlink || step is CreateParent || step is CreateSymlink
        || step is CreateDirectory
}

/// What stands at the path `at` once `step` has been carried out, where
/// `before` stood there. A new link is taken to resolve to its source, a
/// node of kind `kind`. Steps at other paths, and steps that only name
/// positions, leave `at` as it was.
pub open spec fn after_step(step: ActionView, at: Seq<char>, kind: PathType, before: ProbeView) -> ProbeView {
    match step {
        ActionView::RemoveSymlink { path } => if path == at {
            ProbeView::Missing
        } else {
            before
        },
        ActionView::CreateSymlink { source, target } => if target == at {
            ProbeView::Link { path: source, kind }
        } else {
            before
        },
        ActionView::CreateDirectory { path } => if path == at {
            ProbeView::Plain(PathType::Directory)
        } else {
            before
        },
        _ => before,
    }
}

/// What stands at `at` once the first `n` of `steps` have been carried out
/// in order.
pub open spec fn after_steps(
    steps: Seq<ActionView>,
    n: int,
    at: Seq<char>,
    kind: PathType,
    before: ProbeView,
) -> ProbeView
    decreases n,
{
    if n <= 0 {
        before
    } else {
        after_step(steps[n - 1], at, kind, after_steps(steps, n - 1, at, kind, before))
    }
}

/// What stands at `target` once `create` has answered for the position and
/// all its steps have been carried out.
pub open spec fn after_create(source: Seq<char>, target: Seq<char>, facts: FactsView) -> ProbeView {
    let steps = create_spec(source, target, facts)->Ok_0;
    after_steps(steps, steps.len() as int, target, facts.source, facts.target)
}

/// What stands at `target` once `remove` has answered for the position and
/// all its steps have been carried out.
pub open spec fn after_remove(source: Seq<char>, target: Seq<char>, facts: FactsView) -> ProbeView {
    let steps = remove_spec(source, target, facts)->Ok_0;
    after_steps(steps, steps.len() as int, target, facts.source, facts.target)
}

/// Creating a link to a file gives a link that resolves to the source:
/// where `create` answers with steps for a source that is a file, the
/// target stands as a link equal to the source once they are carried out.
pub proof fn lemma_create_links_file(source: Seq<char>, target: Seq<char>, before: ProbeView)
    requires
        create_spec(source, target, FactsView { source: PathType::File, target: before }) is Ok,
    ensures
        classify(
            source,
            target,
            after_create(source, target, FactsView { source: PathType::File, target: before }),
        ) == Ok::<TargetState, ErrorView>(TargetState::Equals),
{
    reveal_with_fuel(after_steps, 4);
}

/// Creating a link below a directory source gives a real directory or
/// keeps the link that stood there: once the steps of `create` are carried
/// out, the target is a link equal to the source or a directory that is no
/// link.
pub proof fn lemma_create_keeps_directory(source: Seq<char>, target: Seq<char>, before: ProbeView)
    requires
        create_spec(source, target, FactsView { source: PathType::Directory, target: before })
            is Ok,
    ensures
        ({
            let after = after_create(
                source,
                target,
                FactsView { source: PathType::Directory, target: before },
            );
            after == ProbeView::Plain(PathType::Directory) || (after == before && classify(
                source,
                target,
                after,
            ) == Ok::<TargetState, ErrorView>(TargetState::Equals))
        }),
{
    reveal_with_fuel(after_steps, 4);
}

/// Creating twice is creating once: where `create` answers with steps, a
/// second `create`, on the position as those steps leave it, is not
/// refused, changes nothing on the filesystem, and leaves the position as
/// it found it.
pub proof fn lemma_create_twice(source: Seq<char>, target: Seq<char>, facts: FactsView)
    requires
        create_spec(source, target, facts) is Ok,
    ensures
        ({
            let settled = FactsView {
                source: facts.source,
                target: after_create(source, target, facts),
            };
            let again = create_spec(source, target, settled);
            &&& again is Ok
            &&& forall|i: int| 0 <= i < again->Ok_0.len() ==> !mutates(#[trigger] again->Ok_0[i])
            &&& after_create(source, target, settled) == settled.target
        }),
{
    reveal_with_fuel(after_steps, 4);
}

/// Removing twice is removing once: where `remove` answers with steps, a
/// second `remove`, on the position as those steps leave it, is not
/// refused and changes nothing on the filesystem.
pub proof fn lemma_remove_twice(source: Seq<char>, target: Seq<char>, facts: FactsView)
    requires
        remove_spec(source, target, facts) is Ok,
    ensures
        ({
            let settled = FactsView {
                source: facts.source,
                target: after_remove(source, target, facts),
            };
            let again = remove_spec(source, target, settled);
            &&& again is Ok
            &&& forall|i: int| 0 <= i < again->Ok_0.len() ==> !mutates(#[trigger] again->Ok_0[i])
            &&& after_remove(source, target, settled) == settled.target
        }),
{
    reveal_with_fuel(after_steps, 4);
}

/// Removing after creating takes the link away: for a source that is a
/// file, `remove` on the position as `create` leaves it unlinks the target
/// and nothing else, and nothing stands there afterwards.
pub proof fn lemma_remove_after_create(source: Seq<char>, target: Seq<char>, before: ProbeView)
    requires
        create_spec(source, target, FactsView { source: PathType::File, target: before }) is Ok,
    ensures
        ({
            let linked = FactsView {
                source: PathType::File,
                target: after_create(
                    source,
                    target,
                    FactsView { source: PathType::File, target: before },
                ),
            };
            &&& remove_spec(source, target, linked) == Ok::<Seq<ActionView>, ErrorView>(
                seq![ActionView::RemoveSymlink { path: target }],
            )
            &&& after_remove(source, target, linked) == ProbeView::Missing
        }),
{
    reveal_with_fuel(after_steps, 4);
}

/// `remove` takes away nothing but a symbolic link at the target itself:
/// every step of it that changes the filesystem unlinks `target`, is only
/// named where a symbolic link was observed there, and is the first step,
/// so that nothing comes between the observation and the unlinking.
/// Sources and real directories are never touched.
pub proof fn lemma_remove_only_unlinks(source: Seq<char>, target: Seq<char>, facts: FactsView)
    requires
        remove_spec(source, target, facts) is Ok,
    ensures
        forall|i: int|
            0 <= i < remove_spec(source, target, facts)->Ok_0.len() && mutates(
                #[trigger] remove_spec(source, target, facts)->Ok_0[i],
            ) ==> remove_spec(source, target, facts)->Ok_0[i] == (ActionView::RemoveSymlink {
                path: target,
            }) && facts.target is Link && i == 0,
{
}

/// `create` takes away nothing but a stale link at the target itself: a
/// step of it that unlinks anything unlinks `target`, is only named where
/// the source is a file and a symbolic link to another file was observed
/// at the target, and is the first step, so that nothing comes between
/// the observation and the unlinking.
pub proof fn lemma_create_only_replaces_links(source: Seq<char>, target: Seq<char>, facts: FactsView)
    requires
        create_spec(source, target, facts) is Ok,
    ensures
        forall|i: int|
            0 <= i < create_spec(source, target, facts)->Ok_0.len() && (#[trigger] create_spec(
                source,
                target,
                facts,
            )->Ok_0[i]) is RemoveSymlink ==> {
                &&& create_spec(source, target, facts)->Ok_0[i] == (ActionView::RemoveSymlink {
                    path: target,
                })
                &&& facts.source == PathType::File
                &&& facts.target is Link
                &&& facts.target->Link_kind == PathType::File
                &&& facts.target->Link_path != source
                &&& i == 0
            },
{
}

/// A target that holds anything but a link is never overwritten: where a
/// regular file that is no link stands at the target, `create` refuses
/// with `TargetOccupied` and names no step, whatever the source is.
pub proof fn lemma_create_refuses_occupied(source: Seq<char>, target: Seq<char>, kind: PathType)
    ensures
        create_spec(
            source,
            target,
            FactsView { source: kind, target: ProbeView::Plain(PathType::File) },
        ) == Err::<Seq<ActionView>, ErrorView>(ErrorView::TargetOccupied(target)),
{
}

/// Clearing a directory changes nothing by itself: no step that is named
/// for one of its entries changes the filesystem. Each only names a
/// position to decide: a link whose resolution lies under the source, or a
/// directory that the source side mirrors. A directory is never removed.
pub proof fn lemma_entry_only_names_positions(
    source: Seq<char>,
    target: Seq<char>,
    entry: DirEntry,
    owned: bool,
)
    requires
        entry_spec(source, target, entry, owned) is Ok,
    ensures
        forall|i: int|
            0 <= i < entry_spec(source, target, entry, owned)->Ok_0.len() ==> !mutates(
                #[trigger] entry_spec(source, target, entry, owned)->Ok_0[i],
            ),
        !(entry.kind is Link && owned) && !(entry.kind matches EntryKind::Directory { mirrored }
            && mirrored) ==> entry_spec(source, target, entry, owned)->Ok_0.len() == 0,
{
}

/// Listing a directory changes nothing by itself: the steps that are
/// named for the entries of a directory, on either side, only name
/// positions.
pub proof fn lemma_listing_only_names_positions(
    source: Seq<char>,
    target: Seq<char>,
    names: Seq<String>,
)
    ensures
        forall|i: int|
            0 <= i < names.len() ==> !mutates(
                #[trigger] create_directory_spec(source, target, names)[i],
            ),
        forall|i: int|
            0 <= i < names.len() ==> !mutates(
                #[trigger] remove_directory_entries_spec(source, target, names)[i],
            ),
{
}

/// Clearing a directory reaches the links that `create` made in it: an
/// entry that stands as `create` leaves the position of a file below the
/// source, and whose resolution is found to lie under the source, is taken
/// up as that position, and `remove` there unlinks the entry and nothing
/// else.
pub proof fn lemma_remove_reaches_created_link(
    source: Seq<char>,
    target: Seq<char>,
    entry: DirEntry,
    before: ProbeView,
)
    requires
        create_spec(
            join_spec(source, entry.name@),
            join_spec(target, entry.name@),
            FactsView { source: PathType::File, target: before },
        ) is Ok,
        entry.kind is Link,
        (ProbeView::Link { path: entry.kind->Link_0@, kind: PathType::File }) == after_create(
            join_spec(source, entry.name@),
            join_spec(target, entry.name@),
            FactsView { source: PathType::File, target: before },
        ),
    ensures
        entry_spec(source, target, entry, true) == Ok::<Seq<ActionView>, ErrorView>(
            seq![
                ActionView::Remove {
                    source: join_spec(source, entry.name@),
                    target: join_spec(target, entry.name@),
                },
            ],
        ),
        remove_spec(
            join_spec(source, entry.name@),
            join_spec(target, entry.name@),
            FactsView {
                source: PathType::File,
                target: ProbeView::Link { path: entry.kind->Link_0@, kind: PathType::File },
            },
        ) == Ok::<Seq<ActionView>, ErrorView>(
            seq![ActionView::RemoveSymlink { path: join_spec(target, entry.name@) }],
        ),
{
    reveal_with_fuel(after_steps, 4);
    lemma_create_links_file(
        join_spec(source, entry.name@),
        join_spec(target, entry.name@),
        before,
    );
}

/// The steps that are still to be taken, in the order in which they are
/// to be taken. The steps that a position names go in front of what was
/// pending, so that a directory is made before its entries are visited,
/// and one entry is finished, with all below it, before the next begins.
#[derive(Debug)]
pub struct Agenda {
    /// The pending steps, the next one last.
    stack: Vec<Action>,
}

impl View for Agenda {
    type V = Seq<ActionView>;

    closed spec fn view(&self) -> Seq<ActionView> {
        Seq::new(self.stack@.len(), |i: int| self.stack@[self.stack@.len() - 1 - i]@)
    }
}

impl Agenda {
    /// An agenda with nothing to do.
    pub fn new() -> (r: Agenda)
        ensures
            r@ == Seq::<ActionView>::empty(),
    {
        let r = Agenda { stack: Vec::new() };
        assert(r@ =~= Seq::<ActionView>::empty());
        r
    }

    /// The number of pending steps.
    pub fn len(&self) -> (r: usize)
        ensures
            r == self@.len(),
    {
        self.stack.len()
    }

    /// Puts the steps of `ahead` in front of what is pending, in their own
    /// order.
    pub fn expand(&mut self, ahead: Vec<Action>)
        ensures
            final(self)@ == steps(ahead@) + old(self)@,
    {
        let mut rest = ahead;
        let ghost all = rest@;
        while rest.len() > 0
            invariant
                rest@.len() <= all.len(),
                rest@ == all.subrange(0, rest@.len() as int),
                self@ == steps(all.subrange(rest@.len() as int, all.len() as int)) + old(self)@,
            decreases rest@.len(),
        {
            let ghost before = self@;
            let ghost k = rest@.len() - 1;
            let step = rest.pop().unwrap();
            assert(step == all[k]);
            self.stack.push(step);
            assert(self@ =~= seq![step@] + before);
            assert(self@ =~= steps(all.subrange(k, all.len() as int)) + old(self)@);
        }
        assert(all.subrange(0, all.len() as int) =~= all);
    }

    /// Takes the next step off the agenda; `None` when nothing is pending.
    pub fn next(&mut self) -> (r: Option<Action>)
        ensures
            old(self)@.len() == 0 ==> r is None && final(self)@ == old(self)@,
            old(self)@.len() > 0 ==> r is Some && r->Some_0@ == old(self)@[0] && final(self)@
                == old(self)@.drop_first(),
    {
        let r = self.stack.pop();
        assert(old(self)@.len() > 0 ==> self@ =~= old(self)@.drop_first());
        r
    }
}

} // verus!
