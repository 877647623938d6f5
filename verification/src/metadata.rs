//! The entry store: the line-oriented metadata file, the entries declared
//! in it, and the rules that every declared entry must meet before any of
//! them is reconciled.
//!
//! Reading and appending the file is the caller's part. The store takes
//! what was read, line by line, with what was observed of each declared
//! pair, and answers with the validated entries or with everything that is
//! wrong.

use vstd::prelude::*;
use vstd::string::*;
use crate::path::{is_absolute, is_absolute_spec, join, join_spec, same};

verus! {

/// Why the store refused. A `String` that is no path is the text of the
/// underlying cause.
#[derive(Debug)]
pub enum Error {
    EntrySourceNotExists(String),
    EntryTargetDuplicate { source: String, target: String },
    EntryTargetExists(String),
    NewEntrySourceNotAbsolute(String),
    NewEntryTargetIsAbsolute(String),
    OpenConfig(String),
    ParseEntries(Vec<Error>),
    ParseEntrySource(String),
    ParseEntryTarget(String),
    ParseEntryTargetMissing,
    TargetRootNotAbsolute(String),
    TargetRootNotADirectory(String),
    WriteNewEntry(String),
}

pub ghost enum ErrorView {
    EntrySourceNotExists(Seq<char>),
    EntryTargetDuplicate { source: Seq<char>, target: Seq<char> },
    EntryTargetExists(Seq<char>),
    NewEntrySourceNotAbsolute(Seq<char>),
    NewEntryTargetIsAbsolute(Seq<char>),
    OpenConfig(Seq<char>),
    ParseEntries(Seq<ErrorView>),
    ParseEntrySource(Seq<char>),
    ParseEntryTarget(Seq<char>),
    ParseEntryTargetMissing,
    TargetRootNotAbsolute(Seq<char>),
    TargetRootNotADirectory(Seq<char>),
    WriteNewEntry(Seq<char>),
}

impl View for Error {
    type V = ErrorView;

    open spec fn view(&self) -> ErrorView
        decreases self,
    {
        match self {
            Error::EntrySourceNotExists(path) => ErrorView::EntrySourceNotExists(path@),
            Error::EntryTargetDuplicate { source, target } => ErrorView::EntryTargetDuplicate {
                source: source@,
                target: target@,
            },
            Error::EntryTargetExists(path) => ErrorView::EntryTargetExists(path@),
            Error::NewEntrySourceNotAbsolute(path) => ErrorView::NewEntrySourceNotAbsolute(path@),
            Error::NewEntryTargetIsAbsolute(path) => ErrorView::NewEntryTargetIsAbsolute(path@),
            Error::OpenConfig(err) => ErrorView::OpenConfig(err@),
            Error::ParseEntries(errors) => ErrorView::ParseEntries(
                Seq::new(
                    errors@.len(),
                    |i: int|
                        if 0 <= i < errors@.len() {
                            errors@[i]@
                        } else {
                            ErrorView::ParseEntryTargetMissing
                        },
                ),
            ),
            Error::ParseEntrySource(err) => ErrorView::ParseEntrySource(err@),
            Error::ParseEntryTarget(err) => ErrorView::ParseEntryTarget(err@),
            Error::ParseEntryTargetMissing => ErrorView::ParseEntryTargetMissing,
            Error::TargetRootNotAbsolute(path) => ErrorView::TargetRootNotAbsolute(path@),
            Error::TargetRootNotADirectory(path) => ErrorView::TargetRootNotADirectory(path@),
            Error::WriteNewEntry(err) => ErrorView::WriteNewEntry(err@),
        }
    }
}

/// The text shown for an error. An aggregate shows each of its errors on a
/// line of its own, indented by a tab.
pub open spec fn message_spec(e: ErrorView) -> Seq<char>
    decreases e, 0int,
{
    match e {
        ErrorView::EntrySourceNotExists(path) => "entry: source not exists: "@ + path,
        ErrorView::EntryTargetDuplicate { source, target } => "entry: target duplicate: "@ + source
            + " -> "@ + target,
        ErrorView::EntryTargetExists(path) => "entry: target already exists: "@ + path,
        ErrorView::NewEntrySourceNotAbsolute(path) => "new entry: source is not an absolute path: "@
            + path,
        ErrorView::NewEntryTargetIsAbsolute(path) => "new entry: target must be a relative path: "@
            + path,
        ErrorView::OpenConfig(err) => "open config: "@ + err,
        ErrorView::ParseEntries(errors) => listed(errors, errors.len() as int),
        ErrorView::ParseEntrySource(err) => "parse entry source: "@ + err,
        ErrorView::ParseEntryTarget(err) => "parse entry target: "@ + err,
        ErrorView::ParseEntryTargetMissing => "parse entry target: missing"@,
        ErrorView::TargetRootNotAbsolute(path) => "target root is not an absolute path: "@ + path,
        ErrorView::TargetRootNotADirectory(path) => "target root is not a directory: "@ + path,
        ErrorView::WriteNewEntry(err) => "write new entry: "@ + err,
    }
}

/// The heading of an aggregate and the texts of its first `n` errors.
pub open spec fn listed(errors: Seq<ErrorView>, n: int) -> Seq<char>
    decreases errors, n,
{
    if n <= 0 || n > errors.len() {
        "parse entries:"@
    } else {
        listed(errors, n - 1) + "\n\t"@ + message_spec(errors[n - 1])
    }
}

/// The text of the underlying cause, where there is one.
pub open spec fn source_spec(e: ErrorView) -> Option<Seq<char>> {
    match e {
        ErrorView::OpenConfig(err) => Some(err),
        ErrorView::ParseEntrySource(err) => Some(err),
        ErrorView::ParseEntryTarget(err) => Some(err),
        ErrorView::WriteNewEntry(err) => Some(err),
        _ => None,
    }
}

fn prefixed(label: &str, text: &str) -> (r: String)
    ensures
        r@ == label@ + text@,
{
    let mut out = String::from_str(label);
    out.append(text);
    out
}

impl Error {
    /// The text shown for this error.
    pub fn to_string(&self) -> (r: String)
        ensures
            r@ == message_spec(self@),
        decreases self,
    {
        match self {
            Error::EntrySourceNotExists(path) => prefixed(
                "entry: source not exists: ",
                path.as_str(),
            ),
            Error::EntryTargetDuplicate { source, target } => {
                let mut out = String::from_str("entry: target duplicate: ");
                out.append(source.as_str());
                out.append(" -> ");
                out.append(target.as_str());
                out
            },
            Error::EntryTargetExists(path) => prefixed(
                "entry: target already exists: ",
                path.as_str(),
            ),
            Error::NewEntrySourceNotAbsolute(path) => prefixed(
                "new entry: source is not an absolute path: ",
                path.as_str(),
            ),
            Error::NewEntryTargetIsAbsolute(path) => prefixed(
                "new entry: target must be a relative path: ",
                path.as_str(),
            ),
            Error::OpenConfig(err) => prefixed("open config: ", err.as_str()),
            Error::ParseEntries(errors) => {
                let mut out = String::from_str("parse entries:");
                let mut i: usize = 0;
                while i < errors.len()
                    invariant
                        i <= errors.len(),
                        self == Error::ParseEntries(*errors),
                        out@ == listed(self@->ParseEntries_0, i as int),
                    decreases errors.len() - i,
                {
                    let text = errors[i].to_string();
                    out.append("\n\t");
                    out.append(text.as_str());
                    i += 1;
                }
                out
            },
            Error::ParseEntrySource(err) => prefixed("parse entry source: ", err.as_str()),
            Error::ParseEntryTarget(err) => prefixed("parse entry target: ", err.as_str()),
            Error::ParseEntryTargetMissing => String::from_str("parse entry target: missing"),
            Error::TargetRootNotAbsolute(path) => prefixed(
                "target root is not an absolute path: ",
                path.as_str(),
            ),
            Error::TargetRootNotADirectory(path) => prefixed(
                "target root is not a directory: ",
                path.as_str(),
            ),
            Error::WriteNewEntry(err) => prefixed("write new entry: ", err.as_str()),
        }
    }

    /// The text of the underlying cause, where there is one.
    pub fn source(&self) -> (r: Option<String>)
        ensures
            match source_spec(self@) {
                Some(cause) => r is Some && r->Some_0@ == cause,
                None => r is None,
            },
    {
        match self {
            Error::OpenConfig(err) => Some(err.clone()),
            Error::ParseEntrySource(err) => Some(err.clone()),
            Error::ParseEntryTarget(err) => Some(err.clone()),
            Error::WriteNewEntry(err) => Some(err.clone()),
            _ => None,
        }
    }
}

/// A pair that is about to be registered: an absolute source and a relative
/// target. Neither path is looked for on disk.
#[derive(Debug)]
pub struct NewEntry {
    source: String,
    target: String,
}

pub ghost struct NewEntryView {
    pub source: Seq<char>,
    pub target: Seq<char>,
}

impl View for NewEntry {
    type V = NewEntryView;

    closed spec fn view(&self) -> NewEntryView {
        NewEntryView { source: self.source@, target: self.target@ }
    }
}

/// What `NewEntry::create` answers.
pub open spec fn new_entry_spec(source: Seq<char>, target: Seq<char>) -> Result<
    NewEntryView,
    ErrorView,
> {
    if !is_absolute_spec(source) {
        Err(ErrorView::NewEntrySourceNotAbsolute(source))
    } else if is_absolute_spec(target) {
        Err(ErrorView::NewEntryTargetIsAbsolute(target))
    } else {
        Ok(NewEntryView { source, target })
    }
}

/// The two lines that a registered pair adds to the metadata file.
pub open spec fn serialize_spec(entry: NewEntryView) -> Seq<char> {
    entry.source + seq!['\n'] + entry.target + seq!['\n']
}

impl NewEntry {
    #[verifier::type_invariant]
    spec fn well_formed(self) -> bool {
        is_absolute_spec(self.source@) && !is_absolute_spec(self.target@)
    }

    /// Whether the source is absolute and the target relative: true of
    /// every `NewEntry`.
    pub open spec fn valid(&self) -> bool {
        is_absolute_spec(self@.source) && !is_absolute_spec(self@.target)
    }

    pub fn create(source: String, target: String) -> (r: Result<NewEntry, Error>)
        ensures
            match new_entry_spec(source@, target@) {
                Ok(entry) => r is Ok && r->Ok_0@ == entry && r->Ok_0.valid(),
                Err(e) => r is Err && r->Err_0@ == e,
            },
    {
        if !is_absolute(source.as_str()) {
            return Err(Error::NewEntrySourceNotAbsolute(source));
        }
        if is_absolute(target.as_str()) {
            return Err(Error::NewEntryTargetIsAbsolute(target));
        }
        Ok(NewEntry { source, target })
    }

    pub fn source(&self) -> (r: &String)
        ensures
            r@ == self@.source,
            self.valid(),
    {
        proof {
            use_type_invariant(self);
        }
        &self.source
    }

    pub fn target(&self) -> (r: &String)
        ensures
            r@ == self@.target,
            self.valid(),
    {
        proof {
            use_type_invariant(self);
        }
        &self.target
    }

    /// The text to append to the metadata file: the source line, then the
    /// target line, each ended by a newline.
    pub fn serialize(&self) -> (r: String)
        ensures
            r@ == serialize_spec(self@),
            self.valid(),
    {
        proof {
            use_type_invariant(self);
            reveal_strlit("\n");
            assert("\n"@ =~= seq!['\n']);
        }
        let mut out = self.source.clone();
        out.append("\n");
        out.append(self.target.as_str());
        out.append("\n");
        out
    }
}

/// One line of the metadata file, as reading it went.
#[derive(Debug)]
pub enum Line {
    /// The line, without its line ending.
    Text(String),
    /// The line could not be read, with the cause.
    Unread(String),
}

/// The metadata file, as opening and reading it went.
#[derive(Debug)]
pub enum Config {
    /// The file could not be opened, with the cause.
    Unopened(String),
    /// The lines of the file, in order.
    Lines(Vec<Line>),
}

/// A pair as the metadata file declares it: two lines, taken verbatim.
#[derive(Debug)]
pub struct Declared {
    pub source: String,
    pub target: String,
}

pub ghost struct DeclaredView {
    pub source: Seq<char>,
    pub target: Seq<char>,
}

impl View for Declared {
    type V = DeclaredView;

    open spec fn view(&self) -> DeclaredView {
        DeclaredView { source: self.source@, target: self.target@ }
    }
}

/// What was observed of one declared pair: whether its source exists, and
/// what stands where its target would go.
#[derive(Clone, Copy, Debug)]
pub struct EntryFacts {
    pub source_exists: bool,
    pub target_exists: bool,
    pub target_is_symlink: bool,
    pub target_is_file: bool,
}

/// A validated pair, ready to be reconciled: the source, and the target
/// below the target root.
#[derive(Debug)]
pub struct Entry {
    pub source_path: String,
    pub target_path: String,
}

pub ghost struct EntryView {
    pub source_path: Seq<char>,
    pub target_path: Seq<char>,
}

impl View for Entry {
    type V = EntryView;

    open spec fn view(&self) -> EntryView {
        EntryView { source_path: self.source_path@, target_path: self.target_path@ }
    }
}

/// The entries of a list, each by its view.
pub open spec fn entry_views(entries: Seq<Entry>) -> Seq<EntryView> {
    entries.map_values(|e: Entry| e@)
}

/// The pairs of a list, each by its view.
pub open spec fn declared_views(pairs: Seq<Declared>) -> Seq<DeclaredView> {
    pairs.map_values(|p: Declared| p@)
}

/// The index of the first of the first `n` lines that could not be read;
/// `n` where all of them were read.
pub open spec fn first_unread(lines: Seq<Line>, n: int) -> int
    decreases n,
{
    if n <= 0 {
        0
    } else {
        let before = first_unread(lines, n - 1);
        if before < n - 1 {
            before
        } else if lines[n - 1] is Unread {
            n - 1
        } else {
            n
        }
    }
}

/// The text of a line that was read.
pub open spec fn text_of(line: Line) -> Seq<char> {
    match line {
        Line::Text(text) => text@,
        Line::Unread(_) => seq![],
    }
}

/// The pairs that a file declares: its lines two by two. The first line
/// that could not be read stops the parse, as a source or as a target by
/// its place; so does a last source without a target.
pub open spec fn parse_spec(lines: Seq<Line>) -> Result<Seq<DeclaredView>, ErrorView> {
    let stop = first_unread(lines, lines.len() as int);
    if stop < lines.len() {
        if stop % 2 == 0 {
            Err(ErrorView::ParseEntrySource(lines[stop]->Unread_0@))
        } else {
            Err(ErrorView::ParseEntryTarget(lines[stop]->Unread_0@))
        }
    } else if lines.len() % 2 == 1 {
        Err(ErrorView::ParseEntryTargetMissing)
    } else {
        Ok(
            Seq::new(
                lines.len() / 2,
                |i: int|
                    DeclaredView {
                        source: text_of(lines[2 * i]),
                        target: text_of(lines[2 * i + 1]),
                    },
            ),
        )
    }
}

proof fn lemma_all_read(lines: Seq<Line>, n: int)
    requires
        0 <= n <= lines.len(),
        forall|k: int| 0 <= k < n ==> (#[trigger] lines[k]) is Text,
    ensures
        first_unread(lines, n) == n,
    decreases n,
{
    if n > 0 {
        lemma_all_read(lines, n - 1);
    }
}

proof fn lemma_first_unread(lines: Seq<Line>, stop: int, n: int)
    requires
        0 <= stop < n <= lines.len(),
        forall|k: int| 0 <= k < stop ==> (#[trigger] lines[k]) is Text,
        lines[stop] is Unread,
    ensures
        first_unread(lines, n) == stop,
    decreases n,
{
    if n == stop + 1 {
        lemma_all_read(lines, stop);
    } else {
        lemma_first_unread(lines, stop, n - 1);
    }
}

/// Pairs the lines of the metadata file.
pub fn parse(lines: &Vec<Line>) -> (r: Result<Vec<Declared>, Error>)
    ensures
        match parse_spec(lines@) {
            Ok(pairs) => r is Ok && declared_views(r->Ok_0@) == pairs,
            Err(e) => r is Err && r->Err_0@ == e,
        },
{
    let mut pairs: Vec<Declared> = Vec::new();
    let mut i: usize = 0;
    while i < lines.len()
        invariant
            i <= lines.len(),
            i % 2 == 0,
            pairs@.len() == i / 2,
            forall|k: int| 0 <= k < i ==> (#[trigger] lines@[k]) is Text,
            forall|k: int|
                0 <= k < pairs@.len() ==> (#[trigger] pairs@[k])@ == (DeclaredView {
                    source: text_of(lines@[2 * k]),
                    target: text_of(lines@[2 * k + 1]),
                }),
        decreases lines.len() - i,
    {
        let source = match &lines[i] {
            Line::Text(text) => text.clone(),
            Line::Unread(cause) => {
                proof {
                    lemma_first_unread(lines@, i as int, lines@.len() as int);
                }
                return Err(Error::ParseEntrySource(cause.clone()));
            },
        };
        if i + 1 >= lines.len() {
            proof {
                lemma_all_read(lines@, lines@.len() as int);
            }
            return Err(Error::ParseEntryTargetMissing);
        }
        let target = match &lines[i + 1] {
            Line::Text(text) => text.clone(),
            Line::Unread(cause) => {
                proof {
                    lemma_first_unread(lines@, i + 1, lines@.len() as int);
                }
                return Err(Error::ParseEntryTarget(cause.clone()));
            },
        };
        pairs.push(Declared { source, target });
        i += 2;
    }
    proof {
        lemma_all_read(lines@, lines@.len() as int);
        assert(declared_views(pairs@) =~= parse_spec(lines@)->Ok_0);
    }
    Ok(pairs)
}

proof fn lemma_read_all(lines: Seq<Line>, n: int)
    requires
        0 <= n <= lines.len(),
    ensures
        first_unread(lines, n) <= n,
        first_unread(lines, n) == n ==> forall|k: int| 0 <= k < n ==> (#[trigger] lines[k]) is Text,
    decreases n,
{
    if n > 0 {
        lemma_read_all(lines, n - 1);
    }
}

/// Registering adds a pair and disturbs none: where a file declares
/// `pairs`, the file with two more lines declares `pairs` and then the
/// pair of those two lines.
pub proof fn lemma_parse_appended(lines: Seq<Line>, source: Line, target: Line)
    requires
        parse_spec(lines) is Ok,
        source is Text,
        target is Text,
    ensures
        parse_spec(lines.push(source).push(target)) == Ok::<Seq<DeclaredView>, ErrorView>(
            parse_spec(lines)->Ok_0.push(
                DeclaredView { source: text_of(source), target: text_of(target) },
            ),
        ),
{
    let more = lines.push(source).push(target);
    lemma_read_all(lines, lines.len() as int);
    assert forall|k: int| 0 <= k < more.len() implies (#[trigger] more[k]) is Text by {
        if k < lines.len() {
            assert(more[k] == lines[k]);
        }
    }
    lemma_all_read(more, more.len() as int);
    let old_pairs = parse_spec(lines)->Ok_0;
    let new_pairs = parse_spec(more)->Ok_0;
    assert(new_pairs.len() == old_pairs.len() + 1);
    assert forall|i: int| 0 <= i < new_pairs.len() implies new_pairs[i] == old_pairs.push(
        DeclaredView { source: text_of(source), target: text_of(target) },
    )[i] by {
        if i < old_pairs.len() {
            assert(more[2 * i] == lines[2 * i]);
            assert(more[2 * i + 1] == lines[2 * i + 1]);
        }
    }
    assert(new_pairs =~= old_pairs.push(
        DeclaredView { source: text_of(source), target: text_of(target) },
    ));
}

/// The rules for one declared pair: the source must exist, and the target,
/// below the root, must not be held by a regular file that is no symbolic
/// link. A directory or a symbolic link there is left to the reconciler.
pub open spec fn entry_spec(
    source: Seq<char>,
    target: Seq<char>,
    target_root: Seq<char>,
    facts: EntryFacts,
) -> Result<EntryView, ErrorView> {
    if !facts.source_exists {
        Err(ErrorView::EntrySourceNotExists(source))
    } else if facts.target_exists && !facts.target_is_symlink && facts.target_is_file {
        Err(ErrorView::EntryTargetExists(join_spec(target_root, target)))
    } else {
        Ok(EntryView { source_path: source, target_path: join_spec(target_root, target) })
    }
}

/// The text shown for an entry.
pub open spec fn entry_text(entry: EntryView) -> Seq<char> {
    entry.source_path + " -> "@ + entry.target_path
}

impl Entry {
    /// The path at which the target of a declared pair is looked for.
    pub fn target_path(target_root: &str, target: &str) -> (r: String)
        ensures
            r@ == join_spec(target_root@, target@),
    {
        join(target_root, target)
    }

    pub fn create(source: String, target: String, target_root: &str, facts: EntryFacts) -> (r:
        Result<Entry, Error>)
        ensures
            match entry_spec(source@, target@, target_root@, facts) {
                Ok(entry) => r is Ok && r->Ok_0@ == entry,
                Err(e) => r is Err && r->Err_0@ == e,
            },
    {
        if !facts.source_exists {
            return Err(Error::EntrySourceNotExists(source));
        }
        let target_path = join(target_root, target.as_str());
        if facts.target_exists && !facts.target_is_symlink && facts.target_is_file {
            return Err(Error::EntryTargetExists(target_path));
        }
        Ok(Entry { source_path: source, target_path })
    }

    /// The text shown for this entry.
    pub fn to_string(&self) -> (r: String)
        ensures
            r@ == entry_text(self@),
    {
        let mut out = self.source_path.clone();
        out.append(" -> ");
        out.append(self.target_path.as_str());
        out
    }
}

/// Whether an earlier pair declares the target of pair `i`.
pub open spec fn seen_before(pairs: Seq<DeclaredView>, i: int) -> bool {
    exists|j: int| 0 <= j < i && #[trigger] pairs[j].target == pairs[i].target
}

/// What was observed of pair `i`; of a pair that the observations do not
/// reach, nothing was found.
pub open spec fn facts_at(facts: Seq<EntryFacts>, i: int) -> EntryFacts {
    if 0 <= i < facts.len() {
        facts[i]
    } else {
        EntryFacts {
            source_exists: false,
            target_exists: false,
            target_is_symlink: false,
            target_is_file: false,
        }
    }
}

/// The verdict on pair `i`: a target that an earlier pair declares is a
/// duplicate, and such a pair is examined no further.
pub open spec fn verdict(
    pairs: Seq<DeclaredView>,
    facts: Seq<EntryFacts>,
    target_root: Seq<char>,
    i: int,
) -> Result<EntryView, ErrorView> {
    if seen_before(pairs, i) {
        Err(ErrorView::EntryTargetDuplicate { source: pairs[i].source, target: pairs[i].target })
    } else {
        entry_spec(pairs[i].source, pairs[i].target, target_root, facts_at(facts, i))
    }
}

/// The entries that the first `n` pairs give, in file order.
pub open spec fn entries_upto(
    pairs: Seq<DeclaredView>,
    facts: Seq<EntryFacts>,
    target_root: Seq<char>,
    n: int,
) -> Seq<EntryView>
    decreases n,
{
    if n <= 0 {
        seq![]
    } else {
        let before = entries_upto(pairs, facts, target_root, n - 1);
        match verdict(pairs, facts, target_root, n - 1) {
            Ok(entry) => before.push(entry),
            Err(_) => before,
        }
    }
}

/// The validation errors that the first `n` pairs give, in file order.
pub open spec fn errors_upto(
    pairs: Seq<DeclaredView>,
    facts: Seq<EntryFacts>,
    target_root: Seq<char>,
    n: int,
) -> Seq<ErrorView>
    decreases n,
{
    if n <= 0 {
        seq![]
    } else {
        let before = errors_upto(pairs, facts, target_root, n - 1);
        match verdict(pairs, facts, target_root, n - 1) {
            Ok(_) => before,
            Err(e) => before.push(e),
        }
    }
}

/// All or nothing: the entries of every pair where every pair is valid,
/// else every validation error together.
pub open spec fn validate_spec(
    pairs: Seq<DeclaredView>,
    facts: Seq<EntryFacts>,
    target_root: Seq<char>,
) -> Result<Seq<EntryView>, ErrorView> {
    let errors = errors_upto(pairs, facts, target_root, pairs.len() as int);
    if errors.len() == 0 {
        Ok(entries_upto(pairs, facts, target_root, pairs.len() as int))
    } else {
        Err(ErrorView::ParseEntries(errors))
    }
}

/// What `read_entries` answers. A bad target root, a file that cannot be
/// opened and a malformed file each stop the read at once, in that order;
/// only then are the pairs validated.
pub open spec fn read_spec(
    config: Config,
    target_root: Seq<char>,
    root_is_dir: bool,
    facts: Seq<EntryFacts>,
) -> Result<Seq<EntryView>, ErrorView> {
    if !is_absolute_spec(target_root) {
        Err(ErrorView::TargetRootNotAbsolute(target_root))
    } else if !root_is_dir {
        Err(ErrorView::TargetRootNotADirectory(target_root))
    } else {
        match config {
            Config::Unopened(cause) => Err(ErrorView::OpenConfig(cause@)),
            Config::Lines(lines) => match parse_spec(lines@) {
                Ok(pairs) => validate_spec(pairs, facts, target_root),
                Err(e) => Err(e),
            },
        }
    }
}

fn declared_earlier(pairs: &Vec<Declared>, i: usize) -> (r: bool)
    requires
        i < pairs@.len(),
    ensures
        r == seen_before(declared_views(pairs@), i as int),
{
    let mut j: usize = 0;
    while j < i
        invariant
            j <= i < pairs@.len(),
            forall|k: int|
                0 <= k < j ==> (#[trigger] declared_views(pairs@)[k]).target != pairs@[i as int].target@,
        decreases i - j,
    {
        if same(pairs[j].target.as_str(), pairs[i].target.as_str()) {
            assert(declared_views(pairs@)[j as int].target == declared_views(pairs@)[i as int].target);
            return true;
        }
        j += 1;
    }
    false
}

fn facts_of(facts: &Vec<EntryFacts>, i: usize) -> (r: EntryFacts)
    ensures
        r == facts_at(facts@, i as int),
{
    if i < facts.len() {
        facts[i]
    } else {
        EntryFacts {
            source_exists: false,
            target_exists: false,
            target_is_symlink: false,
            target_is_file: false,
        }
    }
}

/// Validates the declared pairs against what was observed of them;
/// `facts[i]` belongs to pair `i`.
pub fn validate(pairs: &Vec<Declared>, target_root: &str, facts: &Vec<EntryFacts>) -> (r: Result<
    Vec<Entry>,
    Error,
>)
    ensures
        match validate_spec(declared_views(pairs@), facts@, target_root@) {
            Ok(entries) => r is Ok && entry_views(r->Ok_0@) == entries,
            Err(e) => r is Err && r->Err_0@ == e,
        },
{
    let mut result: Vec<Entry> = Vec::new();
    let mut errors: Vec<Error> = Vec::new();
    let ghost all = declared_views(pairs@);
    let mut i: usize = 0;
    assert(entry_views(result@) =~= entries_upto(all, facts@, target_root@, 0));
    while i < pairs.len()
        invariant
            i <= pairs.len(),
            all == declared_views(pairs@),
            entry_views(result@) == entries_upto(all, facts@, target_root@, i as int),
            errors@.len() == errors_upto(all, facts@, target_root@, i as int).len(),
            forall|k: int|
                0 <= k < errors@.len() ==> (#[trigger] errors@[k])@ == errors_upto(
                    all,
                    facts@,
                    target_root@,
                    i as int,
                )[k],
        decreases pairs.len() - i,
    {
        let ghost before = result@;
        assert(all[i as int] == pairs@[i as int]@);
        if declared_earlier(pairs, i) {
            errors.push(
                Error::EntryTargetDuplicate {
                    source: pairs[i].source.clone(),
                    target: pairs[i].target.clone(),
                },
            );
        } else {
            match Entry::create(
                pairs[i].source.clone(),
                pairs[i].target.clone(),
                target_root,
                facts_of(facts, i),
            ) {
                Ok(entry) => {
                    result.push(entry);
                    assert(entry_views(result@) =~= entry_views(before).push(entry@));
                },
                Err(err) => {
                    errors.push(err);
                },
            }
        }
        i += 1;
    }
    if errors.len() == 0 {
        Ok(result)
    } else {
        let e = Error::ParseEntries(errors);
        assert(e@->ParseEntries_0 =~= errors_upto(all, facts@, target_root@, pairs@.len() as int));
        Err(e)
    }
}

/// Reads the entries that a metadata file declares for `target_root`.
/// `root_is_dir` says whether the root is an existing directory; `config`
/// is the file as it was read; `facts[i]` is what was observed of the
/// `i`-th declared pair.
pub fn read_entries(config: &Config, target_root: &str, root_is_dir: bool, facts: &Vec<EntryFacts>) -> (r:
    Result<Vec<Entry>, Error>)
    ensures
        match read_spec(*config, target_root@, root_is_dir, facts@) {
            Ok(entries) => r is Ok && entry_views(r->Ok_0@) == entries,
            Err(e) => r is Err && r->Err_0@ == e,
        },
{
    if !is_absolute(target_root) {
        return Err(Error::TargetRootNotAbsolute(String::from_str(target_root)));
    }
    if !root_is_dir {
        return Err(Error::TargetRootNotADirectory(String::from_str(target_root)));
    }
    match config {
        Config::Unopened(cause) => Err(Error::OpenConfig(cause.clone())),
        Config::Lines(lines) => {
            let pairs = parse(lines)?;
            validate(&pairs, target_root, facts)
        },
    }
}

proof fn lemma_error_kept(
    pairs: Seq<DeclaredView>,
    facts: Seq<EntryFacts>,
    target_root: Seq<char>,
    j: int,
    n: int,
)
    requires
        0 <= j < n,
        verdict(pairs, facts, target_root, j) is Err,
    ensures
        errors_upto(pairs, facts, target_root, n).contains(
            verdict(pairs, facts, target_root, j)->Err_0,
        ),
    decreases n,
{
    let e = verdict(pairs, facts, target_root, j)->Err_0;
    let before = errors_upto(pairs, facts, target_root, n - 1);
    if j == n - 1 {
        assert(before.push(e)[before.len() as int] == e);
    } else {
        lemma_error_kept(pairs, facts, target_root, j, n - 1);
        let k = choose|k: int| 0 <= k < before.len() && before[k] == e;
        match verdict(pairs, facts, target_root, n - 1) {
            Ok(_) => {},
            Err(last) => {
                assert(before.push(last)[k] == e);
            },
        }
    }
}

proof fn lemma_all_valid(
    pairs: Seq<DeclaredView>,
    facts: Seq<EntryFacts>,
    target_root: Seq<char>,
    n: int,
)
    requires
        0 <= n,
        forall|i: int| 0 <= i < n ==> (#[trigger] verdict(pairs, facts, target_root, i)) is Ok,
    ensures
        errors_upto(pairs, facts, target_root, n).len() == 0,
        entries_upto(pairs, facts, target_root, n).len() == n,
        forall|i: int|
            0 <= i < n ==> (#[trigger] entries_upto(pairs, facts, target_root, n)[i]) == verdict(
                pairs,
                facts,
                target_root,
                i,
            )->Ok_0,
    decreases n,
{
    if n > 0 {
        lemma_all_valid(pairs, facts, target_root, n - 1);
        assert(verdict(pairs, facts, target_root, n - 1) is Ok);
    }
}

/// All or nothing: the pairs give entries exactly when every pair is valid
/// by itself, and then one entry for each pair, in file order. Otherwise
/// they give an aggregate that holds the error of every pair that is not,
/// and no entry at all.
pub proof fn lemma_all_or_nothing(
    pairs: Seq<DeclaredView>,
    facts: Seq<EntryFacts>,
    target_root: Seq<char>,
)
    ensures
        validate_spec(pairs, facts, target_root) is Ok <==> (forall|i: int|
            0 <= i < pairs.len() ==> (#[trigger] verdict(pairs, facts, target_root, i)) is Ok),
        validate_spec(pairs, facts, target_root) matches Ok(entries) ==> entries.len()
            == pairs.len() && (forall|i: int|
            0 <= i < pairs.len() ==> (#[trigger] entries[i]) == verdict(
                pairs,
                facts,
                target_root,
                i,
            )->Ok_0),
        validate_spec(pairs, facts, target_root) matches Err(e) ==> e is ParseEntries && (forall|
            i: int,
        |
            0 <= i < pairs.len() && (#[trigger] verdict(pairs, facts, target_root, i)) is Err
                ==> e->ParseEntries_0.contains(verdict(pairs, facts, target_root, i)->Err_0)),
{
    let n = pairs.len() as int;
    if forall|i: int| 0 <= i < n ==> (#[trigger] verdict(pairs, facts, target_root, i)) is Ok {
        lemma_all_valid(pairs, facts, target_root, n);
    } else {
        let bad = choose|i: int|
            0 <= i < n && !((#[trigger] verdict(pairs, facts, target_root, i)) is Ok);
        lemma_error_kept(pairs, facts, target_root, bad, n);
    }
    assert forall|i: int|
        0 <= i < n && (#[trigger] verdict(pairs, facts, target_root, i)) is Err implies errors_upto(
        pairs,
        facts,
        target_root,
        n,
    ).contains(verdict(pairs, facts, target_root, i)->Err_0) by {
        lemma_error_kept(pairs, facts, target_root, i, n);
    }
}

/// A target that is declared twice spoils the whole file: where two pairs
/// declare the same target, the pairs give no entries but an aggregate,
/// and the aggregate names the later pair as a duplicate.
pub proof fn lemma_duplicate_target(
    pairs: Seq<DeclaredView>,
    facts: Seq<EntryFacts>,
    target_root: Seq<char>,
    first: int,
    second: int,
)
    requires
        0 <= first < second < pairs.len(),
        pairs[first].target == pairs[second].target,
    ensures
        validate_spec(pairs, facts, target_root) matches Err(e) && e is ParseEntries
            && e->ParseEntries_0.contains(
            ErrorView::EntryTargetDuplicate {
                source: pairs[second].source,
                target: pairs[second].target,
            },
        ),
{
    assert(seen_before(pairs, second));
    lemma_error_kept(pairs, facts, target_root, second, pairs.len() as int);
}

} // verus!
