//! A whole tree at once: what stands at a target once `create` has been
//! followed through a source tree, position by position, and why a second
//! pass finds nothing left to do.
//!
//! The source is taken as a tree of files and directories that the run
//! does not change; a target is taken by what stands there, a directory
//! with what stands under each of its names. A new link is taken to
//! resolve to its source, and each name of a directory to stand for itself
//! alone.

use vstd::prelude::*;
use crate::path::join_spec;
use crate::symlink::{
    after_create, classify, create_directory_spec, create_spec, entry_spec, remove_spec,
    state_spec, ActionView, DirEntry, EntryKind, ErrorView, FactsView, PathType, ProbeView,
    StateView, TargetState,
};

verus! {

/// A source: a file, or a directory with the names it lists and the tree
/// under each name.
pub ghost enum Tree {
    File,
    Dir { names: Seq<Seq<char>>, trees: Seq<Tree> },
}

/// What stands at a target path.
pub ghost enum Spot {
    Missing,
    /// A symbolic link that cannot be resolved.
    Broken(Seq<char>),
    /// A symbolic link that resolves to `path`, a node of kind `kind`.
    Link { path: Seq<char>, kind: PathType },
    /// A regular file.
    File,
    /// A real directory, with what stands under each of its names.
    Dir(Map<Seq<char>, Spot>),
}

/// A directory lists each name once, and each tree below it is well formed.
pub open spec fn well_formed(tree: Tree) -> bool
    decreases tree,
{
    match tree {
        Tree::File => true,
        Tree::Dir { names, trees } => {
            &&& names.len() == trees.len()
            &&& forall|i: int, j: int|
                0 <= i < names.len() && 0 <= j < names.len() && names[i] == names[j] ==> i == j
            &&& forall|k: int| 0 <= k < trees.len() ==> well_formed(#[trigger] trees[k])
        },
    }
}

pub open spec fn kind_of(tree: Tree) -> PathType {
    match tree {
        Tree::File => PathType::File,
        Tree::Dir { .. } => PathType::Directory,
    }
}

/// What is observed of a spot.
pub open spec fn probe_of(spot: Spot) -> ProbeView {
    match spot {
        Spot::Missing => ProbeView::Missing,
        Spot::Broken(cause) => ProbeView::Broken(cause),
        Spot::Link { path, kind } => ProbeView::Link { path, kind },
        Spot::File => ProbeView::Plain(PathType::File),
        Spot::Dir(_) => ProbeView::Plain(PathType::Directory),
    }
}

/// What stands under `name` in a spot; nothing where the spot is no
/// directory or holds no such name.
pub open spec fn below(spot: Spot, name: Seq<char>) -> Spot {
    match spot {
        Spot::Dir(entries) => if entries.dom().contains(name) {
            entries[name]
        } else {
            Spot::Missing
        },
        _ => Spot::Missing,
    }
}

/// The names under a spot.
pub open spec fn names_below(spot: Spot) -> Set<Seq<char>> {
    match spot {
        Spot::Dir(entries) => entries.dom(),
        _ => Set::empty(),
    }
}

/// The place of `name` in a listing.
pub open spec fn index_of(names: Seq<Seq<char>>, name: Seq<char>) -> int {
    choose|k: int| 0 <= k < names.len() && names[k] == name
}

/// What stands at `target` once `create` has been followed from the
/// position (`source`, `target`) through all of `tree`; `None` where some
/// position on the way is refused. A position is decided as `create`
/// decides it. Where a directory is entered, each listed name is decided
/// against what stood under that name, and what is not listed stays.
pub open spec fn linked(source: Seq<char>, target: Seq<char>, tree: Tree, spot: Spot) -> Option<
    Spot,
>
    decreases tree,
{
    let facts = FactsView { source: kind_of(tree), target: probe_of(spot) };
    match state_spec(source, target, facts) {
        Err(_) => None,
        Ok(StateView::Equals) => Some(spot),
        Ok(StateView::VacantFile { .. }) => Some(
            Spot::Link { path: source, kind: PathType::File },
        ),
        Ok(StateView::VacantDirectory { .. }) => match tree {
            Tree::File => None,
            Tree::Dir { names, trees } => if forall|k: int|
                0 <= k < trees.len() ==> (#[trigger] linked(
                    join_spec(source, names[k]),
                    join_spec(target, names[k]),
                    trees[k],
                    below(spot, names[k]),
                )) is Some {
                Some(
                    Spot::Dir(
                        Map::new(
                            |name: Seq<char>| names_below(spot).contains(name) || names.contains(name),
                            |name: Seq<char>|
                                if names.contains(name) && 0 <= index_of(names, name) < trees.len() {
                                    linked(
                                        join_spec(source, name),
                                        join_spec(target, name),
                                        trees[index_of(names, name)],
                                        below(spot, name),
                                    )->Some_0
                                } else {
                                    below(spot, name)
                                },
                        ),
                    ),
                )
            } else {
                None
            },
        },
    }
}

/// The run through a tree goes where `create` sends it: it is refused at
/// a position exactly where `create` is; where a directory is entered, the
/// last step of `create` asks for its entries; and the positions that the
/// run then decides are those that `create_directory` names for the
/// listing.
pub proof fn lemma_linked_follows_create(
    source: Seq<char>,
    target: Seq<char>,
    tree: Tree,
    spot: Spot,
    listing: Seq<String>,
    k: int,
)
    requires
        tree is Dir,
        listing.len() == tree->names.len(),
        forall|i: int| 0 <= i < listing.len() ==> (#[trigger] listing[i])@ == tree->names[i],
        0 <= k < listing.len(),
    ensures
        create_spec(source, target, FactsView { source: kind_of(tree), target: probe_of(spot) })
            is Err ==> linked(source, target, tree, spot) is None,
        state_spec(source, target, FactsView { source: kind_of(tree), target: probe_of(spot) })
            matches Ok(StateView::VacantDirectory { .. }) ==> create_spec(
            source,
            target,
            FactsView { source: kind_of(tree), target: probe_of(spot) },
        )->Ok_0.last() == (ActionView::CreateEntries { source, target }),
        create_directory_spec(source, target, listing)[k] == (ActionView::Create {
            source: join_spec(source, tree->names[k]),
            target: join_spec(target, tree->names[k]),
        }),
{
}

/// Whether `entry` is what is observed of `spot`, an entry of a target
/// directory whose source side is the directory `tree`.
pub open spec fn observed_as(spot: Spot, entry: DirEntry, tree: Tree) -> bool {
    match (spot, entry.kind) {
        (Spot::Broken(cause), EntryKind::Broken(text)) => text@ == cause,
        (Spot::Link { path, .. }, EntryKind::Link(resolved)) => resolved@ == path,
        (Spot::Dir(_), EntryKind::Directory { mirrored: found }) => tree is Dir && found
            == mirrored(tree->names, tree->trees, entry.name@),
        (Spot::File, EntryKind::Other) => true,
        _ => false,
    }
}

/// Clearing goes where `remove_directory_entry` sends it: the run is
/// stopped at an entry exactly where the entry is refused; an entry for
/// which no step is named stays as it is; a link for which a step is named
/// is decided by `remove` as a position of its own, and `remove` there
/// unlinks the entry and nothing else.
pub proof fn lemma_cleared_follows_entry(
    source: Seq<char>,
    target: Seq<char>,
    tree: Tree,
    spot: Spot,
    entry: DirEntry,
    under: spec_fn(Seq<char>, Seq<char>) -> bool,
)
    requires
        observed_as(spot, entry, tree),
    ensures
        ({
            let owned = spot is Link && under(spot->Link_path, source);
            let answer = entry_spec(source, target, entry, owned);
            &&& answer is Err ==> cleared(source, target, tree, entry.name@, spot, under) is None
            &&& answer is Ok && answer->Ok_0.len() == 0 ==> cleared(
                source,
                target,
                tree,
                entry.name@,
                spot,
                under,
            ) == Some(spot)
            &&& answer is Ok && answer->Ok_0.len() > 0 && spot is Link ==> {
                &&& answer->Ok_0 == seq![
                    ActionView::Remove {
                        source: spot->Link_path,
                        target: join_spec(target, entry.name@),
                    },
                ]
                &&& forall|kind: PathType|
                    #[trigger] remove_spec(
                        spot->Link_path,
                        join_spec(target, entry.name@),
                        FactsView { source: kind, target: probe_of(spot) },
                    ) == Ok::<Seq<ActionView>, ErrorView>(
                        seq![ActionView::RemoveSymlink { path: join_spec(target, entry.name@) }],
                    )
                &&& cleared(source, target, tree, entry.name@, spot, under) == Some(Spot::Missing)
            }
            &&& answer is Ok && answer->Ok_0.len() > 0 && spot is Dir ==> answer->Ok_0 == seq![
                ActionView::RemoveEntries {
                    source: join_spec(source, entry.name@),
                    target: join_spec(target, entry.name@),
                },
            ]
        }),
{
}

/// A file is linked by one position: where `create` is not refused for a
/// source that is a file, what stands at the target afterwards is what the
/// steps of `create` leave there, a link that resolves to the source.
pub proof fn lemma_file_is_linked(source: Seq<char>, target: Seq<char>, spot: Spot)
    requires
        linked(source, target, Tree::File, spot) is Some,
    ensures
        create_spec(source, target, FactsView { source: PathType::File, target: probe_of(spot) })
            is Ok,
        probe_of(linked(source, target, Tree::File, spot)->Some_0) == after_create(
            source,
            target,
            FactsView { source: PathType::File, target: probe_of(spot) },
        ),
        classify(source, target, probe_of(linked(source, target, Tree::File, spot)->Some_0)) == Ok::<
            TargetState,
            ErrorView,
        >(TargetState::Equals),
{
    reveal_with_fuel(crate::symlink::after_steps, 4);
}

/// A directory is entered, never linked itself: where a run through a
/// directory tree is not refused, a real directory or the link that stood
/// there before stands at the target afterwards, and under each listed
/// name stands what the run through the tree of that name leaves.
pub proof fn lemma_directory_is_mirrored(
    source: Seq<char>,
    target: Seq<char>,
    tree: Tree,
    spot: Spot,
    k: int,
)
    requires
        well_formed(tree),
        tree is Dir,
        0 <= k < tree->names.len(),
        linked(source, target, tree, spot) is Some,
        !(classify(source, target, probe_of(spot)) == Ok::<TargetState, ErrorView>(
            TargetState::Equals,
        )),
    ensures
        linked(source, target, tree, spot)->Some_0 is Dir,
        linked(
            join_spec(source, tree->names[k]),
            join_spec(target, tree->names[k]),
            tree->trees[k],
            below(spot, tree->names[k]),
        ) is Some,
        below(linked(source, target, tree, spot)->Some_0, tree->names[k]) == linked(
            join_spec(source, tree->names[k]),
            join_spec(target, tree->names[k]),
            tree->trees[k],
            below(spot, tree->names[k]),
        )->Some_0,
{
    let names = tree->names;
    assert(names.contains(names[k]));
    assert(index_of(names, names[k]) == k);
}

/// Creating twice is creating once, through a whole tree: where a run is
/// not refused, a second run over what the first one left is not refused
/// either and leaves everything as it found it.
pub proof fn lemma_linked_twice(source: Seq<char>, target: Seq<char>, tree: Tree, spot: Spot)
    requires
        well_formed(tree),
        linked(source, target, tree, spot) is Some,
    ensures
        linked(source, target, tree, linked(source, target, tree, spot)->Some_0) == linked(
            source,
            target,
            tree,
            spot,
        ),
    decreases tree,
{
    let facts = FactsView { source: kind_of(tree), target: probe_of(spot) };
    let once = linked(source, target, tree, spot)->Some_0;
    match state_spec(source, target, facts) {
        Ok(StateView::VacantDirectory { .. }) => {
            let names = tree->names;
            let trees = tree->trees;
            assert forall|k: int| 0 <= k < trees.len() implies linked(
                join_spec(source, names[k]),
                join_spec(target, names[k]),
                #[trigger] trees[k],
                below(once, names[k]),
            ) == linked(
                join_spec(source, names[k]),
                join_spec(target, names[k]),
                trees[k],
                below(spot, names[k]),
            ) && linked(
                join_spec(source, names[k]),
                join_spec(target, names[k]),
                trees[k],
                below(spot, names[k]),
            ) is Some by {
                lemma_directory_is_mirrored(source, target, tree, spot, k);
                lemma_linked_twice(
                    join_spec(source, names[k]),
                    join_spec(target, names[k]),
                    trees[k],
                    below(spot, names[k]),
                );
            }
            let twice = linked(source, target, tree, once);
            assert(twice is Some);
            assert forall|name: Seq<char>| once->Dir_0.dom().contains(name) implies twice->Some_0->Dir_0[name]
                == once->Dir_0[name] by {
                if names.contains(name) {
                    let k = index_of(names, name);
                    lemma_directory_is_mirrored(source, target, tree, spot, k);
                    assert(linked(
                        join_spec(source, names[k]),
                        join_spec(target, names[k]),
                        trees[k],
                        below(once, names[k]),
                    ) == linked(
                        join_spec(source, names[k]),
                        join_spec(target, names[k]),
                        trees[k],
                        below(spot, names[k]),
                    ));
                }
            }
            assert(twice->Some_0->Dir_0 =~= once->Dir_0);
        },
        _ => {},
    }
}

/// Whether the source side holds a directory under `name`.
pub open spec fn mirrored(names: Seq<Seq<char>>, trees: Seq<Tree>, name: Seq<char>) -> bool {
    names.contains(name) && 0 <= index_of(names, name) < trees.len() && trees[index_of(
        names,
        name,
    )] is Dir
}

/// What stands under one name of a directory once the directory has been
/// cleared of the links into `source`; `None` where the run is stopped.
/// `under` says of a resolved path and a source whether the path lies
/// under the source. A link that resolves under the source goes; any other
/// link, and any file, stays. A real directory stays and is cleared in its
/// turn where the source side holds a directory of its name.
pub open spec fn cleared(
    source: Seq<char>,
    target: Seq<char>,
    tree: Tree,
    name: Seq<char>,
    entry: Spot,
    under: spec_fn(Seq<char>, Seq<char>) -> bool,
) -> Option<Spot>
    decreases tree, 0int,
{
    match entry {
        Spot::Broken(_) => None,
        Spot::Link { path, kind } => if under(path, source) {
            Some(Spot::Missing)
        } else {
            Some(entry)
        },
        Spot::Dir(_) => match tree {
            Tree::Dir { names, trees } => if mirrored(names, trees, name) {
                swept(
                    join_spec(source, name),
                    join_spec(target, name),
                    trees[index_of(names, name)],
                    entry,
                    under,
                )
            } else {
                Some(entry)
            },
            Tree::File => Some(entry),
        },
        _ => Some(entry),
    }
}

/// What stands at `target`, a real directory, once it has been cleared of
/// the links into the directory `source`; `None` where the run is stopped
/// by a link that cannot be resolved. The directory itself stays.
pub open spec fn swept(
    source: Seq<char>,
    target: Seq<char>,
    tree: Tree,
    spot: Spot,
    under: spec_fn(Seq<char>, Seq<char>) -> bool,
) -> Option<Spot>
    decreases tree, 1int,
{
    match spot {
        Spot::Dir(entries) => if forall|name: Seq<char>|
            entries.dom().contains(name) ==> (#[trigger] cleared(
                source,
                target,
                tree,
                name,
                entries[name],
                under,
            )) is Some {
            Some(
                Spot::Dir(
                    Map::new(
                        |name: Seq<char>|
                            entries.dom().contains(name) && !(cleared(
                                source,
                                target,
                                tree,
                                name,
                                entries[name],
                                under,
                            )->Some_0 is Missing),
                        |name: Seq<char>|
                            cleared(source, target, tree, name, entries[name], under)->Some_0,
                    ),
                ),
            )
        } else {
            None
        },
        _ => Some(spot),
    }
}

/// What stands at `target` once `remove` has been followed from the
/// position (`source`, `target`) through all below it; `None` where the
/// position is refused or the run is stopped. A position is decided as
/// `remove` decides it.
pub open spec fn unlinked(
    source: Seq<char>,
    target: Seq<char>,
    tree: Tree,
    spot: Spot,
    under: spec_fn(Seq<char>, Seq<char>) -> bool,
) -> Option<Spot> {
    let facts = FactsView { source: kind_of(tree), target: probe_of(spot) };
    match state_spec(source, target, facts) {
        Err(_) => None,
        Ok(StateView::Equals) => Some(Spot::Missing),
        Ok(StateView::VacantFile { .. }) => Some(Spot::Missing),
        Ok(StateView::VacantDirectory { .. }) => swept(source, target, tree, spot, under),
    }
}

/// Clearing keeps the directory and all that is foreign: where a real
/// directory is cleared, a real directory stands there afterwards, nothing
/// new stands in it, and every file in it, and every link that does not
/// resolve under the source, stands as before.
pub proof fn lemma_swept_keeps_foreign(
    source: Seq<char>,
    target: Seq<char>,
    tree: Tree,
    spot: Spot,
    under: spec_fn(Seq<char>, Seq<char>) -> bool,
    name: Seq<char>,
)
    requires
        spot is Dir,
        swept(source, target, tree, spot, under) is Some,
    ensures
        swept(source, target, tree, spot, under)->Some_0 is Dir,
        below(spot, name) is Missing ==> below(
            swept(source, target, tree, spot, under)->Some_0,
            name,
        ) is Missing,
        below(spot, name) is File || (below(spot, name) matches Spot::Link { path, .. } && !under(
            path,
            source,
        )) ==> below(swept(source, target, tree, spot, under)->Some_0, name) == below(spot, name),
        below(spot, name) matches Spot::Link { path, .. } && under(path, source) ==> below(
            swept(source, target, tree, spot, under)->Some_0,
            name,
        ) is Missing,
        below(spot, name) is Dir ==> below(
            swept(source, target, tree, spot, under)->Some_0,
            name,
        ) is Dir,
{
    let entries = spot->Dir_0;
    if entries.dom().contains(name) {
        let after = cleared(source, target, tree, name, entries[name], under);
        assert(after is Some);
    }
}

/// Clearing twice is clearing once: where a directory is cleared, clearing
/// what is left finds nothing more to take.
pub proof fn lemma_swept_twice(
    source: Seq<char>,
    target: Seq<char>,
    tree: Tree,
    spot: Spot,
    under: spec_fn(Seq<char>, Seq<char>) -> bool,
)
    requires
        swept(source, target, tree, spot, under) is Some,
    ensures
        swept(source, target, tree, swept(source, target, tree, spot, under)->Some_0, under)
            == swept(source, target, tree, spot, under),
    decreases tree,
{
    let once = swept(source, target, tree, spot, under)->Some_0;
    match spot {
        Spot::Dir(entries) => {
            let left = once->Dir_0;
            assert forall|name: Seq<char>| #[trigger] left.dom().contains(name) implies cleared(
                source,
                target,
                tree,
                name,
                left[name],
                under,
            ) == Some(left[name]) by {
                let first = cleared(source, target, tree, name, entries[name], under);
                assert(first is Some);
                match entries[name] {
                    Spot::Dir(_) => {
                        if tree is Dir && mirrored(tree->names, tree->trees, name) {
                            let sub = tree->trees[index_of(tree->names, name)];
                            lemma_swept_twice(
                                join_spec(source, name),
                                join_spec(target, name),
                                sub,
                                entries[name],
                                under,
                            );
                        }
                    },
                    _ => {},
                }
            }
            let twice = swept(source, target, tree, once, under);
            assert(twice is Some);
            assert(twice->Some_0->Dir_0 =~= left);
        },
        _ => {},
    }
}

/// Removing twice is removing once, through all below a position: where a
/// run of `remove` is not refused or stopped, a second run over what the
/// first one left is not either, and leaves everything as it found it.
pub proof fn lemma_unlinked_twice(
    source: Seq<char>,
    target: Seq<char>,
    tree: Tree,
    spot: Spot,
    under: spec_fn(Seq<char>, Seq<char>) -> bool,
)
    requires
        unlinked(source, target, tree, spot, under) is Some,
    ensures
        unlinked(source, target, tree, unlinked(source, target, tree, spot, under)->Some_0, under)
            == unlinked(source, target, tree, spot, under),
{
    let facts = FactsView { source: kind_of(tree), target: probe_of(spot) };
    match state_spec(source, target, facts) {
        Ok(StateView::VacantDirectory { .. }) => {
            if spot is Dir {
                lemma_swept_keeps_foreign(source, target, tree, spot, under, seq![]);
                lemma_swept_twice(source, target, tree, spot, under);
            }
        },
        _ => {},
    }
}

/// Removing after creating takes the link of a file away again: where a
/// run of `create` for a source that is a file is not refused, `remove`
/// over what it left is not refused either, and nothing stands at the
/// target afterwards.
pub proof fn lemma_file_unlinked_after_linked(
    source: Seq<char>,
    target: Seq<char>,
    spot: Spot,
    under: spec_fn(Seq<char>, Seq<char>) -> bool,
)
    requires
        linked(source, target, Tree::File, spot) is Some,
    ensures
        unlinked(
            source,
            target,
            Tree::File,
            linked(source, target, Tree::File, spot)->Some_0,
            under,
        ) == Some(Spot::Missing),
{
}

/// The mirror of a source tree: a link for each file, resolving to the
/// file; a real directory for each directory, holding the mirrors of what
/// the directory lists.
pub open spec fn image(source: Seq<char>, tree: Tree) -> Spot
    decreases tree,
{
    match tree {
        Tree::File => Spot::Link { path: source, kind: PathType::File },
        Tree::Dir { names, trees } => Spot::Dir(
            Map::new(
                |name: Seq<char>| names.contains(name),
                |name: Seq<char>|
                    if 0 <= index_of(names, name) < trees.len() {
                        image(join_spec(source, name), trees[index_of(names, name)])
                    } else {
                        Spot::Missing
                    },
            ),
        ),
    }
}

/// The directories of a mirror without its links: nothing for a file; a
/// real directory for a directory, holding the shells of the directories
/// that it lists.
pub open spec fn shell(tree: Tree) -> Spot
    decreases tree,
{
    match tree {
        Tree::File => Spot::Missing,
        Tree::Dir { names, trees } => Spot::Dir(
            Map::new(
                |name: Seq<char>| mirrored(names, trees, name),
                |name: Seq<char>|
                    if 0 <= index_of(names, name) < trees.len() {
                        shell(trees[index_of(names, name)])
                    } else {
                        Spot::Missing
                    },
            ),
        ),
    }
}

/// Whether every file of the tree lies, by `under`, under the directory
/// that lists it.
pub open spec fn owns(source: Seq<char>, tree: Tree, under: spec_fn(Seq<char>, Seq<char>) -> bool) -> bool
    decreases tree,
{
    match tree {
        Tree::File => true,
        Tree::Dir { names, trees } => forall|k: int|
            0 <= k < trees.len() && 0 <= k < names.len() ==> {
                &&& (#[trigger] trees[k]) is File ==> under(
                    join_spec(source, names[k]),
                    source,
                )
                &&& owns(join_spec(source, names[k]), trees[k], under)
            },
    }
}

/// Under an empty target a whole tree is mirrored: a run of `create` from
/// a position where nothing stands is never refused, and leaves a link for
/// each file of the source, resolving to it, and a real directory for each
/// directory.
pub proof fn lemma_fresh_target_is_mirrored(source: Seq<char>, target: Seq<char>, tree: Tree)
    requires
        well_formed(tree),
    ensures
        linked(source, target, tree, Spot::Missing) == Some(image(source, tree)),
    decreases tree,
{
    match tree {
        Tree::File => {},
        Tree::Dir { names, trees } => {
            assert forall|k: int| 0 <= k < trees.len() implies linked(
                join_spec(source, names[k]),
                join_spec(target, names[k]),
                #[trigger] trees[k],
                Spot::Missing,
            ) == Some(image(join_spec(source, names[k]), trees[k])) by {
                lemma_fresh_target_is_mirrored(
                    join_spec(source, names[k]),
                    join_spec(target, names[k]),
                    trees[k],
                );
            }
            let made = linked(source, target, tree, Spot::Missing);
            assert(made is Some);
            assert forall|name: Seq<char>| names.contains(name) implies made->Some_0->Dir_0[name]
                == image(source, tree)->Dir_0[name] by {
                let k = index_of(names, name);
                assert(made->Some_0->Dir_0[name] == linked(
                    join_spec(source, name),
                    join_spec(target, name),
                    trees[k],
                    Spot::Missing,
                )->Some_0);
            }
            assert(made->Some_0->Dir_0 =~= image(source, tree)->Dir_0);
        },
    }
}

/// Removing after creating leaves the shells and nothing else: where the
/// mirror of a directory tree is cleared, and every file of the tree lies
/// under the directory that lists it, every link of the mirror is gone and
/// every directory of it stands.
pub proof fn lemma_mirror_is_cleared(
    source: Seq<char>,
    target: Seq<char>,
    tree: Tree,
    under: spec_fn(Seq<char>, Seq<char>) -> bool,
)
    requires
        well_formed(tree),
        tree is Dir,
        owns(source, tree, under),
    ensures
        swept(source, target, tree, image(source, tree), under) == Some(shell(tree)),
    decreases tree,
{
    let names = tree->names;
    let trees = tree->trees;
    let entries = image(source, tree)->Dir_0;
    assert forall|name: Seq<char>| #[trigger] entries.dom().contains(name) implies cleared(
        source,
        target,
        tree,
        name,
        entries[name],
        under,
    ) == Some(
        if mirrored(names, trees, name) {
            shell(trees[index_of(names, name)])
        } else {
            Spot::Missing
        },
    ) by {
        let k = index_of(names, name);
        assert(owns(join_spec(source, names[k]), trees[k], under));
        if trees[k] is Dir {
            lemma_mirror_is_cleared(
                join_spec(source, name),
                join_spec(target, name),
                trees[k],
                under,
            );
        }
    }
    let left = swept(source, target, tree, image(source, tree), under);
    assert(left is Some);
    assert forall|name: Seq<char>| mirrored(names, trees, name) implies names.contains(name)
        && shell(trees[index_of(names, name)]) is Dir by {}
    assert(left->Some_0->Dir_0 =~= shell(tree)->Dir_0);
}

} // verus!
