//! What a walk does to a tree of files and directories.

use vstd::prelude::*;

use super::items::capped;
use super::walk::{
    Answer, Ask, Footprint, FrameView, StageView, WalkView, advancing, at_kept_root, both,
    counting, emptying, entering, first_odd_name, leaving, lemma_advancing_ignores_stage,
    starting, visiting, walking,
};
use super::{is_single, is_within, law_entries_are_within};
use crate::ordered::{in_order, lemma_in_order, orders, strictly_ordered};
use crate::paths::{climbs, components, joined};

verus! {

/// What is at a path. A link is a file: it has a size and nothing in it.
pub ghost enum Tree {
    File { bytes: u64 },
    Directory(Seq<(Seq<char>, Tree)>),
}

pub open spec fn names_of(entries: Seq<(Seq<char>, Tree)>) -> Seq<Seq<char>> {
    Seq::new(entries.len(), |i: int| entries[i].0)
}

/// Every directory lists its entries in order, and each name is a single
/// component.
pub open spec fn is_tree(tree: Tree) -> bool
    decreases tree, 0nat,
{
    match tree {
        Tree::File { .. } => true,
        Tree::Directory(entries) => are_entries(entries) && are_trees(entries, 0),
    }
}

pub open spec fn are_entries(entries: Seq<(Seq<char>, Tree)>) -> bool {
    &&& strictly_ordered(names_of(entries))
    &&& forall|i: int| 0 <= i < entries.len() ==> is_single(#[trigger] names_of(entries)[i])
}

/// The entries from `from` on are trees.
pub open spec fn are_trees(entries: Seq<(Seq<char>, Tree)>, from: nat) -> bool
    decreases entries, entries.len() - from,
{
    from < entries.len() ==> is_tree(entries[from as int].1) && are_trees(entries, from + 1)
}

/// What is at a path comes to this.
pub open spec fn tree_footprint(tree: Tree) -> Footprint
    decreases tree, 0nat,
{
    match tree {
        Tree::File { bytes } => Footprint { entries: 1, bytes },
        Tree::Directory(entries) => both(
            Footprint { entries: 1, bytes: 0 },
            entries_footprint(entries, 0),
        ),
    }
}

pub open spec fn entries_footprint(entries: Seq<(Seq<char>, Tree)>, from: nat) -> Footprint
    decreases entries, entries.len() - from,
{
    if from < entries.len() {
        both(tree_footprint(entries[from as int].1), entries_footprint(entries, from + 1))
    } else {
        Footprint { entries: 0, bytes: 0 }
    }
}

/// The bytes of all files of a tree.
pub open spec fn tree_bytes(tree: Tree) -> nat
    decreases tree, 0nat,
{
    match tree {
        Tree::File { bytes } => bytes as nat,
        Tree::Directory(entries) => entries_bytes(entries, 0),
    }
}

pub open spec fn entries_bytes(entries: Seq<(Seq<char>, Tree)>, from: nat) -> nat
    decreases entries, entries.len() - from,
{
    if from < entries.len() {
        tree_bytes(entries[from as int].1) + entries_bytes(entries, from + 1)
    } else {
        0
    }
}

/// A directory has no bytes of its own: what is measured are the bytes of the
/// files in it, up to the largest number.
pub proof fn law_directories_weigh_what_is_in_them(tree: Tree)
    ensures
        tree_footprint(tree).bytes == capped(tree_bytes(tree)),
    decreases tree, 0nat,
{
    match tree {
        Tree::File { .. } => {},
        Tree::Directory(entries) => lemma_entries_bytes(entries, 0),
    }
}

proof fn lemma_entries_bytes(entries: Seq<(Seq<char>, Tree)>, from: nat)
    ensures
        entries_footprint(entries, from).bytes == capped(entries_bytes(entries, from)),
    decreases entries, entries.len() - from,
{
    if from < entries.len() {
        law_directories_weigh_what_is_in_them(entries[from as int].1);
        lemma_entries_bytes(entries, from + 1);
    }
}

/// The paths of a tree: its own and those of all that is in it.
pub open spec fn tree_paths(path: Seq<char>, tree: Tree) -> Set<Seq<char>>
    decreases tree, 0nat,
{
    match tree {
        Tree::File { .. } => set![path],
        Tree::Directory(entries) => entries_paths(path, entries, 0).insert(path),
    }
}

pub open spec fn entries_paths(
    path: Seq<char>,
    entries: Seq<(Seq<char>, Tree)>,
    from: nat,
) -> Set<Seq<char>>
    decreases entries, entries.len() - from,
{
    if from < entries.len() {
        tree_paths(joined(path, entries[from as int].0), entries[from as int].1).union(
            entries_paths(path, entries, from + 1),
        )
    } else {
        Set::empty()
    }
}

/// What a walk asks, and what the file system answers.
pub ghost struct Exchange {
    pub ask: Ask,
    pub answer: Answer,
}

/// In what order the file system tells the names in a directory.
pub type Telling = spec_fn(Seq<Seq<char>>) -> Seq<Seq<char>>;

/// The file system tells all names, and no others.
pub open spec fn is_telling(telling: Telling) -> bool {
    forall|names: Seq<Seq<char>>|
        strictly_ordered(names) ==> orders(names, #[trigger] telling(names))
}

/// The exchanges about a tree: a directory is asked for, listed, walked through
/// and then removed.
pub open spec fn tree_talk(path: Seq<char>, tree: Tree, removes: bool, telling: Telling) -> Seq<
    Exchange,
>
    decreases tree, 0nat,
{
    match tree {
        Tree::File { bytes } => seq![
            Exchange { ask: Ask::Inspect(path), answer: Answer::File { bytes } },
        ] + removal(Ask::RemoveFile(path), removes),
        Tree::Directory(entries) => listing_talk(path, entries, telling) + entries_talk(
            path,
            entries,
            0,
            removes,
            telling,
        ) + removal(Ask::RemoveDirectory(path), removes),
    }
}

pub open spec fn removal(ask: Ask, removes: bool) -> Seq<Exchange> {
    if removes {
        seq![Exchange { ask, answer: Answer::Removed }]
    } else {
        seq![]
    }
}

pub open spec fn listing_talk(
    path: Seq<char>,
    entries: Seq<(Seq<char>, Tree)>,
    telling: Telling,
) -> Seq<Exchange> {
    seq![
        Exchange { ask: Ask::Inspect(path), answer: Answer::Directory },
        Exchange {
            ask: Ask::List(path),
            answer: Answer::Children(telling(names_of(entries))),
        },
    ]
}

pub open spec fn entries_talk(
    path: Seq<char>,
    entries: Seq<(Seq<char>, Tree)>,
    from: nat,
    removes: bool,
    telling: Telling,
) -> Seq<Exchange>
    decreases entries, entries.len() - from,
{
    if from < entries.len() {
        tree_talk(
            joined(path, entries[from as int].0),
            entries[from as int].1,
            removes,
            telling,
        ) + entries_talk(path, entries, from + 1, removes, telling)
    } else {
        seq![]
    }
}

/// A walk that stands at `start` asks what `talk` says, is answered so, and
/// then stands at `end`.
pub open spec fn conducts(start: (WalkView, Ask), talk: Seq<Exchange>, end: (WalkView, Ask)) -> bool
    decreases talk.len(),
{
    if talk.len() == 0 {
        start == end
    } else {
        start.1 == talk[0].ask && conducts(
            walking(start.0, talk[0].answer),
            talk.drop_first(),
            end,
        )
    }
}

proof fn lemma_conducts_on(
    start: (WalkView, Ask),
    first: Seq<Exchange>,
    middle: (WalkView, Ask),
    second: Seq<Exchange>,
    end: (WalkView, Ask),
)
    requires
        conducts(start, first, middle),
        conducts(middle, second, end),
    ensures
        conducts(start, first + second, end),
    decreases first.len(),
{
    if first.len() == 0 {
        assert(first + second =~= second);
    } else {
        lemma_conducts_on(
            walking(start.0, first[0].answer),
            first.drop_first(),
            middle,
            second,
            end,
        );
        assert((first + second).drop_first() =~= first.drop_first() + second);
    }
}

proof fn lemma_conducts_one(start: (WalkView, Ask), exchange: Exchange)
    requires
        start.1 == exchange.ask,
    ensures
        conducts(start, seq![exchange], walking(start.0, exchange.answer)),
{
    assert(seq![exchange].drop_first() =~= seq![]);
    assert(conducts(
        walking(start.0, exchange.answer),
        seq![],
        walking(start.0, exchange.answer),
    ));
}

proof fn lemma_both_regroups(a: Footprint, b: Footprint, c: Footprint)
    ensures
        both(both(a, b), c) == both(a, both(b, c)),
{
}

/// The walk with more counted.
pub open spec fn counted(walk: WalkView, more: Footprint) -> WalkView {
    WalkView { total: both(walk.total, more), ..walk }
}

proof fn lemma_no_odd_name(names: Seq<Seq<char>>, from: int)
    requires
        0 <= from <= names.len(),
        forall|i: int| from <= i < names.len() ==> is_single(#[trigger] names[i]),
    ensures
        first_odd_name(names, from) is None,
    decreases names.len() - from,
{
    if from < names.len() {
        lemma_no_odd_name(names, from + 1);
    }
}

proof fn lemma_told_names(entries: Seq<(Seq<char>, Tree)>, telling: Telling)
    requires
        is_telling(telling),
        are_entries(entries),
    ensures
        first_odd_name(telling(names_of(entries)), 0) is None,
        in_order(telling(names_of(entries))) == names_of(entries),
{
    let names = names_of(entries);
    let told = telling(names);
    lemma_in_order(names, told);
    assert forall|i: int| 0 <= i < told.len() implies is_single(#[trigger] told[i]) by {
        assert(told.contains(told[i]));
        assert(names.contains(told[i]));
        let k = choose|k: int| 0 <= k < names.len() && names[k] == told[i];
        assert(is_single(names_of(entries)[k]));
    }
    lemma_no_odd_name(told, 0);
}

proof fn lemma_climbs_not(root: Seq<char>, path: Seq<char>)
    requires
        is_within(root, path),
    ensures
        !climbs(root),
{
    let outer = components(root);
    let inner = components(path);
    assert forall|i: int| 0 <= i < outer.len() implies #[trigger] outer[i] != ".."@ by {
        assert(inner.take(outer.len() as int)[i] == outer[i]);
        assert(inner[i] != ".."@);
    }
}

/// A walk takes a whole tree and goes on after it.
proof fn lemma_walk_takes_tree(walk: WalkView, path: Seq<char>, tree: Tree, telling: Telling)
    requires
        is_telling(telling),
        is_tree(tree),
        is_within(walk.root, path),
        !at_kept_root(walk),
    ensures
        conducts(
            visiting(walk, path),
            tree_talk(path, tree, walk.removes, telling),
            advancing(counted(walk, tree_footprint(tree))),
        ),
    decreases tree, 0nat,
{
    let start = visiting(walk, path);
    let end = advancing(counted(walk, tree_footprint(tree)));
    match tree {
        Tree::File { bytes } => {
            let seen = Exchange { ask: Ask::Inspect(path), answer: Answer::File { bytes } };
            lemma_conducts_one(start, seen);
            let next = walking(start.0, seen.answer);
            if walk.removes {
                let gone = Exchange { ask: Ask::RemoveFile(path), answer: Answer::Removed };
                lemma_conducts_one(next, gone);
                lemma_advancing_ignores_stage(
                    counted(walk, tree_footprint(tree)),
                    counting(next.0, bytes),
                );
                lemma_conducts_on(start, seq![seen], next, seq![gone], end);
            } else {
                lemma_advancing_ignores_stage(
                    counted(walk, tree_footprint(tree)),
                    counting(start.0, bytes),
                );
                assert(seq![seen] + removal(Ask::RemoveFile(path), false) =~= seq![seen]);
            }
        },
        Tree::Directory(entries) => {
            let names = names_of(entries);
            let seen = Exchange { ask: Ask::Inspect(path), answer: Answer::Directory };
            let told = Exchange {
                ask: Ask::List(path),
                answer: Answer::Children(telling(names)),
            };
            lemma_conducts_one(start, seen);
            let listing = walking(start.0, seen.answer);
            lemma_conducts_one(listing, told);
            let entered = entering(listing.0, path, telling(names));
            lemma_told_names(entries, telling);
            lemma_conducts_on(start, seq![seen], listing, seq![told], advancing(entered));
            assert(seq![seen] + seq![told] =~= listing_talk(path, entries, telling));
            let inside = WalkView {
                frames: walk.frames.push(FrameView { path, children: names, next: 0 }),
                ..counting(walk, 0)
            };
            lemma_advancing_ignores_stage(inside, entered);
            lemma_walk_takes_entries(inside, path, entries, 0, telling);
            let frame = FrameView { path, children: names, next: entries.len() as int };
            let through = WalkView {
                frames: walk.frames.push(frame),
                ..counted(inside, entries_footprint(entries, 0))
            };
            assert(inside.frames.drop_last() =~= walk.frames);
            lemma_conducts_on(
                start,
                listing_talk(path, entries, telling),
                advancing(inside),
                entries_talk(path, entries, 0, walk.removes, telling),
                advancing(through),
            );
            lemma_both_regroups(
                walk.total,
                Footprint { entries: 1, bytes: 0 },
                entries_footprint(entries, 0),
            );
            assert(through.frames.drop_last() =~= walk.frames);
            let so_far = listing_talk(path, entries, telling) + entries_talk(
                path,
                entries,
                0,
                walk.removes,
                telling,
            );
            if walk.removes {
                let gone = Exchange { ask: Ask::RemoveDirectory(path), answer: Answer::Removed };
                let removing = advancing(through);
                lemma_conducts_one(removing, gone);
                lemma_advancing_ignores_stage(
                    counted(walk, tree_footprint(tree)),
                    leaving(removing.0),
                );
                lemma_conducts_on(start, so_far, removing, seq![gone], end);
            } else {
                lemma_advancing_ignores_stage(
                    counted(walk, tree_footprint(tree)),
                    leaving(through),
                );
                assert(so_far + removal(Ask::RemoveDirectory(path), false) =~= so_far);
            }
        },
    }
}

/// A walk in a directory takes the entries that are left.
proof fn lemma_walk_takes_entries(
    walk: WalkView,
    path: Seq<char>,
    entries: Seq<(Seq<char>, Tree)>,
    from: nat,
    telling: Telling,
)
    requires
        is_telling(telling),
        are_entries(entries),
        are_trees(entries, from),
        from <= entries.len(),
        walk.frames.len() > 0,
        walk.frames.last() == (FrameView {
            path,
            children: names_of(entries),
            next: from as int,
        }),
        is_within(walk.root, path) || (path == walk.root && !climbs(walk.root)),
    ensures
        conducts(
            advancing(walk),
            entries_talk(path, entries, from, walk.removes, telling),
            advancing(
                WalkView {
                    frames: walk.frames.drop_last().push(
                        FrameView {
                            path,
                            children: names_of(entries),
                            next: entries.len() as int,
                        },
                    ),
                    ..counted(walk, entries_footprint(entries, from))
                },
            ),
        ),
    decreases entries, entries.len() - from,
{
    let names = names_of(entries);
    let outer = walk.frames.drop_last();
    let last = FrameView { path, children: names, next: entries.len() as int };
    let end = WalkView {
        frames: outer.push(last),
        ..counted(walk, entries_footprint(entries, from))
    };
    if from < entries.len() {
        let (name, tree) = entries[from as int];
        let child = joined(path, name);
        assert(names[from as int] == name);
        if is_within(walk.root, path) {
            lemma_climbs_not(walk.root, path);
        }
        law_entries_are_within(walk.root, path, name);
        let next = FrameView { path, children: names, next: from as int + 1 };
        let inner = WalkView { frames: outer.push(next), ..walk };
        lemma_walk_takes_tree(inner, child, tree, telling);
        let after = counted(inner, tree_footprint(tree));
        assert(after.frames.drop_last() =~= outer);
        lemma_walk_takes_entries(after, path, entries, from + 1, telling);
        lemma_both_regroups(
            walk.total,
            tree_footprint(tree),
            entries_footprint(entries, from + 1),
        );
        lemma_conducts_on(
            advancing(walk),
            tree_talk(child, tree, walk.removes, telling),
            advancing(after),
            entries_talk(path, entries, from + 1, walk.removes, telling),
            advancing(end),
        );
    } else {
        assert(end.frames =~= walk.frames);
        assert(end == walk);
    }
}

/// A walk that has ended with this footprint.
pub open spec fn finished(root: Seq<char>, removes: bool, keeps: bool, total: Footprint) -> (
    WalkView,
    Ask,
) {
    (
        WalkView { root, removes, keeps, frames: seq![], stage: StageView::Done, total },
        Ask::Finish(total),
    )
}

/// A measurement and a removal both report exactly what is at the target and
/// below it, whatever the order in which the file system tells it.
pub proof fn law_walks_report_the_tree(
    root: Seq<char>,
    target: Seq<char>,
    tree: Tree,
    removes: bool,
    telling: Telling,
)
    requires
        is_telling(telling),
        is_tree(tree),
        is_within(root, target),
    ensures
        conducts(
            starting(root, target, removes),
            tree_talk(target, tree, removes, telling),
            finished(root, removes, false, tree_footprint(tree)),
        ),
{
    let walk = WalkView {
        root,
        removes,
        keeps: false,
        frames: seq![],
        stage: StageView::Done,
        total: Footprint { entries: 0, bytes: 0 },
    };
    lemma_walk_takes_tree(walk, target, tree, telling);
}

/// The paths that are removed in the course of `talk`.
pub open spec fn removed_by(talk: Seq<Exchange>) -> Set<Seq<char>> {
    Set::new(
        |path: Seq<char>|
            exists|i: int|
                0 <= i < talk.len() && (#[trigger] talk[i]).answer == Answer::Removed && (
                talk[i].ask == Ask::RemoveFile(path) || talk[i].ask == Ask::RemoveDirectory(path)),
    )
}

proof fn lemma_removed_by_both(first: Seq<Exchange>, second: Seq<Exchange>)
    ensures
        removed_by(first + second) == removed_by(first).union(removed_by(second)),
{
    let all = first + second;
    assert forall|path: Seq<char>| #[trigger]
        removed_by(all).contains(path) == removed_by(first).union(removed_by(second)).contains(
            path,
        ) by {
        if removed_by(all).contains(path) {
            let i = choose|i: int|
                0 <= i < all.len() && (#[trigger] all[i]).answer == Answer::Removed && (all[i].ask
                    == Ask::RemoveFile(path) || all[i].ask == Ask::RemoveDirectory(path));
            if i < first.len() {
                assert(first[i] == all[i]);
            } else {
                assert(second[i - first.len()] == all[i]);
            }
        }
        if removed_by(first).contains(path) {
            let i = choose|i: int|
                0 <= i < first.len() && (#[trigger] first[i]).answer == Answer::Removed && (
                first[i].ask == Ask::RemoveFile(path) || first[i].ask == Ask::RemoveDirectory(
                    path,
                ));
            assert(all[i] == first[i]);
        }
        if removed_by(second).contains(path) {
            let i = choose|i: int|
                0 <= i < second.len() && (#[trigger] second[i]).answer == Answer::Removed && (
                second[i].ask == Ask::RemoveFile(path) || second[i].ask == Ask::RemoveDirectory(
                    path,
                ));
            assert(all[first.len() + i] == second[i]);
        }
    }
    assert(removed_by(all) =~= removed_by(first).union(removed_by(second)));
}

proof fn lemma_removal(ask: Ask, path: Seq<char>)
    requires
        ask == Ask::RemoveFile(path) || ask == Ask::RemoveDirectory(path),
    ensures
        removed_by(removal(ask, true)) == set![path],
        removed_by(removal(ask, false)) == Set::<Seq<char>>::empty(),
{
    let one = removal(ask, true);
    assert(one[0].ask == ask);
    assert(removed_by(one) =~= set![path]);
    assert(removed_by(removal(ask, false)) =~= Set::<Seq<char>>::empty());
}

proof fn lemma_tree_talk_removes(path: Seq<char>, tree: Tree, removes: bool, telling: Telling)
    ensures
        removed_by(tree_talk(path, tree, removes, telling)) == (if removes {
            tree_paths(path, tree)
        } else {
            Set::empty()
        }),
    decreases tree, 0nat,
{
    match tree {
        Tree::File { bytes } => {
            let seen = seq![
                Exchange { ask: Ask::Inspect(path), answer: Answer::File { bytes } },
            ];
            let gone = removal(Ask::RemoveFile(path), removes);
            lemma_removed_by_both(seen, gone);
            lemma_removal(Ask::RemoveFile(path), path);
            assert(removed_by(seen) =~= Set::<Seq<char>>::empty());
            assert(removed_by(seen + gone) =~= removed_by(gone));
        },
        Tree::Directory(entries) => {
            let listed = listing_talk(path, entries, telling);
            let inside = entries_talk(path, entries, 0, removes, telling);
            let gone = removal(Ask::RemoveDirectory(path), removes);
            lemma_removed_by_both(listed + inside, gone);
            lemma_removed_by_both(listed, inside);
            lemma_removal(Ask::RemoveDirectory(path), path);
            lemma_entries_talk_removes(path, entries, 0, removes, telling);
            assert(removed_by(listed) =~= Set::<Seq<char>>::empty());
            assert(removed_by(listed + inside + gone) =~= removed_by(inside).union(
                removed_by(gone),
            ));
            assert(entries_paths(path, entries, 0).union(set![path]) =~= entries_paths(
                path,
                entries,
                0,
            ).insert(path));
        },
    }
}

proof fn lemma_entries_talk_removes(
    path: Seq<char>,
    entries: Seq<(Seq<char>, Tree)>,
    from: nat,
    removes: bool,
    telling: Telling,
)
    ensures
        removed_by(entries_talk(path, entries, from, removes, telling)) == (if removes {
            entries_paths(path, entries, from)
        } else {
            Set::empty()
        }),
    decreases entries, entries.len() - from,
{
    if from < entries.len() {
        let (name, tree) = entries[from as int];
        let first = tree_talk(joined(path, name), tree, removes, telling);
        let rest = entries_talk(path, entries, from + 1, removes, telling);
        lemma_removed_by_both(first, rest);
        lemma_tree_talk_removes(joined(path, name), tree, removes, telling);
        lemma_entries_talk_removes(path, entries, from + 1, removes, telling);
        assert(removed_by(first + rest) =~= removed_by(first).union(removed_by(rest)));
    } else {
        assert(removed_by(seq![]) =~= Set::<Seq<char>>::empty());
    }
}

/// All paths of a tree are at or below its own.
proof fn lemma_tree_paths_within(top: Seq<char>, path: Seq<char>, tree: Tree)
    requires
        !climbs(top),
        is_tree(tree),
        path == top || is_within(top, path),
    ensures
        forall|found: Seq<char>| #[trigger]
            tree_paths(path, tree).contains(found) ==> found == path || is_within(top, found),
    decreases tree, 0nat,
{
    match tree {
        Tree::File { .. } => {},
        Tree::Directory(entries) => {
            lemma_entries_paths_within(top, path, entries, 0);
            let inside = entries_paths(path, entries, 0);
            assert forall|found: Seq<char>| #[trigger]
                tree_paths(path, tree).contains(found) implies found == path || is_within(
                top,
                found,
            ) by {
                assert(found == path || inside.contains(found));
            }
        },
    }
}

proof fn lemma_entries_paths_within(
    top: Seq<char>,
    path: Seq<char>,
    entries: Seq<(Seq<char>, Tree)>,
    from: nat,
)
    requires
        !climbs(top),
        are_entries(entries),
        are_trees(entries, from),
        path == top || is_within(top, path),
    ensures
        forall|found: Seq<char>| #[trigger]
            entries_paths(path, entries, from).contains(found) ==> is_within(top, found),
    decreases entries, entries.len() - from,
{
    if from < entries.len() {
        let (name, tree) = entries[from as int];
        assert(names_of(entries)[from as int] == name);
        law_entries_are_within(top, path, name);
        lemma_tree_paths_within(top, joined(path, name), tree);
        lemma_entries_paths_within(top, path, entries, from + 1);
        let first = tree_paths(joined(path, name), tree);
        let rest = entries_paths(path, entries, from + 1);
        assert forall|found: Seq<char>| #[trigger]
            entries_paths(path, entries, from).contains(found) implies is_within(top, found) by {
            assert(first.contains(found) || rest.contains(found));
        }
    }
}

/// The paths that are left of `present` after `talk`.
pub open spec fn left_after(present: Set<Seq<char>>, talk: Seq<Exchange>) -> Set<Seq<char>> {
    present.difference(removed_by(talk))
}

/// A removal takes the tree at the target and nothing else: the target and all
/// that was in it are gone, every other path is as it was, and what is gone was
/// at the target or strictly inside it. What a link points to is no part of the
/// tree.
pub proof fn law_removals_take_the_tree_alone(
    root: Seq<char>,
    target: Seq<char>,
    tree: Tree,
    telling: Telling,
    present: Set<Seq<char>>,
)
    requires
        is_tree(tree),
        is_within(root, target),
    ensures
        ({
            let left = left_after(present, tree_talk(target, tree, true, telling));
            &&& !left.contains(target)
            &&& forall|path: Seq<char>| #[trigger]
                left.contains(path) <==> present.contains(path) && !tree_paths(
                    target,
                    tree,
                ).contains(path)
            &&& forall|path: Seq<char>| #[trigger]
                tree_paths(target, tree).contains(path) ==> path == target || is_within(
                    target,
                    path,
                )
        }),
{
    lemma_tree_talk_removes(target, tree, true, telling);
    lemma_tree_paths_within(target, target, tree);
    assert(tree_paths(target, tree).contains(target));
}

/// A measurement leaves everything as it was.
pub proof fn law_measurements_leave_all(
    target: Seq<char>,
    tree: Tree,
    telling: Telling,
    present: Set<Seq<char>>,
)
    ensures
        left_after(present, tree_talk(target, tree, false, telling)) == present,
{
    lemma_tree_talk_removes(target, tree, false, telling);
    assert(left_after(present, tree_talk(target, tree, false, telling)) =~= present);
}

/// Where nothing is at the target, as after a removal, a walk finds nothing.
pub proof fn law_second_removals_find_nothing(root: Seq<char>, target: Seq<char>, removes: bool)
    requires
        is_within(root, target),
    ensures
        conducts(
            starting(root, target, removes),
            seq![Exchange { ask: Ask::Inspect(target), answer: Answer::Missing }],
            finished(root, removes, false, Footprint { entries: 0, bytes: 0 }),
        ),
{
    lemma_conducts_one(
        starting(root, target, removes),
        Exchange { ask: Ask::Inspect(target), answer: Answer::Missing },
    );
}

/// Emptying a root takes everything that is in it, reports it exactly, and
/// leaves the root and all that is outside.
pub proof fn law_emptying_takes_all_but_the_root(
    root: Seq<char>,
    entries: Seq<(Seq<char>, Tree)>,
    telling: Telling,
    present: Set<Seq<char>>,
)
    requires
        is_telling(telling),
        is_tree(Tree::Directory(entries)),
        !climbs(root),
        present.contains(root),
    ensures
        ({
            let talk = listing_talk(root, entries, telling) + entries_talk(
                root,
                entries,
                0,
                true,
                telling,
            );
            let left = left_after(present, talk);
            &&& conducts(
                emptying(root),
                talk,
                finished(root, true, true, entries_footprint(entries, 0)),
            )
            &&& left.contains(root)
            &&& forall|path: Seq<char>| #[trigger]
                left.contains(path) <==> present.contains(path) && !entries_paths(
                    root,
                    entries,
                    0,
                ).contains(path)
            &&& forall|path: Seq<char>| #[trigger]
                entries_paths(root, entries, 0).contains(path) ==> is_within(root, path)
        }),
{
    let names = names_of(entries);
    let start = emptying(root);
    let seen = Exchange { ask: Ask::Inspect(root), answer: Answer::Directory };
    let told = Exchange { ask: Ask::List(root), answer: Answer::Children(telling(names)) };
    lemma_conducts_one(start, seen);
    let listing = walking(start.0, seen.answer);
    lemma_conducts_one(listing, told);
    let entered = entering(listing.0, root, telling(names));
    lemma_told_names(entries, telling);
    lemma_conducts_on(start, seq![seen], listing, seq![told], advancing(entered));
    let listed = listing_talk(root, entries, telling);
    assert(seq![seen] + seq![told] =~= listed);
    lemma_walk_takes_entries(entered, root, entries, 0, telling);
    let inside = entries_talk(root, entries, 0, true, telling);
    let frame = FrameView { path: root, children: names, next: entries.len() as int };
    let through = WalkView {
        frames: entered.frames.drop_last().push(frame),
        ..counted(entered, entries_footprint(entries, 0))
    };
    lemma_conducts_on(start, listed, advancing(entered), inside, advancing(through));
    assert(through.frames.drop_last() =~= seq![]);
    assert(leaving(through).frames =~= seq![]);
    assert(advancing(through) == advancing(leaving(through)));
    assert(advancing(through) == finished(root, true, true, entries_footprint(entries, 0)));
    lemma_removed_by_both(listed, inside);
    assert(removed_by(listed) =~= Set::<Seq<char>>::empty());
    lemma_entries_talk_removes(root, entries, 0, true, telling);
    lemma_entries_paths_within(root, root, entries, 0);
}

} // verus!
