//! What holds of every well-formed tree and of the cursors that walk it.
//!
//! The statements are over the model: [`TreeModel::climb`] and
//! [`TreeModel::descend`] are what the cursors' moves return,
//! [`TreeModel::add_child`] is what adding a child does,
//! [`TreeModel::upgrade`] is what the attempt to make a view mutable returns,
//! and [`SourceModel::next_tag`] is the tag that a new tree gets.
use vstd::prelude::*;

use crate::binary::Dir;
use crate::model::{NodeModel, Position, SourceModel, Step, TreeModel};

verus! {

/// A fresh tree is well-formed; its root holds the payload and has two empty
/// slots and no parent.
pub proof fn fresh_tree_is_a_leaf<T>(tag: u64, value: T)
    ensures
        TreeModel::single(tag, value).wf(),
        TreeModel::single(tag, value).reaches(TreeModel::single(tag, value).root()),
        TreeModel::single(tag, value).nodes[0].value == value,
        TreeModel::single(tag, value).child(0, Dir::Left) is None,
        TreeModel::single(tag, value).child(0, Dir::Right) is None,
        TreeModel::single(tag, value).parent(0) is None,
{
    assert(TreeModel::single(tag, value).node_ok(0));
}

/// After a child was added in a slot, descending into that slot succeeds and
/// lands on a node that holds the payload given. After a second child was
/// added in the same slot, the node that had to leave is the one that the
/// first descent reached, it still holds the first payload, and descending
/// now lands on a node that holds the second payload.
pub proof fn add_child_then_descend<T>(
    tree: TreeModel<T>,
    at: Position,
    dir: Dir,
    first: T,
    second: T,
)
    requires
        tree.wf(),
        tree.holds(at),
    ensures
        ({
            let once = tree.add_child(at.node, dir, first);
            let twice = once.add_child(at.node, dir, second);
            &&& once.wf() && once.holds(at)
            &&& twice.wf() && twice.holds(at)
            &&& once.descend(at, dir) matches Ok(child)
            &&& once.holds(child)
            &&& once.nodes[child.node].value == first
            &&& twice.holds(child)
            &&& twice.nodes[child.node].value == first
            &&& twice.descend(at, dir) matches Ok(later)
            &&& twice.holds(later)
            &&& twice.nodes[later.node].value == second
            &&& later != child
        }),
{
    let once = tree.add_child(at.node, dir, first);
    tree.lemma_add_child_wf(at.node, dir, first);
    tree.lemma_add_child_nodes(at.node, dir, first);
    once.lemma_add_child_wf(at.node, dir, second);
    once.lemma_add_child_nodes(at.node, dir, second);
}

/// A descent followed by a climb ends where it began.
pub proof fn descend_then_climb<T>(tree: TreeModel<T>, at: Position, dir: Dir)
    requires
        tree.wf(),
        tree.holds(at),
    ensures
        tree.descend(at, dir) matches Ok(down) ==> tree.holds(down) && tree.climb(down) == Ok::<
            Position,
            Position,
        >(at),
{
    assert(tree.node_ok(at.node));
}

/// A climb followed by the right descent ends where it began: every node
/// with a parent sits in one of the parent's two slots.
pub proof fn climb_then_descend<T>(tree: TreeModel<T>, at: Position)
    requires
        tree.wf(),
        tree.holds(at),
    ensures
        tree.climb(at) matches Ok(up) ==> {
            &&& tree.holds(up)
            &&& (tree.descend(up, Dir::Left) == Ok::<Position, Position>(at) || tree.descend(
                up,
                Dir::Right,
            ) == Ok::<Position, Position>(at))
        },
{
    assert(tree.node_ok(at.node));
}

/// Climbing from the root fails and leaves the position at the root,
/// whatever the shape of the tree.
pub proof fn climb_fails_at_root<T>(tree: TreeModel<T>)
    requires
        tree.wf(),
    ensures
        tree.climb(tree.root()) == Err::<Position, Position>(tree.root()),
{
}

/// Among the nodes under the root, the root is the only one without a
/// parent: from any other of them, climbing succeeds.
pub proof fn climb_fails_only_at_root<T>(tree: TreeModel<T>, at: Position)
    requires
        tree.wf(),
        tree.reaches(at),
    ensures
        tree.climb(at) is Err <==> at == tree.root(),
{
}

/// The tag that a source gives its next tree is none that it gave before,
/// and what it gave once stays given.
pub proof fn next_tag_is_new(source: SourceModel, tag: u64)
    requires
        source.has_room(),
    ensures
        !source.gave(source.next_tag()),
        source.advance().gave(source.next_tag()),
        source.gave(tag) ==> source.advance().gave(tag) && tag != source.next_tag(),
{
}

/// Two trees of one source never share a tag: the tree that the source
/// handed out when it had made `first.made` trees and the tree that it handed
/// out when it had made `second.made` trees carry different tags.
pub proof fn trees_of_one_source_differ(first: SourceModel, second: SourceModel)
    requires
        first.has_room(),
        second.has_room(),
        first.made != second.made,
    ensures
        first.next_tag() != second.next_tag(),
{
}

/// A tree keeps the tag that its source gave it: neither a new child nor
/// another node in the place of one changes it.
pub proof fn tag_stays<T>(tree: TreeModel<T>, at: int, dir: Dir, value: T, node: NodeModel<T>)
    ensures
        tree.add_child(at, dir, value).tag == tree.tag,
        tree.with_node(at, node).tag == tree.tag,
{
}

/// A view made for one tree is not made mutable on another tree of the same
/// source, whatever the two trees hold: the view names no node of the other
/// tree, and the attempt fails and hands the position back.
///
/// These are all the other trees that a view can be presented to: a tree of
/// another source carries another mark in its type, so that call is never
/// made.
pub proof fn upgrade_fails_on_another_tree<T>(
    first: SourceModel,
    second: SourceModel,
    home: TreeModel<T>,
    other: TreeModel<T>,
    at: Position,
)
    requires
        first.has_room(),
        second.has_room(),
        first.made != second.made,
        home.tag == first.next_tag(),
        other.tag == second.next_tag(),
        home.holds(at),
    ensures
        !other.holds(at),
        other.upgrade(at) == Err::<Position, Position>(at),
{
    trees_of_one_source_differ(first, second);
}

/// A move from a position under the root, whether it succeeds or fails, ends
/// at a position under the root.
pub proof fn step_keeps_reach<T>(tree: TreeModel<T>, at: Position, step: Step)
    requires
        tree.wf(),
        tree.reaches(at),
    ensures
        tree.reaches(tree.step(at, step)),
{
    assert(tree.node_ok(at.node));
    match step {
        Step::Up => {},
        Step::Down(dir) => {
            if let Some(c) = tree.child(at.node, dir) {
                assert(tree.node_ok(c));
            }
        },
    }
}

/// Every position that a view gets to from the root, by climbs and descents
/// in any order, is under the root: making such a view mutable on its own
/// tree succeeds, at the position where the view stands.
pub proof fn upgrade_succeeds_after_any_walk<T>(tree: TreeModel<T>, steps: Seq<Step>)
    requires
        tree.wf(),
    ensures
        tree.reaches(tree.walk(tree.root(), steps)),
        tree.upgrade(tree.walk(tree.root(), steps)) == Ok::<Position, Position>(
            tree.walk(tree.root(), steps),
        ),
    decreases steps.len(),
{
    if steps.len() > 0 {
        upgrade_succeeds_after_any_walk(tree, steps.drop_last());
        step_keeps_reach(tree, tree.walk(tree.root(), steps.drop_last()), steps.last());
    }
}

/// After a child was added under `at`, the new node is under the root if
/// `at` is, and a node that was there before is under the root if it was
/// before and does not sit in the subtree that had to leave the slot.
pub proof fn add_child_cuts_subtree<T>(tree: TreeModel<T>, at: int, dir: Dir, value: T, i: int)
    requires
        tree.wf(),
        tree.has(at),
        tree.has(i),
    ensures
        tree.add_child(at, dir, value).attached(tree.nodes.len() as int) == tree.attached(at),
        tree.add_child(at, dir, value).attached(i) == (tree.attached(i) && !(tree.child(at, dir)
            matches Some(c) && tree.below(i, c))),
    decreases i,
{
    let after = tree.add_child(at, dir, value);
    tree.lemma_add_child_keeps(at, dir, value);
    assert(tree.node_ok(at));
    assert(tree.node_ok(i));
    if let Some(c) = tree.child(at, dir) {
        assert(tree.node_ok(c));
    }
    if let Some(p) = tree.parent(i) {
        add_child_cuts_subtree(tree, at, dir, value, p);
    }
}

} // verus!
