//! The tree and its nodes.
use vstd::prelude::*;

use crate::model::{lift, NodeModel, TreeModel};
use crate::source::{Brand, TreeSource};
use std::marker::PhantomData;
use crate::view::{BinaryView, BinaryViewInner, BinaryViewMut};

verus! {

/// The direction in the tree to go.
/// Left refers to the first slot, right to the second.
#[derive(Clone, Copy, PartialEq, Eq, Structural, Debug)]
pub enum Dir {
    /// The first slot.
    Left,
    /// The second slot.
    Right,
}

/// A node that has 0, 1, or 2 children and maybe a parent.
///
/// The links are indices into the arena of the tree that the node lives in.
/// A node of a well-formed tree that has no parent and hangs under the root
/// is the root.
#[derive(Debug, PartialEq, Eq)]
pub struct BinaryNode<T> {
    parent: Option<usize>,
    children: (Option<usize>, Option<usize>),
    value: T,
}

/// A tree where each node has 0, 1, or 2 children.
///
/// A tree is made by a [`TreeSource`], which gives it a tag that no other
/// tree of that source has, and the mark `'id` that only this source gives.
/// The tree owns all its nodes, in an arena that only grows: a node is never
/// moved or removed, so an index names the same node for as long as the tree
/// lives. A subtree that [`BinaryViewMut::add_child`] cuts off stays in the
/// arena, no longer reachable from the root, until the tree is dropped.
///
/// [`BinaryViewMut::add_child`]: crate::view::BinaryViewMut::add_child
#[derive(Debug)]
pub struct BinaryTree<'id, T> {
    tag: u64,
    nodes: Vec<BinaryNode<T>>,
    brand: Brand<'id>,
}

impl<T> View for BinaryNode<T> {
    type V = NodeModel<T>;

    closed spec fn view(&self) -> NodeModel<T> {
        NodeModel {
            parent: lift(self.parent),
            left: lift(self.children.0),
            right: lift(self.children.1),
            value: self.value,
        }
    }
}

impl<T> BinaryNode<T> {
    /// Constructs a node without parent or children.
    pub(crate) fn new(value: T) -> (node: Self)
        ensures
            node@ == NodeModel::leaf(None, value),
    {
        BinaryNode { parent: None, children: (None, None), value }
    }

    /// Gets the value behind the node.
    pub fn value(&self) -> (value: &T)
        ensures
            *value == self@.value,
    {
        &self.value
    }

    /// Sets the value of the node to the given data.
    /// Returns the data that was there previously. The links stay.
    pub fn set_value(&mut self, data: T) -> (previous: T)
        ensures
            previous == old(self)@.value,
            final(self)@ == old(self)@.with_value(data),
    {
        let mut data = data;
        std::mem::swap(&mut self.value, &mut data);
        data
    }

    /// Gets the two child slots of this node: the index of the node in each,
    /// if there is one.
    pub fn children(&self) -> (slots: &(Option<usize>, Option<usize>))
        ensures
            lift(slots.0) == self@.left,
            lift(slots.1) == self@.right,
    {
        &self.children
    }

    /// Gets the index of the parent of this node, if it has one.
    ///
    /// The link is only a number. It says where the parent is in the tree
    /// that this node lives in; read through a cursor, it leads there.
    pub fn parent(&self) -> (link: Option<usize>)
        ensures
            lift(link) == self@.parent,
    {
        self.parent
    }
}

impl<'id, T> BinaryTree<'id, T> {
    /// What the tree holds, as the contracts see it.
    pub closed spec fn model(&self) -> TreeModel<T> {
        TreeModel {
            tag: self.tag,
            nodes: Seq::new(self.nodes@.len(), |i: int| self.nodes@[i]@),
        }
    }

    /// The links of the tree are in order.
    pub open spec fn wf(&self) -> bool {
        self.model().wf()
    }

    /// Constructs a new binary tree of one node, the root, which holds
    /// `value`.
    ///
    /// The tree is the next one of `source`, and its tag is the number that
    /// the source gives it: no other tree of that source has it.
    pub fn new(source: &mut TreeSource<'id>, value: T) -> (tree: Self)
        requires
            old(source)@.has_room(),
        ensures
            tree.wf(),
            tree.model() == TreeModel::single(old(source)@.next_tag(), value),
            final(source)@ == old(source)@.advance(),
    {
        let tag: u64 = source.hand_out();
        let mut nodes = Vec::new();
        nodes.push(BinaryNode::new(value));
        let tree = BinaryTree { tag, nodes, brand: PhantomData };
        assert(tree.model().nodes =~= TreeModel::single(tag, value).nodes);
        assert(tree.model().node_ok(0));
        tree
    }

    /// Gets the tag of the tree.
    pub fn tag(&self) -> (tag: u64)
        ensures
            tag == self.model().tag,
    {
        self.tag
    }

    /// Says whether `at` names a node of this tree: whether it carries the
    /// tree's tag and an index that the arena has.
    pub fn holds(&self, at: BinaryViewInner<'id>) -> (held: bool)
        ensures
            held == self.model().holds(at@),
    {
        at.tag() == self.tag && at.index() < self.nodes.len()
    }

    /// Gets the node at index `i`.
    pub(crate) fn node_at(&self, i: usize) -> (node: &BinaryNode<T>)
        requires
            self.model().has(i as int),
        ensures
            node@ == self.model().nodes[i as int],
    {
        &self.nodes[i]
    }

    /// Gets the node at index `i` mutably.
    pub(crate) fn node_at_mut(&mut self, i: usize) -> (node: &mut BinaryNode<T>)
        requires
            old(self).model().has(i as int),
        ensures
            node@ == old(self).model().nodes[i as int],
            final(self).model() =~= old(self).model().with_node(i as int, final(node)@),
    {
        &mut self.nodes[i]
    }

    /// Gets the root of the tree.
    pub fn root(&self) -> (root: &BinaryNode<T>)
        requires
            self.wf(),
        ensures
            root@ == self.model().nodes[0],
    {
        self.node_at(0)
    }

    /// Gets the root of the tree mutably.
    pub fn root_mut(&mut self) -> (root: &mut BinaryNode<T>)
        requires
            old(self).wf(),
        ensures
            root@ == old(self).model().nodes[0],
            final(self).model() == old(self).model().with_node(0, final(root)@),
            root@.same_links(final(root)@) ==> final(self).wf(),
    {
        proof {
            self.model().lemma_with_node(0);
        }
        self.node_at_mut(0)
    }

    /// Puts a new node that holds `value` into slot `dir` of the node at
    /// index `at`, and returns the index of the node that was there before,
    /// which from now on has no parent.
    pub(crate) fn attach(&mut self, at: usize, dir: Dir, value: T) -> (previous: Option<usize>)
        requires
            old(self).wf(),
            old(self).model().has(at as int),
        ensures
            final(self).wf(),
            final(self).model() == old(self).model().add_child(at as int, dir, value),
            lift(previous) == old(self).model().child(at as int, dir),
    {
        let fresh: usize = self.nodes.len();
        let previous = match dir {
            Dir::Left => self.nodes[at].children.0,
            Dir::Right => self.nodes[at].children.1,
        };
        proof {
            assert(self.model().node_ok(at as int));
        }
        if let Some(c) = previous {
            self.nodes[c].parent = None;
        }
        match dir {
            Dir::Left => {
                self.nodes[at].children.0 = Some(fresh);
            },
            Dir::Right => {
                self.nodes[at].children.1 = Some(fresh);
            },
        }
        let mut node = BinaryNode::new(value);
        node.parent = Some(at);
        self.nodes.push(node);
        proof {
            assert(self.model().nodes =~= old(self).model().add_child(at as int, dir, value).nodes);
            old(self).model().lemma_add_child_wf(at as int, dir, value);
        }
        previous
    }

    /// Constructs a view into the binary tree, positioned at its root.
    /// You can have as many of these as you want.
    pub fn view(&self) -> (view: BinaryView<'id>)
        ensures
            view@ == self.model().root(),
    {
        BinaryView::new(self)
    }

    /// Constructs a mutable view into the binary tree, positioned at its
    /// root. You can only have one of these at a time, and while it lives no
    /// immutable view can be used on the tree.
    pub fn view_mut(&mut self) -> (cursor: BinaryViewMut<'_, 'id, T>)
        requires
            old(self).wf(),
        ensures
            cursor.wf(),
            cursor@ == old(self).model().root(),
            *cursor.tree == *old(self),
            *final(cursor.tree) == *final(self),
    {
        BinaryViewMut::new(self)
    }

    /// Constructs a mutable view into the binary tree, using the remnants of
    /// a previous view.
    ///
    /// This allows you to traverse a tree immutably and then grab a unique
    /// mutable view where the traversal ended, at no cost. The caller shows
    /// that the position is one under the root of this tree; see
    /// [`BinaryView::into_mut`] for the upgrade that finds out.
    pub fn view_mut_from_raw(&mut self, view: BinaryViewInner<'id>) -> (cursor: BinaryViewMut<'_, 'id, T>)
        requires
            old(self).wf(),
            old(self).model().reaches(view@),
        ensures
            cursor.wf(),
            cursor.at == view,
            *cursor.tree == *old(self),
            *final(cursor.tree) == *final(self),
    {
        BinaryViewMut { tree: self, at: view }
    }
}

} // verus!
