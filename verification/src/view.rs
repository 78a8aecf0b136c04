//! Cursors into a tree.
//!
//! A shared cursor ([`BinaryView`]) is a position and nothing more: it can be
//! copied, and it borrows nothing, so it is handed the tree for every step.
//! An exclusive cursor ([`BinaryViewMut`]) holds the exclusive borrow of its
//! tree for as long as it lives.
use vstd::prelude::*;

use crate::binary::{BinaryNode, BinaryTree, Dir};
use crate::model::{lift, Position, TreeModel};
use crate::source::Brand;
use std::marker::PhantomData;

verus! {

/// Base view struct: a position in the arena of the tree with a given tag,
/// marked like the tree by the source that the tree came from.
/// This implements the moves that both kinds of cursor make.
#[derive(Clone, Copy, PartialEq, Eq, Debug)]
pub struct BinaryViewInner<'id> {
    tag: u64,
    node: usize,
    brand: Brand<'id>,
}

/// Immutable binary tree view.
/// There can be as many of these as one likes.
#[derive(Clone, Copy, PartialEq, Eq, Debug)]
pub struct BinaryView<'id>(BinaryViewInner<'id>);

/// Mutable binary tree view.
/// There is only one of these at any given time, since it holds the
/// exclusive borrow of the tree.
///
/// The fields are public so that contracts can speak of the tree behind the
/// borrow, before and after. A cursor put together by hand is as good as one
/// from [`BinaryView::into_mut_unchecked`]: the methods ask that it is
/// well-formed.
#[derive(Debug)]
pub struct BinaryViewMut<'tree, 'id, T> {
    /// The tree the cursor walks.
    pub tree: &'tree mut BinaryTree<'id, T>,
    /// Where in the tree the cursor stands.
    pub at: BinaryViewInner<'id>,
}

impl<'id> View for BinaryViewInner<'id> {
    type V = Position;

    closed spec fn view(&self) -> Position {
        Position { tag: self.tag, node: self.node as int }
    }
}

impl<'id> View for BinaryView<'id> {
    type V = Position;

    closed spec fn view(&self) -> Position {
        self.0@
    }
}

impl<'tree, 'id, T> View for BinaryViewMut<'tree, 'id, T> {
    type V = Position;

    open spec fn view(&self) -> Position {
        self.at@
    }
}

/// Where a move ended, for either outcome.
pub open spec fn landing<C: View<V = Position>>(moved: Result<C, C>) -> Result<Position, Position> {
    match moved {
        Ok(there) => Ok(there@),
        Err(here) => Err(here@),
    }
}

impl<'id> BinaryViewInner<'id> {
    /// Two positions are the same value exactly when they name the same node
    /// of trees with the same tag.
    pub proof fn lemma_view_is_all(self, other: Self)
        ensures
            self@ == other@ <==> self == other,
    {
    }

    /// The position of the root of `tree`.
    pub(crate) fn at_root<T>(tree: &BinaryTree<'id, T>) -> (at: Self)
        ensures
            at@ == tree.model().root(),
    {
        BinaryViewInner { tag: tree.tag(), node: 0, brand: PhantomData }
    }

    /// Gets the tag of the tree that this position was made for.
    pub fn tag(&self) -> (tag: u64)
        ensures
            tag == self@.tag,
    {
        self.tag
    }

    /// Gets the index of the node that this position names.
    pub fn index(&self) -> (index: usize)
        ensures
            index == self@.node,
    {
        self.node
    }

    /// Attempts to climb up the tree.
    ///
    /// If the position is one without a parent, as the root is, an `Err` with
    /// the position as it was is returned.
    pub fn climb<T>(self, tree: &BinaryTree<'id, T>) -> (moved: Result<Self, Self>)
        requires
            tree.wf(),
            tree.model().holds(self@),
        ensures
            landing(moved) == tree.model().climb(self@),
            moved matches Err(same) ==> same == self,
            moved matches Ok(up) ==> tree.model().holds(up@) && up@.node < self@.node,
            moved matches Ok(up) ==> tree.model().reaches(up@) == tree.model().reaches(self@),
    {
        proof {
            assert(tree.model().node_ok(self@.node));
        }
        match tree.node_at(self.node).parent() {
            Some(p) => Ok(BinaryViewInner { tag: self.tag, node: p, brand: PhantomData }),
            None => Err(self),
        }
    }

    /// Attempts to descend down the tree in some direction.
    ///
    /// If the node at the position has no child in that direction, an `Err`
    /// with the position as it was is returned.
    pub fn descend<T>(self, tree: &BinaryTree<'id, T>, dir: Dir) -> (moved: Result<Self, Self>)
        requires
            tree.wf(),
            tree.model().holds(self@),
        ensures
            landing(moved) == tree.model().descend(self@, dir),
            moved matches Err(same) ==> same == self,
            moved matches Ok(down) ==> tree.model().holds(down@) && self@.node < down@.node,
            moved matches Ok(down) ==> tree.model().reaches(down@) == tree.model().reaches(self@),
    {
        proof {
            assert(tree.model().node_ok(self@.node));
        }
        let slots = tree.node_at(self.node).children();
        let slot = match dir {
            Dir::Left => slots.0,
            Dir::Right => slots.1,
        };
        match slot {
            Some(c) => {
                proof {
                    assert(tree.model().node_ok(c as int));
                }
                Ok(BinaryViewInner { tag: self.tag, node: c, brand: PhantomData })
            },
            None => Err(self),
        }
    }
}

impl<'id> BinaryView<'id> {
    /// Two views are the same value exactly when they stand at the same
    /// position.
    pub proof fn lemma_view_is_all(self, other: Self)
        ensures
            self@ == other@ <==> self == other,
    {
        self.0.lemma_view_is_all(other.0);
    }

    /// Constructs a view of `tree`, positioned at its root.
    pub fn new<T>(tree: &BinaryTree<'id, T>) -> (view: Self)
        ensures
            view@ == tree.model().root(),
    {
        BinaryView(BinaryViewInner::at_root(tree))
    }

    /// Gives up the view for the bare position it stood at.
    pub fn to_raw(self) -> (raw: BinaryViewInner<'id>)
        ensures
            raw@ == self@,
    {
        self.0
    }

    /// Gets the index of the node that the view points to.
    pub fn index(&self) -> (index: usize)
        ensures
            index == self@.node,
    {
        self.0.index()
    }

    /// Says whether the view points to a node of `tree`, under its root or
    /// not. The moves and [`BinaryView::node`] ask for that.
    pub fn is_in<T>(&self, tree: &BinaryTree<'id, T>) -> (held: bool)
        ensures
            held == tree.model().holds(self@),
    {
        tree.holds(self.0)
    }

    /// Gets the node that the view points to.
    pub fn node<'tree, T>(&self, tree: &'tree BinaryTree<'id, T>) -> (node: &'tree BinaryNode<T>)
        requires
            tree.model().holds(self@),
        ensures
            node@ == tree.model().nodes[self@.node],
    {
        tree.node_at(self.0.index())
    }

    /// Attempts to climb the tree.
    ///
    /// If the view is at the root (and thus has no parent), an `Err` with the
    /// view where it was is returned.
    pub fn climb<T>(self, tree: &BinaryTree<'id, T>) -> (moved: Result<Self, Self>)
        requires
            tree.wf(),
            tree.model().holds(self@),
        ensures
            landing(moved) == tree.model().climb(self@),
            moved matches Err(same) ==> same == self,
            moved matches Ok(up) ==> tree.model().holds(up@),
            moved matches Ok(up) ==> tree.model().reaches(up@) == tree.model().reaches(self@),
    {
        match self.0.climb(tree) {
            Ok(up) => Ok(BinaryView(up)),
            Err(same) => Err(BinaryView(same)),
        }
    }

    /// Attempts to descend down the tree in some direction.
    ///
    /// If the node the view is focused on has no child in that direction, an
    /// `Err` with the view where it was is returned.
    pub fn descend<T>(self, tree: &BinaryTree<'id, T>, dir: Dir) -> (moved: Result<Self, Self>)
        requires
            tree.wf(),
            tree.model().holds(self@),
        ensures
            landing(moved) == tree.model().descend(self@, dir),
            moved matches Err(same) ==> same == self,
            moved matches Ok(down) ==> tree.model().holds(down@),
            moved matches Ok(down) ==> tree.model().reaches(down@) == tree.model().reaches(self@),
    {
        match self.0.descend(tree, dir) {
            Ok(down) => Ok(BinaryView(down)),
            Err(same) => Err(BinaryView(same)),
        }
    }

    /// Mutably borrows the tree, converting the view into a mutable view.
    /// The position within the tree is preserved.
    ///
    /// Nothing is checked: the caller shows that the view points to a node
    /// under the root of this tree. On a view that does not, what the cursor
    /// does later is not defined here: it may panic, or write to a node that
    /// the tree no longer reaches.
    pub fn into_mut_unchecked<'tree, T>(self, tree: &'tree mut BinaryTree<'id, T>) -> (cursor:
        BinaryViewMut<'tree, 'id, T>)
        requires
            old(tree).wf(),
            old(tree).model().reaches(self@),
        ensures
            cursor.wf(),
            cursor@ == self@,
            *cursor.tree == *old(tree),
            *final(cursor.tree) == *final(tree),
    {
        tree.view_mut_from_raw(self.0)
    }

    /// Mutably borrows the tree, converting the view into a mutable view.
    /// The position within the tree is preserved.
    ///
    /// Time complexity: O(k), where k = depth of the position.
    ///
    /// It checks that the view points into the given tree: it climbs from the
    /// position until it meets the root of the tree. If the tag is not that
    /// of the tree, or the climb ends at a node that is not the root, the
    /// view is handed back as it was.
    ///
    /// The tag tells the tree from every other tree of its source, and a
    /// view of another source cannot be handed in: its mark `'id` is not
    /// that of the tree. So the view is accepted only on the tree it was
    /// made for.
    pub fn into_mut<'tree, T>(self, tree: &'tree mut BinaryTree<'id, T>) -> (upgraded: Result<
        BinaryViewMut<'tree, 'id, T>,
        BinaryView<'id>,
    >)
        requires
            old(tree).wf(),
        ensures
            match upgraded {
                Ok(cursor) => {
                    &&& old(tree).model().upgrade(self@) == Ok::<Position, Position>(cursor@)
                    &&& cursor.wf()
                    &&& *cursor.tree == *old(tree)
                    &&& *final(cursor.tree) == *final(tree)
                },
                Err(view) => {
                    &&& old(tree).model().upgrade(self@) == Err::<Position, Position>(view@)
                    &&& view == self
                    &&& *final(tree) == *old(tree)
                },
            },
    {
        if !tree.holds(self.0) {
            return Err(self);
        }
        let root = BinaryViewInner::at_root(tree);
        let mut cur = self.0;
        loop
            invariant
                tree.wf(),
                *tree == *old(tree),
                root@ == tree.model().root(),
                tree.model().holds(cur@),
                tree.model().reaches(cur@) == tree.model().reaches(self@),
            decreases cur@.node,
        {
            if cur.index() == root.index() {
                return Ok(BinaryViewMut { tree, at: self.0 });
            }
            match cur.climb(tree) {
                Ok(up) => {
                    cur = up;
                },
                Err(_) => {
                    return Err(self);
                },
            }
        }
    }
}

impl<'tree, 'id, T> BinaryViewMut<'tree, 'id, T> {
    /// The tree behind the cursor is well-formed, and the cursor points to a
    /// node under its root.
    pub open spec fn wf(&self) -> bool {
        self.tree.wf() && self.tree.model().reaches(self.at@)
    }

    /// Mutably borrows the tree for a view positioned at its root.
    pub fn new(tree: &'tree mut BinaryTree<'id, T>) -> (cursor: Self)
        requires
            old(tree).wf(),
        ensures
            cursor.wf(),
            cursor@ == old(tree).model().root(),
            *cursor.tree == *old(tree),
            *final(cursor.tree) == *final(tree),
    {
        let at = BinaryViewInner::at_root(tree);
        BinaryViewMut { tree, at }
    }

    /// Get a mutable reference to the node that the view points to.
    ///
    /// What is done to the node is done to the tree. The tree stays
    /// well-formed as long as the node keeps its links, as it does under
    /// [`BinaryNode::set_value`].
    pub fn node(&mut self) -> (node: &mut BinaryNode<T>)
        requires
            old(self).wf(),
        ensures
            node@ == old(self).tree.model().nodes[old(self)@.node],
            final(self).at == old(self).at,
            final(self).tree.model() == old(self).tree.model().with_node(
                old(self)@.node,
                final(node)@,
            ),
            *final(final(self).tree) == *final(old(self).tree),
            node@.same_links(final(node)@) ==> final(self).wf(),
    {
        proof {
            self.tree.model().lemma_with_node(self@.node);
        }
        self.tree.node_at_mut(self.at.index())
    }

    /// Sets the value of the node that the view points to.
    /// Returns the data that was there previously.
    pub fn set_value(&mut self, data: T) -> (previous: T)
        requires
            old(self).wf(),
        ensures
            final(self).wf(),
            final(self).at == old(self).at,
            previous == old(self).tree.model().nodes[old(self)@.node].value,
            final(self).tree.model() == old(self).tree.model().with_node(
                old(self)@.node,
                old(self).tree.model().nodes[old(self)@.node].with_value(data),
            ),
            *final(final(self).tree) == *final(old(self).tree),
    {
        self.node().set_value(data)
    }

    /// Replaces the left/right child (if any) of the node that the view
    /// points to with a new node that holds `data`.
    ///
    /// Returns a view of the previous child (if any). That node and all below
    /// it stay in the tree's arena but hang under the root no longer: the
    /// view can still be read and moved, and cannot be made mutable.
    pub fn add_child(&mut self, dir: Dir, data: T) -> (previous: Option<BinaryView<'id>>)
        requires
            old(self).wf(),
        ensures
            final(self).wf(),
            final(self).at == old(self).at,
            final(self).tree.model() == old(self).tree.model().add_child(
                old(self)@.node,
                dir,
                data,
            ),
            *final(final(self).tree) == *final(old(self).tree),
            match previous {
                Some(view) => old(self).tree.model().descend(old(self)@, dir) == Ok::<
                    Position,
                    Position,
                >(view@),
                None => old(self).tree.model().descend(old(self)@, dir) is Err,
            },
    {
        proof {
            self.tree.model().lemma_add_child_keeps(self@.node, dir, data);
        }
        match self.tree.attach(self.at.index(), dir, data) {
            Some(c) => Some(
                BinaryView(BinaryViewInner { tag: self.at.tag(), node: c, brand: PhantomData }),
            ),
            None => None,
        }
    }

    /// Attempts to climb the tree.
    ///
    /// If the view is at the root (and thus has no parent), an `Err` with the
    /// view where it was is returned.
    pub fn climb(self) -> (moved: Result<Self, Self>)
        requires
            self.wf(),
        ensures
            landing(moved) == old(self.tree).model().climb(self@),
            moved matches Err(same) ==> same.at == self.at,
            moved matches (Ok(to) | Err(to)) ==> {
                &&& to.wf()
                &&& *to.tree == *old(self.tree)
                &&& *final(to.tree) == *final(self.tree)
            },
    {
        let BinaryViewMut { tree, at } = self;
        match at.climb(&*tree) {
            Ok(up) => Ok(BinaryViewMut { tree, at: up }),
            Err(same) => Err(BinaryViewMut { tree, at: same }),
        }
    }

    /// Attempts to descend down the tree in some direction.
    ///
    /// If the node the view is focused on has no child in that direction, an
    /// `Err` with the view where it was is returned.
    pub fn descend(self, dir: Dir) -> (moved: Result<Self, Self>)
        requires
            self.wf(),
        ensures
            landing(moved) == old(self.tree).model().descend(self@, dir),
            moved matches Err(same) ==> same.at == self.at,
            moved matches (Ok(to) | Err(to)) ==> {
                &&& to.wf()
                &&& *to.tree == *old(self.tree)
                &&& *final(to.tree) == *final(self.tree)
            },
    {
        let BinaryViewMut { tree, at } = self;
        match at.descend(&*tree, dir) {
            Ok(down) => Ok(BinaryViewMut { tree, at: down }),
            Err(same) => Err(BinaryViewMut { tree, at: same }),
        }
    }
}

} // verus!
