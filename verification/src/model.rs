//! The mathematical model of a tree: a sequence of linked nodes, positions in
//! it, and what the moves of a cursor mean.
use vstd::prelude::*;

use crate::binary::Dir;

verus! {

/// What a node holds: its links, as indices into the tree's sequence of
/// nodes, and its payload.
pub struct NodeModel<T> {
    /// The node this one hangs under, if any.
    pub parent: Option<int>,
    /// The occupant of the first slot.
    pub left: Option<int>,
    /// The occupant of the second slot.
    pub right: Option<int>,
    /// The payload.
    pub value: T,
}

/// What a tree holds: its tag and its nodes. Node 0 is the root.
#[verifier::ext_equal]
pub struct TreeModel<T> {
    /// The tag that tells this tree from the other trees of its source.
    pub tag: u64,
    /// All nodes ever made in this tree, attached or not.
    pub nodes: Seq<NodeModel<T>>,
}

/// What a source of trees holds: how many trees it has handed out. The trees
/// of one source are numbered in the order in which they were made, and the
/// number of a tree is its tag. Tags are compared only among the trees and
/// views of one source, since those of two sources differ in type.
pub struct SourceModel {
    /// The number of trees handed out so far.
    pub made: nat,
}

/// Where a cursor stands: the tag of the tree it was made for, and a node.
pub struct Position {
    /// The tag of the tree the cursor belongs to.
    pub tag: u64,
    /// The index of the node.
    pub node: int,
}

/// One move of a cursor.
pub enum Step {
    /// Towards the parent.
    Up,
    /// Towards the child in the given slot.
    Down(Dir),
}

/// An index held in executable code, as the model sees it.
pub open spec fn lift(link: Option<usize>) -> Option<int> {
    match link {
        Some(i) => Some(i as int),
        None => None,
    }
}

impl SourceModel {
    /// The source that has handed out nothing yet.
    pub open spec fn fresh() -> Self {
        SourceModel { made: 0 }
    }

    /// The source can hand out one more tree: the number of the next tree
    /// still fits its tag.
    pub open spec fn has_room(self) -> bool {
        self.made < u64::MAX
    }

    /// The tag that the next tree of this source gets.
    pub open spec fn next_tag(self) -> u64 {
        self.made as u64
    }

    /// The source after it has handed out one more tree.
    pub open spec fn advance(self) -> Self {
        SourceModel { made: self.made + 1 }
    }

    /// `tag` is the tag of a tree that this source has handed out.
    pub open spec fn gave(self, tag: u64) -> bool {
        tag < self.made
    }
}

impl<T> NodeModel<T> {
    /// A node without children.
    pub open spec fn leaf(parent: Option<int>, value: T) -> Self {
        NodeModel { parent, left: None, right: None, value }
    }

    /// The occupant of the slot `dir`.
    pub open spec fn child(self, dir: Dir) -> Option<int> {
        match dir {
            Dir::Left => self.left,
            Dir::Right => self.right,
        }
    }

    /// This node with `occupant` in the slot `dir`.
    pub open spec fn with_child(self, dir: Dir, occupant: Option<int>) -> Self {
        match dir {
            Dir::Left => NodeModel { left: occupant, ..self },
            Dir::Right => NodeModel { right: occupant, ..self },
        }
    }

    /// This node with another parent link.
    pub open spec fn with_parent(self, parent: Option<int>) -> Self {
        NodeModel { parent, ..self }
    }

    /// This node with another payload.
    pub open spec fn with_value(self, value: T) -> Self {
        NodeModel { value, ..self }
    }

    /// Both nodes have the same three links.
    pub open spec fn same_links(self, other: Self) -> bool {
        &&& self.parent == other.parent
        &&& self.left == other.left
        &&& self.right == other.right
    }
}

impl<T> TreeModel<T> {
    /// The tree made of one node.
    pub open spec fn single(tag: u64, value: T) -> Self {
        TreeModel { tag, nodes: seq![NodeModel::leaf(None, value)] }
    }

    /// `i` is the index of a node.
    pub open spec fn has(self, i: int) -> bool {
        0 <= i < self.nodes.len()
    }

    /// The parent link of node `i`.
    pub open spec fn parent(self, i: int) -> Option<int> {
        self.nodes[i].parent
    }

    /// The occupant of slot `dir` of node `i`.
    pub open spec fn child(self, i: int, dir: Dir) -> Option<int> {
        self.nodes[i].child(dir)
    }

    /// The links of node `i` agree with those of its neighbours: its parent
    /// comes before it and holds it in a slot, each child names it as parent,
    /// and its two slots do not hold the same node.
    pub open spec fn node_ok(self, i: int) -> bool {
        &&& self.nodes[i].parent matches Some(p) ==> {
            &&& 0 <= p < i
            &&& (self.nodes[p].left == Some(i) || self.nodes[p].right == Some(i))
        }
        &&& self.nodes[i].left matches Some(c) ==> {
            &&& self.has(c)
            &&& self.nodes[c].parent == Some(i)
        }
        &&& self.nodes[i].right matches Some(c) ==> {
            &&& self.has(c)
            &&& self.nodes[c].parent == Some(i)
        }
        &&& self.nodes[i].left is Some ==> self.nodes[i].left != self.nodes[i].right
    }

    /// The tree has a root without a parent, and every node's links are in
    /// order.
    pub open spec fn wf(self) -> bool {
        &&& self.nodes.len() > 0
        &&& self.nodes[0].parent is None
        &&& forall|i: int| self.has(i) ==> #[trigger] self.node_ok(i)
    }

    /// The node at which the parent links that start at `i` end.
    pub open spec fn top(self, i: int) -> int
        decreases i,
    {
        match self.nodes[i].parent {
            Some(p) => if 0 <= p < i {
                self.top(p)
            } else {
                i
            },
            None => i,
        }
    }

    /// Node `a` lies on the way up from node `i`: it is `i` or one of the
    /// nodes that the parent links from `i` pass.
    pub open spec fn below(self, i: int, a: int) -> bool
        decreases i,
    {
        i == a || match self.nodes[i].parent {
            Some(p) => 0 <= p < i && self.below(p, a),
            None => false,
        }
    }

    /// Node `i` hangs under the root.
    pub open spec fn attached(self, i: int) -> bool {
        self.has(i) && self.top(i) == 0
    }

    /// The position of the root.
    pub open spec fn root(self) -> Position {
        Position { tag: self.tag, node: 0 }
    }

    /// `at` names a node of this tree, attached or not.
    pub open spec fn holds(self, at: Position) -> bool {
        at.tag == self.tag && self.has(at.node)
    }

    /// `at` names a node of this tree that hangs under its root.
    pub open spec fn reaches(self, at: Position) -> bool {
        at.tag == self.tag && self.attached(at.node)
    }

    /// The move to the parent: the new position, or the old one where there
    /// is no parent.
    pub open spec fn climb(self, at: Position) -> Result<Position, Position> {
        match self.parent(at.node) {
            Some(p) => Ok(Position { tag: at.tag, node: p }),
            None => Err(at),
        }
    }

    /// The move to the child in slot `dir`: the new position, or the old one
    /// where the slot is empty.
    pub open spec fn descend(self, at: Position, dir: Dir) -> Result<Position, Position> {
        match self.child(at.node, dir) {
            Some(c) => Ok(Position { tag: at.tag, node: c }),
            None => Err(at),
        }
    }

    /// The attempt to make a view at `at` mutable on this tree: the same
    /// position where it is one under the root of this tree, and a failure
    /// that hands the position back where it is not.
    pub open spec fn upgrade(self, at: Position) -> Result<Position, Position> {
        if self.reaches(at) {
            Ok(at)
        } else {
            Err(at)
        }
    }

    /// One move; a move that fails leaves the position as it was.
    pub open spec fn step(self, at: Position, step: Step) -> Position {
        let moved = match step {
            Step::Up => self.climb(at),
            Step::Down(dir) => self.descend(at, dir),
        };
        match moved {
            Ok(to) => to,
            Err(same) => same,
        }
    }

    /// The position after all of `steps`, taken in order from `at`.
    pub open spec fn walk(self, at: Position, steps: Seq<Step>) -> Position
        decreases steps.len(),
    {
        if steps.len() == 0 {
            at
        } else {
            self.step(self.walk(at, steps.drop_last()), steps.last())
        }
    }

    /// This tree with node `i` replaced.
    pub open spec fn with_node(self, i: int, node: NodeModel<T>) -> Self {
        TreeModel { tag: self.tag, nodes: self.nodes.update(i, node) }
    }

    /// Both trees have the same tag and as many nodes, linked alike.
    pub open spec fn same_shape(self, other: Self) -> bool {
        &&& self.tag == other.tag
        &&& self.nodes.len() == other.nodes.len()
        &&& forall|i: int| self.has(i) ==> (#[trigger] self.nodes[i]).same_links(other.nodes[i])
    }

    /// This tree after a new node with payload `value` was put into slot
    /// `dir` of node `at`. The new node is the last one. The former occupant
    /// of the slot stays among the nodes, without a parent.
    pub open spec fn add_child(self, at: int, dir: Dir, value: T) -> Self {
        let fresh = self.nodes.len() as int;
        let cut = match self.child(at, dir) {
            Some(c) => self.nodes.update(c, self.nodes[c].with_parent(None)),
            None => self.nodes,
        };
        let hung = cut.update(at, cut[at].with_child(dir, Some(fresh)));
        TreeModel { tag: self.tag, nodes: hung.push(NodeModel::leaf(Some(at), value)) }
    }
}

impl<T> TreeModel<T> {
    /// Where the parent links of all nodes up to `i` are the same in two
    /// trees, they lead from `i` to the same node.
    pub proof fn lemma_top_agrees(self, other: Self, i: int)
        requires
            0 <= i,
            forall|j: int| 0 <= j <= i ==> self.parent(j) == other.parent(j),
        ensures
            self.top(i) == other.top(i),
        decreases i,
    {
        assert(self.parent(i) == other.parent(i));
        if let Some(p) = self.parent(i) {
            if 0 <= p < i {
                self.lemma_top_agrees(other, p);
            }
        }
    }

    /// A tree that is linked like a well-formed one is well-formed, and the
    /// same nodes hang under its root.
    pub proof fn lemma_same_shape(self, other: Self)
        requires
            self.wf(),
            self.same_shape(other),
        ensures
            other.wf(),
            forall|i: int| self.has(i) ==> self.top(i) == other.top(i),
            forall|i: int| self.attached(i) == other.attached(i),
            forall|at: Position| self.reaches(at) == other.reaches(at),
    {
        assert forall|i: int| other.has(i) implies #[trigger] other.node_ok(i) by {
            assert(self.node_ok(i));
            assert(self.nodes[i].same_links(other.nodes[i]));
            if let Some(p) = self.nodes[i].parent {
                assert(self.nodes[p].same_links(other.nodes[p]));
            }
            if let Some(c) = self.nodes[i].left {
                assert(self.nodes[c].same_links(other.nodes[c]));
            }
            if let Some(c) = self.nodes[i].right {
                assert(self.nodes[c].same_links(other.nodes[c]));
            }
        }
        assert(self.nodes[0].same_links(other.nodes[0]));
        assert forall|i: int| self.has(i) implies self.top(i) == other.top(i) by {
            assert forall|j: int| 0 <= j <= i implies self.parent(j) == other.parent(j) by {
                assert(self.nodes[j].same_links(other.nodes[j]));
            }
            self.lemma_top_agrees(other, i);
        }
    }

    /// Replacing a node by one with the same links leaves the tree
    /// well-formed and the same nodes under its root.
    pub proof fn lemma_with_node(self, i: int)
        requires
            self.wf(),
            self.has(i),
        ensures
            forall|node: NodeModel<T>|
                self.nodes[i].same_links(node) ==> {
                    &&& (#[trigger] self.with_node(i, node)).wf()
                    &&& forall|at: Position| self.with_node(i, node).reaches(at) == self.reaches(at)
                },
    {
        assert forall|node: NodeModel<T>| self.nodes[i].same_links(node) implies {
            &&& (#[trigger] self.with_node(i, node)).wf()
            &&& forall|at: Position| self.with_node(i, node).reaches(at) == self.reaches(at)
        } by {
            let other = self.with_node(i, node);
            assert(self.same_shape(other));
            self.lemma_same_shape(other);
        }
    }

    /// The nodes after a child was added, one by one: the new node is the
    /// last, the node at `at` has it in its slot, the former occupant has
    /// lost its parent, and every other node is as it was.
    pub proof fn lemma_add_child_nodes(self, at: int, dir: Dir, value: T)
        requires
            self.wf(),
            self.has(at),
        ensures
            self.add_child(at, dir, value).tag == self.tag,
            self.add_child(at, dir, value).nodes.len() == self.nodes.len() + 1,
            self.add_child(at, dir, value).nodes[self.nodes.len() as int] == NodeModel::leaf(
                Some(at),
                value,
            ),
            self.add_child(at, dir, value).nodes[at] == self.nodes[at].with_child(
                dir,
                Some(self.nodes.len() as int),
            ),
            self.child(at, dir) matches Some(c) ==> at < c < self.nodes.len() && self.add_child(
                at,
                dir,
                value,
            ).nodes[c] == self.nodes[c].with_parent(None),
            forall|i: int|
                self.has(i) && i != at && self.child(at, dir) != Some(i) ==> {
                    #[trigger] self.add_child(at, dir, value).nodes[i] == self.nodes[i]
                },
    {
        assert(self.node_ok(at));
        if let Some(c) = self.child(at, dir) {
            assert(self.node_ok(c));
        }
    }

    /// Adding a child keeps the tree well-formed.
    pub proof fn lemma_add_child_wf(self, at: int, dir: Dir, value: T)
        requires
            self.wf(),
            self.has(at),
        ensures
            self.add_child(at, dir, value).wf(),
    {
        let after = self.add_child(at, dir, value);
        let fresh = self.nodes.len() as int;
        assert(self.node_ok(at));
        assert(self.node_ok(0));
        assert forall|i: int| after.has(i) implies #[trigger] after.node_ok(i) by {
            if i < fresh {
                assert(self.node_ok(i));
                if let Some(p) = self.nodes[i].parent {
                    assert(self.node_ok(p));
                }
                if let Some(c) = self.nodes[i].left {
                    assert(self.node_ok(c));
                }
                if let Some(c) = self.nodes[i].right {
                    assert(self.node_ok(c));
                }
            }
        }
    }

    /// Adding a child under `at` changes no parent link at or before `at`:
    /// the node stays under the same top, and the new node hangs under it.
    pub proof fn lemma_add_child_keeps(self, at: int, dir: Dir, value: T)
        requires
            self.wf(),
            self.has(at),
        ensures
            self.add_child(at, dir, value).wf(),
            self.add_child(at, dir, value).nodes.len() == self.nodes.len() + 1,
            self.add_child(at, dir, value).top(at) == self.top(at),
            self.add_child(at, dir, value).top(self.nodes.len() as int) == self.top(at),
    {
        let after = self.add_child(at, dir, value);
        self.lemma_add_child_wf(at, dir, value);
        assert(self.node_ok(at));
        if let Some(c) = self.child(at, dir) {
            assert(self.node_ok(c));
        }
        assert forall|j: int| 0 <= j <= at implies after.parent(j) == self.parent(j) by {}
        after.lemma_top_agrees(self, at);
    }
}

} // verus!
