//! A binary tree whose nodes carry a link back to their parent, and cursors
//! that walk it.
//!
//! Trees come from a [`TreeSource`], which numbers them: the number is the
//! tree's tag, and no two trees of one source share it. A source lives
//! inside one call of [`with_source`] and marks its trees and their views
//! with a lifetime of their own, so those of two sources never meet, and a
//! view is only ever presented to its own tree or to one with another tag.
//! The tree keeps its
//! nodes in one arena and links them by index: every node names its two
//! children and its parent. Cursors are positions in that arena, marked with
//! the tag of their tree.
//! A shared cursor is a plain value; an exclusive cursor holds the tree's
//! exclusive borrow, and a shared cursor becomes an exclusive one only after a
//! walk up the parent links has shown that it stands in the tree presented.
pub mod binary;
pub mod laws;
pub mod model;
pub mod source;
pub mod view;

pub use crate::binary::{BinaryNode, BinaryTree, Dir};
pub use crate::model::{NodeModel, Position, SourceModel, Step, TreeModel};
pub use crate::source::{with_source, TreeSource};
pub use crate::view::{BinaryView, BinaryViewInner, BinaryViewMut};
