//! Where trees come from.
use std::marker::PhantomData;
use vstd::prelude::*;

use crate::model::SourceModel;

verus! {

/// The mark of one source on all that comes from it. Its lifetime can be
/// neither shortened nor lengthened, so the marks of two sources are never
/// the same type.
pub(crate) type Brand<'id> = PhantomData<&'id mut &'id ()>;

/// A source of trees. It numbers the trees it hands out, and the number of a
/// tree is the tag by which the tree knows its own views.
///
/// No two trees of one source have the same tag, so a view of one of them is
/// never taken for a view of another. Trees and views of two sources never
/// meet: a source exists only inside the call of [`with_source`] that made
/// it, and it marks its trees and their views with a lifetime of their own,
/// `'id`, which no other source has. Handing a view of one source to a tree
/// of another does not compile, and neither a tree nor a view leaves the call
/// of its source.
///
/// A source cannot be copied, and there is no other way to make one.
#[derive(Debug)]
pub struct TreeSource<'id> {
    next: u64,
    brand: Brand<'id>,
}

impl<'id> View for TreeSource<'id> {
    type V = SourceModel;

    closed spec fn view(&self) -> SourceModel {
        SourceModel { made: self.next as nat }
    }
}

impl<'id> TreeSource<'id> {
    /// Says whether the source can hand out one more tree.
    pub fn has_room(&self) -> (room: bool)
        ensures
            room == self@.has_room(),
    {
        self.next < u64::MAX
    }

    /// Takes the tag of the next tree, and counts that tree as handed out.
    pub(crate) fn hand_out(&mut self) -> (tag: u64)
        requires
            old(self)@.has_room(),
        ensures
            tag == old(self)@.next_tag(),
            final(self)@ == old(self)@.advance(),
    {
        let tag: u64 = self.next;
        self.next = tag + 1;
        tag
    }
}

/// Makes a source that has handed out no tree yet, runs `work` on it and
/// returns what `work` returns.
///
/// `work` has to do for a source with any mark, so what it returns holds no
/// tree and no view of that source: they all end with the call.
pub fn with_source<R, F: for<'id> FnOnce(TreeSource<'id>) -> R>(work: F) -> (result: R)
    requires
        forall|source: TreeSource| source@ == SourceModel::fresh() ==> #[trigger] work.requires(
            (source,),
        ),
    ensures
        exists|source: TreeSource|
            source@ == SourceModel::fresh() && #[trigger] work.ensures((source,), result),
{
    let source = TreeSource { next: 0, brand: PhantomData };
    work(source)
}

} // verus!
