use vstd::prelude::*;

verus! {

/// An exact-size, single-pass view over one reserved range of a source.
///
/// `rest` is what the view has still to yield, in order; `wf` is the view's
/// own invariant, which every pull establishes.
pub trait ExactChunk: Sized {
    type Item;

    spec fn wf(&self) -> bool;

    spec fn rest(&self) -> Seq<Self::Item>;

    /// Number of items still to be yielded.
    fn len(&self) -> (r: usize)
        requires
            self.wf(),
        ensures
            r as int == self.rest().len(),
    ;

    /// Yields the first remaining item, or `None` once the view is drained.
    fn next(&mut self) -> (r: Option<Self::Item>)
        requires
            old(self).wf(),
        ensures
            final(self).wf(),
            old(self).rest().len() == 0 ==> r is None && final(self).rest() == old(self).rest(),
            old(self).rest().len() > 0 ==> r == Some(old(self).rest()[0]) && final(self).rest()
                == old(self).rest().drop_first(),
    ;
}

} // verus!
