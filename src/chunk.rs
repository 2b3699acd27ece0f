use vstd::prelude::*;

verus! {

/// The items of one chunk, handed out front first.
pub struct Schunk<I: Iterator> {
    inner: std::collections::VecDeque<I::Item>,
}

impl<I: Iterator> View for Schunk<I> {
    type V = Seq<I::Item>;

    /// The items not handed out yet, in source order.
    closed spec fn view(&self) -> Seq<I::Item> {
        self.inner@
    }
}

impl<I: Iterator> Schunk<I> {
    /// A chunk holding `items`, the first of them handed out first.
    pub(crate) fn from_items(items: std::collections::VecDeque<I::Item>) -> (r: Self)
        ensures
            r@ == items@,
    {
        Schunk { inner: items }
    }

    /// Hands out the next item of the chunk, or `None` once it is drained;
    /// a drained chunk stays drained.
    pub fn next(&mut self) -> (r: Option<I::Item>)
        ensures
            old(self)@.len() == 0 ==> r is None && final(self)@ == old(self)@,
            old(self)@.len() > 0 ==> r == Some(old(self)@[0]) && final(self)@ == old(self)@.drop_first(),
    {
        self.inner.pop_front()
    }
}

} // verus!
