use vstd::prelude::*;
use vstd::std_specs::iter::IteratorSpec;
use std::collections::VecDeque;
use crate::chunk::Schunk;
use crate::model::{chunks_of, first_len};

verus! {

/// Draws the items of a source iterator a whole chunk at a time.
///
/// Each call of `next` takes the next `size` items of the source (fewer
/// only where the source ends first), so the chunks never overlap.
pub struct Schunks<I: Iterator> {
    inner: I,
    size: usize,
}

impl<I: Iterator> Schunks<I> {
    /// The source iterator, at its current position.
    pub closed spec fn source(&self) -> I {
        self.inner
    }

    /// The number of items in each chunk but the last.
    pub closed spec fn size(&self) -> nat {
        self.size as nat
    }

    /// Draws the next chunk: the next `size` items of the source, or what is
    /// left of it where fewer remain; `None` once the source is exhausted.
    ///
    /// The cursor is borrowed exclusively for the whole draw, so no other
    /// draw can take items in between; workers that share one cursor hold it
    /// behind a lock and each gets a whole chunk per call.
    pub fn next(&mut self) -> (r: Option<Schunk<I>>)
        requires
            old(self).size() > 0,
        ensures
            final(self).size() == old(self).size(),
            r is Some ==> 0 < r->0@.len() <= old(self).size(),
            old(self).source().obeys_prophetic_iter_laws() ==> {
                let rem = old(self).source().remaining();
                let k = first_len(rem, old(self).size());
                &&& final(self).source().obeys_prophetic_iter_laws()
                &&& rem.len() == 0 ==> r is None && final(self).source().remaining() == rem
                &&& rem.len() > 0 ==> r is Some && r->0@ == rem.take(k)
                    && final(self).source().remaining() == rem.skip(k)
                &&& r is None <==> chunks_of(rem, old(self).size()).len() == 0
                &&& r is Some ==> r->0@ == chunks_of(rem, old(self).size())[0]
                &&& rem.len() > 0 ==> chunks_of(final(self).source().remaining(), old(self).size())
                    == chunks_of(rem, old(self).size()).drop_first()
            },
    {
        broadcast use crate::model::lemma_chunks_of_unfold;
        let ghost start = self.inner;
        let mut v: VecDeque<I::Item> = VecDeque::new();
        let mut i: usize = 0;
        let mut done: bool = false;
        while i < self.size && !done
            invariant
                self.size == old(self).size,
                i <= self.size,
                v@.len() == i,
                self.inner.obeys_prophetic_iter_laws() == start.obeys_prophetic_iter_laws(),
                start.obeys_prophetic_iter_laws() ==> {
                    &&& i <= start.remaining().len()
                    &&& v@ == start.remaining().take(i as int)
                    &&& self.inner.remaining() == start.remaining().skip(i as int)
                    &&& done ==> i == start.remaining().len()
                },
            decreases (self.size - i) as int + if done { 0int } else { 1int },
        {
            match self.inner.next() {
                Some(e) => {
                    v.push_back(e);
                    i = i + 1;
                },
                None => {
                    done = true;
                },
            }
        }
        if v.len() == 0 {
            None
        } else {
            Some(Schunk::from_items(v))
        }
    }
}

/// Adds chunked drawing to every iterator.
pub trait SchunksTools: Iterator + Sized {
    /// A cursor that draws this iterator's items `size` at a time, in
    /// order; the last chunk may be shorter, all others hold `size` items.
    fn schunks(self, size: usize) -> (r: Schunks<Self>)
        requires
            size > 0,
        ensures
            r.source() == self,
            r.size() == size,
    {
        Schunks { inner: self, size }
    }
}

impl<T: Iterator> SchunksTools for T {
}

} // verus!
