use vstd::prelude::*;

verus! {

/// Length of the first chunk of `s` for chunks of `n` items: `n`, or all of
/// `s` where fewer are left.
pub open spec fn first_len<T>(s: Seq<T>, n: nat) -> int {
    if s.len() < n {
        s.len() as int
    } else {
        n as int
    }
}

/// The chunks that `s` falls into for chunks of `n` items, in order: each
/// holds the next `n` items of `s`, the last one what is left.
pub open spec fn chunks_of<T>(s: Seq<T>, n: nat) -> Seq<Seq<T>>
    decreases s.len(),
{
    if s.len() == 0 || n == 0 {
        Seq::empty()
    } else {
        seq![s.take(first_len(s, n))] + chunks_of(s.skip(first_len(s, n)), n)
    }
}

/// Unfolds `chunks_of` once: an empty sequence has no chunks, and the
/// chunks of any other are its first `first_len` items followed by the chunks
/// of the rest.
pub broadcast proof fn lemma_chunks_of_unfold<T>(s: Seq<T>, n: nat)
    requires
        n > 0,
    ensures
        s.len() == 0 ==> #[trigger] chunks_of(s, n).len() == 0,
        s.len() > 0 ==> {
            &&& chunks_of(s, n).len() > 0
            &&& chunks_of(s, n)[0] == s.take(first_len(s, n))
            &&& chunks_of(s, n).drop_first() == chunks_of(s.skip(first_len(s, n)), n)
        },
{
    if s.len() > 0 {
        let rest = chunks_of(s.skip(first_len(s, n)), n);
        assert((seq![s.take(first_len(s, n))] + rest).drop_first() =~= rest);
    }
}

} // verus!
