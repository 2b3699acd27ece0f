use vstd::prelude::*;
use vstd::arithmetic::div_mod::{
    lemma_fundamental_div_mod, lemma_fundamental_div_mod_converse, lemma_mod_pos_bound,
    lemma_mod_sub_multiples_vanish, lemma_small_mod,
};
use vstd::multiset::group_multiset_axioms;
use vstd::seq_lib::{
    lemma_flatten_concat, lemma_multiset_commutative, to_multiset_contains, to_multiset_len,
    to_multiset_remove,
};
use crate::model::{chunks_of, first_len, lemma_chunks_of_unfold};

verus! {

/// Drawing a sequence of `L` items in chunks of `n > 0` gives `ceil(L / n)`
/// chunks; every chunk but the last holds exactly `n` items, and the last
/// holds `L mod n` items, or `n` where `n` divides `L`.
pub proof fn lemma_chunk_sizes<T>(s: Seq<T>, n: nat)
    requires
        n > 0,
    ensures
        chunks_of(s, n).len() == (s.len() + n - 1) as int / n as int,
        forall|i: int| 0 <= i < chunks_of(s, n).len() - 1 ==> #[trigger] chunks_of(s, n)[i].len() == n,
        chunks_of(s, n).len() > 0 ==> chunks_of(s, n).last().len() == if s.len() as int % n as int == 0 {
            n as int
        } else {
            s.len() as int % n as int
        },
    decreases s.len(),
{
    broadcast use lemma_chunks_of_unfold;

    let len = s.len() as int;
    let m = n as int;
    if len == 0 {
        assert((len + m - 1) / m == 0) by {
            lemma_small_mod((m - 1) as nat, n);
            lemma_fundamental_div_mod_converse(m - 1, m, 0, m - 1);
        }
    } else if len <= m {
        let cs = chunks_of(s, n);
        let rest = chunks_of(s.skip(first_len(s, n)), n);
        assert(s.skip(len) =~= Seq::<T>::empty());
        assert(rest.len() == 0);
        assert(cs.len() == 1);
        lemma_fundamental_div_mod_converse(len + m - 1, m, 1, len - 1);
        if len < m {
            lemma_small_mod(len as nat, n);
        } else {
            lemma_fundamental_div_mod_converse(len, m, 1, 0);
        }
    } else {
        let cs = chunks_of(s, n);
        let rest = s.skip(m);
        lemma_chunk_sizes(rest, n);
        let rc = chunks_of(rest, n);
        assert(cs.drop_first() == rc);
        assert(rc.len() > 0);
        assert(cs.len() == rc.len() + 1);
        let q = (len - 1) / m;
        let r = (len - 1) % m;
        lemma_fundamental_div_mod(len - 1, m);
        lemma_mod_pos_bound(len - 1, m);
        assert((len - m + m - 1) / m == q);
        assert(len + m - 1 == (q + 1) * m + r) by (nonlinear_arith)
            requires
                len - 1 == m * q + r,
        ;
        lemma_fundamental_div_mod_converse(len + m - 1, m, q + 1, r);
        assert forall|i: int| 0 <= i < cs.len() - 1 implies #[trigger] cs[i].len() == n by {
            if i > 0 {
                assert(cs[i] == rc[i - 1]);
            }
        }
        assert(cs.last() == rc.last());
        lemma_mod_sub_multiples_vanish(len, m);
        assert(rest.len() as int % m == len % m);
    }
}

/// Putting the chunks back together, in the order they were drawn, gives
/// the source sequence again.
pub proof fn lemma_chunks_concat<T>(s: Seq<T>, n: nat)
    requires
        n > 0,
    ensures
        chunks_of(s, n).flatten() == s,
    decreases s.len(),
{
    broadcast use lemma_chunks_of_unfold;

    if s.len() > 0 {
        let k = first_len(s, n);
        lemma_chunks_concat(s.skip(k), n);
        let cs = chunks_of(s, n);
        assert(cs.first() + cs.drop_first().flatten() =~= s);
    }
}

/// Two sequences of chunks holding the same chunks, in any order, hold the
/// same items.
pub proof fn lemma_flatten_same_chunks<T>(a: Seq<Seq<T>>, b: Seq<Seq<T>>)
    requires
        a.to_multiset() == b.to_multiset(),
    ensures
        a.flatten().to_multiset() == b.flatten().to_multiset(),
    decreases a.len(),
{
    broadcast use group_multiset_axioms, to_multiset_contains, to_multiset_len, to_multiset_remove,
        lemma_multiset_commutative;

    if a.len() == 0 {
        assert(b.to_multiset().len() == 0);
        assert(b.len() == 0);
    } else {
        let x = a[0];
        assert(a.contains(x));
        assert(a.to_multiset().count(x) > 0);
        assert(b.contains(x));
        let j = choose|j: int| 0 <= j < b.len() && b[j] == x;
        let b2 = b.remove(j);
        assert(a.drop_first() =~= a.remove(0));
        assert(a.drop_first().to_multiset() == b2.to_multiset());
        lemma_flatten_same_chunks(a.drop_first(), b2);
        assert(b =~= b.take(j) + (seq![x] + b.skip(j + 1)));
        assert(b2 =~= b.take(j) + b.skip(j + 1));
        lemma_flatten_concat(b.take(j), seq![x] + b.skip(j + 1));
        lemma_flatten_concat(seq![x], b.skip(j + 1));
        lemma_flatten_concat(b.take(j), b.skip(j + 1));
        seq![x].lemma_flatten_one_element();
        assert(a.flatten() == x + a.drop_first().flatten());
        assert(a.flatten().to_multiset() =~= b.flatten().to_multiset());
    }
}

/// The items that a group of workers gets from one sequence of chunks of
/// chunks, worker after worker.
pub open spec fn items_of_workers<T>(workers: Seq<Seq<Seq<T>>>) -> Seq<T> {
    workers.map_values(|w: Seq<Seq<T>>| w.flatten()).flatten()
}

proof fn lemma_items_of_workers<T>(workers: Seq<Seq<Seq<T>>>)
    ensures
        items_of_workers(workers) == workers.flatten().flatten(),
    decreases workers.len(),
{
    if workers.len() > 0 {
        let f = |w: Seq<Seq<T>>| w.flatten();
        lemma_items_of_workers(workers.drop_first());
        assert(workers.map_values(f).drop_first() =~= workers.drop_first().map_values(f));
        lemma_flatten_concat(workers[0], workers.drop_first().flatten());
    }
}

/// However the chunks of `s` are shared out among any number of workers,
/// and in whatever order each worker takes its own, the items that all the
/// workers get are exactly the items of `s`: none lost, none repeated.
pub proof fn lemma_any_schedule_keeps_items<T>(s: Seq<T>, n: nat, workers: Seq<Seq<Seq<T>>>)
    requires
        n > 0,
        workers.flatten().to_multiset() == chunks_of(s, n).to_multiset(),
    ensures
        items_of_workers(workers).to_multiset() == s.to_multiset(),
{
    lemma_items_of_workers(workers);
    lemma_flatten_same_chunks(workers.flatten(), chunks_of(s, n));
    lemma_chunks_concat(s, n);
}

} // verus!
