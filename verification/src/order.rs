//! Stable ordering of rows by an integer rank, as `sort_by` does it: rows
//! come out in ascending rank and rows of equal rank keep their order.

use vstd::prelude::*;

verus! {

/// A value ordered by an integer rank.
pub trait Ranked {
    /// The rank that orders values of this type.
    spec fn rank(&self) -> int;

    /// Computes the rank.
    fn rank_of(&self) -> (res: u128)
        ensures
            res == self.rank(),
    ;
}

/// The values of rank exactly `k`.
pub open spec fn of_rank<T: Ranked>(k: int) -> spec_fn(T) -> bool {
    |x: T| x.rank() == k
}

/// `s` is in ascending rank order.
pub open spec fn rank_sorted<T: Ranked>(s: Seq<T>) -> bool {
    forall|i: int, j: int| 0 <= i < j < s.len() ==> s[i].rank() <= s[j].rank()
}

/// `out` is `input` stably sorted by rank: ascending, and for every rank the
/// values of that rank appear in `out` in the order they had in `input`.
/// These two facts determine `out` from `input`.
pub open spec fn stably_sorted<T: Ranked>(input: Seq<T>, out: Seq<T>) -> bool {
    &&& rank_sorted(out)
    &&& forall|k: int| #[trigger] out.filter(of_rank::<T>(k)) == input.filter(of_rank::<T>(k))
}

/// Filtering a sequence none of whose elements passes gives nothing.
pub proof fn lemma_filter_none<T>(s: Seq<T>, pred: spec_fn(T) -> bool)
    requires
        forall|i: int| 0 <= i < s.len() ==> !pred(s[i]),
    ensures
        s.filter(pred) == Seq::<T>::empty(),
    decreases s.len(),
{
    reveal(Seq::filter);
    if s.len() > 0 {
        lemma_filter_none(s.drop_last(), pred);
    }
}

/// Filtering a one-element sequence.
pub proof fn lemma_filter_single<T>(x: T, pred: spec_fn(T) -> bool)
    ensures
        seq![x].filter(pred) == (if pred(x) { seq![x] } else { Seq::<T>::empty() }),
{
    reveal(Seq::filter);
    assert(seq![x].drop_last() =~= Seq::<T>::empty());
    assert(Seq::<T>::empty().filter(pred) =~= Seq::<T>::empty());
    assert(Seq::<T>::empty().push(x) =~= seq![x]);
}

/// Inserting `x` in front of every element of rank at least its own, into a
/// sorted sequence, keeps it stably sorted with `x` first among its equals.
proof fn lemma_insert_step<T: Ranked>(before: Seq<T>, out: Seq<T>, x: T, p: int)
    requires
        stably_sorted(before, out),
        0 <= p <= out.len(),
        forall|i: int| 0 <= i < p ==> out[i].rank() < x.rank(),
        forall|i: int| p <= i < out.len() ==> out[i].rank() >= x.rank(),
    ensures
        stably_sorted(seq![x] + before, out.insert(p, x)),
{
    let res = out.insert(p, x);
    let a = out.subrange(0, p);
    let b = out.subrange(p, out.len() as int);
    assert(res =~= a + seq![x] + b);
    assert(out =~= a + b);
    assert forall|i: int, j: int| 0 <= i < j < res.len() implies res[i].rank() <= res[j].rank() by {
        if j < p {
            assert(res[i] == out[i] && res[j] == out[j]);
        } else if j == p {
            assert(res[i] == out[i]);
        } else if i == p {
            assert(res[j] == out[j - 1]);
        } else if i < p {
            assert(res[i] == out[i] && res[j] == out[j - 1]);
        } else {
            assert(res[i] == out[i - 1] && res[j] == out[j - 1]);
        }
    }
    assert forall|k: int| #[trigger] res.filter(of_rank::<T>(k)) == (seq![x] + before).filter(of_rank::<T>(k)) by {
        let pred = of_rank::<T>(k);
        Seq::filter_distributes_over_add(a + seq![x], b, pred);
        Seq::filter_distributes_over_add(a, seq![x], pred);
        Seq::filter_distributes_over_add(a, b, pred);
        Seq::filter_distributes_over_add(seq![x], before, pred);
        lemma_filter_single(x, pred);
        if k == x.rank() {
            lemma_filter_none(a, pred);
            assert(a.filter(pred) + b.filter(pred) =~= b.filter(pred));
            assert(a.filter(pred) + seq![x] =~= seq![x]);
        } else {
            assert(a.filter(pred) + Seq::<T>::empty() =~= a.filter(pred));
            assert(Seq::<T>::empty() + before.filter(pred) =~= before.filter(pred));
        }
    }
}

/// Sorts `items` by ascending rank, keeping the order of equal ranks.
pub fn stable_sort<T: Ranked>(items: Vec<T>) -> (res: Vec<T>)
    ensures
        res@.len() == items@.len(),
        stably_sorted(items@, res@),
{
    let ghost orig = items@;
    let mut rest = items;
    let mut out: Vec<T> = Vec::new();
    proof {
        assert(orig.subrange(orig.len() as int, orig.len() as int) =~= Seq::<T>::empty());
        assert forall|k: int| #[trigger] out@.filter(of_rank::<T>(k)) == Seq::<T>::empty().filter(of_rank::<T>(k)) by {
            lemma_filter_none(out@, of_rank::<T>(k));
            lemma_filter_none(Seq::<T>::empty(), of_rank::<T>(k));
        }
        assert(rest@ =~= orig.subrange(0, rest@.len() as int));
    }
    while rest.len() > 0
        invariant
            rest@.len() <= orig.len(),
            rest@ == orig.subrange(0, rest@.len() as int),
            out@.len() + rest@.len() == orig.len(),
            stably_sorted(orig.subrange(rest@.len() as int, orig.len() as int), out@),
        decreases rest@.len(),
    {
        let ghost n = rest@.len();
        let x = match rest.pop() {
            Some(v) => v,
            None => { return out; },
        };
        assert(x == orig[n - 1]);
        let k = x.rank_of();
        let mut p: usize = 0;
        while p < out.len() && out[p].rank_of() < k
            invariant
                p <= out@.len(),
                k == x.rank(),
                forall|i: int| 0 <= i < p ==> out@[i].rank() < k,
            decreases out@.len() - p,
        {
            p = p + 1;
        }
        proof {
            let before = orig.subrange(n as int, orig.len() as int);
            assert(rank_sorted(out@));
            assert forall|i: int| p <= i < out@.len() implies out@[i].rank() >= x.rank() by {
                assert(out@[p as int].rank() >= k);
            }
            lemma_insert_step(before, out@, x, p as int);
            assert(seq![x] + before =~= orig.subrange(n - 1, orig.len() as int));
            assert(rest@ =~= orig.subrange(0, n - 1));
        }
        out.insert(p, x);
    }
    proof {
        assert(orig.subrange(0, orig.len() as int) =~= orig);
    }
    out
}

} // verus!

verus! {

/// A sequence already in rank order is its own stable sort.
pub proof fn lemma_sorted_is_stable<T: Ranked>(s: Seq<T>)
    requires
        rank_sorted(s),
    ensures
        stably_sorted(s, s),
{
}

/// Appending `x` to the input of a stable sort puts it after every element
/// of rank at most its own.
pub proof fn lemma_append_step<T: Ranked>(input: Seq<T>, out: Seq<T>, x: T, p: int)
    requires
        stably_sorted(input, out),
        0 <= p <= out.len(),
        forall|i: int| 0 <= i < p ==> out[i].rank() <= x.rank(),
        forall|i: int| p <= i < out.len() ==> out[i].rank() > x.rank(),
    ensures
        stably_sorted(input.push(x), out.insert(p, x)),
{
    let res = out.insert(p, x);
    let a = out.subrange(0, p);
    let b = out.subrange(p, out.len() as int);
    assert(res =~= a + seq![x] + b);
    assert(out =~= a + b);
    assert(input.push(x) =~= input + seq![x]);
    assert forall|i: int, j: int| 0 <= i < j < res.len() implies res[i].rank() <= res[j].rank() by {
        if j < p {
            assert(res[i] == out[i] && res[j] == out[j]);
        } else if j == p {
            assert(res[i] == out[i]);
        } else if i == p {
            assert(res[j] == out[j - 1]);
        } else if i < p {
            assert(res[i] == out[i] && res[j] == out[j - 1]);
        } else {
            assert(res[i] == out[i - 1] && res[j] == out[j - 1]);
        }
    }
    assert forall|k: int| #[trigger] res.filter(of_rank::<T>(k)) == input.push(x).filter(of_rank::<T>(k)) by {
        let pred = of_rank::<T>(k);
        Seq::filter_distributes_over_add(a + seq![x], b, pred);
        Seq::filter_distributes_over_add(a, seq![x], pred);
        Seq::filter_distributes_over_add(a, b, pred);
        Seq::filter_distributes_over_add(input, seq![x], pred);
        lemma_filter_single(x, pred);
        if k == x.rank() {
            lemma_filter_none(b, pred);
            assert(a.filter(pred) + b.filter(pred) =~= a.filter(pred));
            assert(a.filter(pred) + seq![x] + Seq::<T>::empty() =~= a.filter(pred) + seq![x]);
        } else {
            assert(a.filter(pred) + Seq::<T>::empty() =~= a.filter(pred));
            assert(input.filter(pred) + Seq::<T>::empty() =~= input.filter(pred));
        }
    }
}

} // verus!
