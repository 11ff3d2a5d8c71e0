//! Stable sorting by rank, the highest first.
use crate::same::views;
use crate::text::{le, text_le, text_le_total, text_le_transitive, texts};
use vstd::multiset::Multiset;
use vstd::prelude::*;

verus! {

/// Values with a rank.
pub trait Ranked: Sized {
    /// The rank.
    spec fn rank(self) -> int;

    /// The rank.
    fn rank_value(&self) -> (r: i128)
        ensures
            r == self.rank(),
    ;
}

/// The number of values at the start that rank above `rank`.
pub open spec fn leaders<T: Ranked>(s: Seq<T>, rank: int) -> nat
    decreases s.len(),
{
    if s.len() == 0 || s[0].rank() <= rank {
        0
    } else {
        1 + leaders(s.skip(1), rank)
    }
}

/// `s` with `x` placed behind the values at its start that rank above it.
pub open spec fn placed<T: Ranked>(s: Seq<T>, x: T) -> Seq<T> {
    s.insert(leaders(s, x.rank()) as int, x)
}

/// The values of `s`, the highest rank first; values of equal rank keep their
/// order.
pub open spec fn ranked<T: Ranked>(s: Seq<T>) -> Seq<T>
    decreases s.len(),
{
    if s.len() == 0 {
        s
    } else {
        placed(ranked(s.skip(1)), s[0])
    }
}

/// Whether the ranks go down.
pub open spec fn descending<T: Ranked>(s: Seq<T>) -> bool {
    forall|i: int, j: int| 0 <= i < j < s.len() ==> (#[trigger] s[i]).rank() >= (#[trigger] s[j]).rank()
}

proof fn leaders_bounds<T: Ranked>(s: Seq<T>, rank: int)
    ensures
        leaders(s, rank) <= s.len(),
        forall|i: int| 0 <= i < leaders(s, rank) ==> (#[trigger] s[i]).rank() > rank,
        leaders(s, rank) < s.len() ==> s[leaders(s, rank) as int].rank() <= rank,
    decreases s.len(),
{
    if s.len() > 0 && s[0].rank() > rank {
        let t = s.skip(1);
        leaders_bounds(t, rank);
        assert forall|i: int| 0 <= i < leaders(s, rank) implies (#[trigger] s[i]).rank() > rank by {
            if i > 0 {
                assert(t[i - 1] == s[i]);
            }
        }
        if leaders(s, rank) < s.len() {
            assert(t[leaders(t, rank) as int] == s[leaders(s, rank) as int]);
        }
    }
}

/// What is ranked has ranks that go down.
pub proof fn ranked_is_descending<T: Ranked>(s: Seq<T>)
    ensures
        descending(ranked(s)),
        ranked(s).len() == s.len(),
    decreases s.len(),
{
    if s.len() > 0 {
        let t = ranked(s.skip(1));
        let x = s[0];
        ranked_is_descending(s.skip(1));
        leaders_bounds(t, x.rank());
        let k = leaders(t, x.rank()) as int;
        let r = placed(t, x);
        assert(r == t.insert(k, x));
        assert forall|i: int, j: int| 0 <= i < j < r.len() implies (#[trigger] r[i]).rank() >= (
        #[trigger] r[j]).rank() by {
            let a = if i < k { i } else { i - 1 };
            let b = if j < k { j } else { j - 1 };
            if i != k {
                assert(r[i] == t[a]);
            }
            if j != k {
                assert(r[j] == t[b]);
            }
            if i == k && k < t.len() {
                if b > k {
                    assert(t[k].rank() >= t[b].rank());
                }
            }
        }
    }
}

/// What is ranked holds the same values, each as often.
pub proof fn ranked_is_permutation<T: Ranked>(s: Seq<T>)
    ensures
        ranked(s).to_multiset() == s.to_multiset(),
    decreases s.len(),
{
    broadcast use vstd::seq_lib::group_to_multiset_ensures;
    if s.len() > 0 {
        let t = ranked(s.skip(1));
        let x = s[0];
        ranked_is_permutation(s.skip(1));
        leaders_bounds(t, x.rank());
        let k = leaders(t, x.rank()) as int;
        vstd::seq_lib::to_multiset_insert(t, k, x);
        assert(s =~= s.skip(1).insert(0, x));
        vstd::seq_lib::to_multiset_insert(s.skip(1), 0, x);
    }
}

/// Values that go down already stay as they are: to rank again changes nothing.
pub proof fn ranked_keeps_descending<T: Ranked>(s: Seq<T>)
    requires
        descending(s),
    ensures
        ranked(s) == s,
    decreases s.len(),
{
    if s.len() > 0 {
        let t = s.skip(1);
        assert forall|i: int, j: int| 0 <= i < j < t.len() implies (#[trigger] t[i]).rank() >= (
        #[trigger] t[j]).rank() by {
            assert(t[i] == s[i + 1] && t[j] == s[j + 1]);
        }
        ranked_keeps_descending(t);
        if t.len() > 0 {
            assert(s[0].rank() >= s[1].rank());
            assert(t[0] == s[1]);
        }
        assert(leaders(t, s[0].rank()) == 0);
        assert(t.insert(0, s[0]) =~= s);
    }
}

/// Ranking by contents: the contents of what is ranked are the contents, ranked.
pub proof fn ranked_views<T: Ranked + View>(s: Seq<T>) where T::V: Ranked
    requires
        forall|x: T| (#[trigger] x.rank()) == x@.rank(),
    ensures
        views(ranked(s)) == ranked(views(s)),
    decreases s.len(),
{
    if s.len() == 0 {
        assert(views(ranked(s)) =~= views(s));
    } else {
        let rest = s.skip(1);
        ranked_views(rest);
        assert(views(s).skip(1) =~= views(rest));
        let t = ranked(rest);
        let x = s[0];
        leaders_views(t, x.rank());
        leaders_bounds(t, x.rank());
        let k = leaders(t, x.rank()) as int;
        assert(x.rank() == x@.rank());
        assert(views(t.insert(k, x)) =~= views(t).insert(k, x@));
    }
}

proof fn leaders_views<T: Ranked + View>(s: Seq<T>, rank: int) where T::V: Ranked
    requires
        forall|x: T| (#[trigger] x.rank()) == x@.rank(),
    ensures
        leaders(s, rank) == leaders(views(s), rank),
    decreases s.len(),
{
    if s.len() > 0 {
        assert(s[0].rank() == s[0]@.rank());
        assert(views(s).skip(1) =~= views(s.skip(1)));
        leaders_views(s.skip(1), rank);
    }
}

fn place<T: Ranked>(v: &mut Vec<T>, x: T)
    ensures
        final(v)@ == placed(old(v)@, x),
{
    let rank: i128 = x.rank_value();
    let mut k: usize = 0;
    let ghost s = v@;
    assert(s.skip(0) =~= s);
    while k < v.len() && v[k].rank_value() > rank
        invariant
            k <= v@.len(),
            v@ == s,
            rank == x.rank(),
            leaders(s, rank as int) == k + leaders(s.skip(k as int), rank as int),
        decreases v@.len() - k,
    {
        assert(s.skip(k as int)[0] == s[k as int]);
        assert(s.skip(k as int).skip(1) =~= s.skip(k + 1));
        k += 1;
    }
    proof {
        if k < s.len() {
            assert(s.skip(k as int)[0] == s[k as int]);
        }
        assert(leaders(s, rank as int) == k);
    }
    v.insert(k, x);
}

/// Sorts by rank, the highest first. Values of equal rank keep their order.
pub(crate) fn sort_by_rank<T: Ranked>(v: Vec<T>) -> (r: Vec<T>)
    ensures
        r@ == ranked(v@),
{
    let ghost s = v@;
    let mut rest = v;
    let mut out: Vec<T> = Vec::new();
    assert(s.skip(s.len() as int) =~= Seq::<T>::empty());
    assert(s.take(s.len() as int) =~= s);
    loop
        invariant
            rest@ == s.take(rest@.len() as int),
            rest@.len() <= s.len(),
            out@ == ranked(s.skip(rest@.len() as int)),
        ensures
            rest@.len() == 0,
            out@ == ranked(s.skip(0)),
        decreases rest@.len(),
    {
        let ghost n = rest@.len() as int;
        match rest.pop() {
            Some(x) => {
                proof {
                    assert(x == s[n - 1]);
                    assert(s.skip(n - 1).skip(1) =~= s.skip(n));
                    assert(s.skip(n - 1)[0] == x);
                    assert(rest@ =~= s.take(n - 1));
                }
                place(&mut out, x);
            },
            None => {
                break;
            },
        }
    }
    assert(s.skip(0) =~= s);
    out
}


/// Whether the texts are in order; equal texts may follow each other.
pub open spec fn in_order(s: Seq<Seq<char>>) -> bool {
    forall|i: int, j: int| 0 <= i < j < s.len() ==> text_le(#[trigger] s[i], #[trigger] s[j])
}

/// Sorts texts.
pub fn sort_texts(v: Vec<String>) -> (r: Vec<String>)
    ensures
        in_order(texts(r@)),
        texts(r@).to_multiset() == texts(v@).to_multiset(),
{
    broadcast use vstd::seq_lib::group_to_multiset_ensures;

    let ghost s = texts(v@);
    let mut rest = v;
    let mut out: Vec<String> = Vec::new();
    assert(texts(rest@) =~= s);
    assert(s.take(s.len() as int) =~= s);
    assert(texts(out@) =~= s.skip(s.len() as int));
    loop
        invariant
            texts(rest@) == s.take(rest@.len() as int),
            rest@.len() <= s.len(),
            in_order(texts(out@)),
            texts(out@).to_multiset() == s.skip(rest@.len() as int).to_multiset(),
        ensures
            in_order(texts(out@)),
            texts(out@).to_multiset() == s.to_multiset(),
        decreases rest@.len(),
    {
        let ghost n = rest@.len() as int;
        let ghost held = texts(rest@);
        match rest.pop() {
            Some(x) => {
                let ghost before = texts(out@);
                let mut k: usize = 0;
                while k < out.len() && !le(&x, &out[k])
                    invariant
                        k <= out@.len(),
                        before == texts(out@),
                        forall|j: int| 0 <= j < k ==> !text_le(x@, #[trigger] before[j]),
                    decreases out@.len() - k,
                {
                    assert(before[k as int] == out@[k as int]@);
                    k += 1;
                }
                proof {
                    assert(held[n - 1] == x@);
                    assert(x@ == s[n - 1]);
                    assert(texts(rest@) =~= s.take(n - 1));
                    if k < before.len() {
                        assert(before[k as int] == out@[k as int]@);
                    }
                }
                out.insert(k, x);
                proof {
                    let after = texts(out@);
                    assert(after =~= before.insert(k as int, x@));
                    vstd::seq_lib::to_multiset_insert(before, k as int, x@);
                    assert(s.skip(n - 1) =~= s.skip(n).insert(0, x@));
                    vstd::seq_lib::to_multiset_insert(s.skip(n), 0, x@);
                    assert forall|i: int, j: int| 0 <= i < j < after.len() implies text_le(
                        #[trigger] after[i],
                        #[trigger] after[j],
                    ) by {
                        let a = if i < k { i } else { i - 1 };
                        let b = if j < k { j } else { j - 1 };
                        if i != k {
                            assert(after[i] == before[a]);
                        }
                        if j != k {
                            assert(after[j] == before[b]);
                        }
                        if i == k {
                            if b > k {
                                text_le_transitive(x@, before[k as int], before[b]);
                            }
                        } else if j == k {
                            text_le_total(x@, before[a]);
                        }
                    }
                }
            },
            None => {
                assert(s.skip(0) =~= s);
                break;
            },
        }
    }
    out
}

/// Values of equal rank keep their order.
pub proof fn equal_ranks_keep_their_order<T: Ranked>(s: Seq<T>, rank: int)
    ensures
        ranked(s).filter(|x: T| x.rank() == rank) == s.filter(|x: T| x.rank() == rank),
    decreases s.len(),
{
    let same = |x: T| x.rank() == rank;
    if s.len() > 0 {
        let rest = s.skip(1);
        let x = s[0];
        let below = ranked(rest);
        equal_ranks_keep_their_order(rest, rank);
        leaders_bounds(below, x.rank());
        let k = leaders(below, x.rank()) as int;
        let a = below.take(k);
        let b = below.skip(k);
        assert(below =~= a + b);
        assert(ranked(s) =~= a + (seq![x] + b));
        assert(s =~= seq![x] + rest);
        Seq::filter_distributes_over_add(a, b, same);
        Seq::filter_distributes_over_add(a, seq![x] + b, same);
        Seq::filter_distributes_over_add(seq![x], b, same);
        Seq::filter_distributes_over_add(seq![x], rest, same);
        if x.rank() == rank {
            assert forall|i: int| 0 <= i < a.len() implies !same(#[trigger] a[i]) by {
                assert(a[i] == below[i]);
            }
            none_is_left(a, same);
            assert(ranked(s).filter(same) =~= s.filter(same));
        } else {
            none_is_left(seq![x], same);
            assert(ranked(s).filter(same) =~= s.filter(same));
        }
    }
}

proof fn none_is_left<T>(s: Seq<T>, p: spec_fn(T) -> bool)
    requires
        forall|i: int| 0 <= i < s.len() ==> !p(#[trigger] s[i]),
    ensures
        s.filter(p) == Seq::<T>::empty(),
    decreases s.len(),
{
    reveal(Seq::filter);
    if s.len() > 0 {
        let t = s.drop_last();
        assert forall|i: int| 0 <= i < t.len() implies !p(#[trigger] t[i]) by {
            assert(t[i] == s[i]);
        }
        none_is_left(t, p);
        assert(!p(s[s.len() - 1]));
    }
}

} // verus!
