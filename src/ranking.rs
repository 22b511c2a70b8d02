//! Stable ranking by a key, highest first: items with equal keys keep the
//! order in which they were given.

use vstd::prelude::*;

verus! {

/// A value that can be ranked by a non-negative key.
pub trait Ranked: View + Sized {
    /// The key of a value's view.
    spec fn rank_of(v: Self::V) -> int;

    /// The key of this value.
    fn rank_key(&self) -> (r: u64)
        ensures
            r as int == Self::rank_of(self@),
    ;
}

/// Places `x` in `s` before the first element whose key is not above `x`'s.
pub open spec fn insert_ranked<T: Ranked>(s: Seq<T::V>, x: T::V) -> Seq<T::V>
    decreases s.len(),
{
    if s.len() == 0 {
        seq![x]
    } else if T::rank_of(s[0]) <= T::rank_of(x) {
        seq![x] + s
    } else {
        seq![s[0]] + insert_ranked::<T>(s.drop_first(), x)
    }
}

/// `s` ordered by key, highest first; equal keys keep their order in `s`.
pub open spec fn ranked<T: Ranked>(s: Seq<T::V>) -> Seq<T::V>
    decreases s.len(),
{
    if s.len() == 0 {
        s
    } else {
        insert_ranked::<T>(ranked::<T>(s.drop_first()), s[0])
    }
}

/// The views of the values of `s`, in order.
pub open spec fn views<T: View>(s: Seq<T>) -> Seq<T::V> {
    s.map_values(|x: T| x@)
}

proof fn lemma_insert_at<T: Ranked>(s: Seq<T::V>, x: T::V, k: int)
    requires
        0 <= k <= s.len(),
        forall|i: int| 0 <= i < k ==> T::rank_of(#[trigger] s[i]) > T::rank_of(x),
        k < s.len() ==> T::rank_of(s[k]) <= T::rank_of(x),
    ensures
        insert_ranked::<T>(s, x) == s.insert(k, x),
    decreases k,
{
    if k == 0 {
        assert(seq![x] + s =~= s.insert(0, x));
    } else {
        let t = s.drop_first();
        assert forall|i: int| 0 <= i < k - 1 implies T::rank_of(#[trigger] t[i]) > T::rank_of(x) by {
            assert(t[i] == s[i + 1]);
        }
        lemma_insert_at::<T>(t, x, k - 1);
        assert(seq![s[0]] + t.insert(k - 1, x) =~= s.insert(k, x));
    }
}

proof fn lemma_insert_members<T: Ranked>(s: Seq<T::V>, x: T::V)
    ensures
        insert_ranked::<T>(s, x).len() == s.len() + 1,
        forall|i: int|
            0 <= i < s.len() + 1 ==> #[trigger] insert_ranked::<T>(s, x)[i] == x || s.contains(
                insert_ranked::<T>(s, x)[i],
            ),
    decreases s.len(),
{
    if s.len() > 0 && T::rank_of(s[0]) > T::rank_of(x) {
        let t = s.drop_first();
        lemma_insert_members::<T>(t, x);
        assert forall|i: int| 0 <= i < s.len() + 1 implies #[trigger] insert_ranked::<T>(s, x)[i]
            == x || s.contains(insert_ranked::<T>(s, x)[i]) by {
            if i > 0 {
                let y = insert_ranked::<T>(t, x)[i - 1];
                if t.contains(y) {
                    let j = choose|j: int| 0 <= j < t.len() && t[j] == y;
                    assert(s[j + 1] == y);
                }
            } else {
                assert(s[0] == s[0]);
            }
        }
    } else if s.len() > 0 {
        assert forall|i: int| 0 <= i < s.len() + 1 implies #[trigger] insert_ranked::<T>(s, x)[i]
            == x || s.contains(insert_ranked::<T>(s, x)[i]) by {
            if i > 0 {
                assert(s[i - 1] == insert_ranked::<T>(s, x)[i]);
            }
        }
    }
}

/// Ranking keeps the number of values, and each value it yields is one of `s`.
pub proof fn lemma_ranked_members<T: Ranked>(s: Seq<T::V>)
    ensures
        ranked::<T>(s).len() == s.len(),
        forall|i: int| 0 <= i < s.len() ==> s.contains(#[trigger] ranked::<T>(s)[i]),
    decreases s.len(),
{
    if s.len() > 0 {
        let t = s.drop_first();
        lemma_ranked_members::<T>(t);
        lemma_insert_members::<T>(ranked::<T>(t), s[0]);
        assert forall|i: int| 0 <= i < s.len() implies s.contains(#[trigger] ranked::<T>(s)[i]) by {
            let y = ranked::<T>(s)[i];
            if y != s[0] {
                assert(ranked::<T>(t).contains(y));
                let j = choose|j: int| 0 <= j < t.len() && ranked::<T>(t)[j] == y;
                assert(t.contains(y));
                let m = choose|m: int| 0 <= m < t.len() && t[m] == y;
                assert(s[m + 1] == y);
            } else {
                assert(s[0] == y);
            }
        }
    }
}

proof fn lemma_insert_sorted<T: Ranked>(s: Seq<T::V>, x: T::V)
    requires
        forall|i: int, j: int| 0 <= i < j < s.len() ==> T::rank_of(#[trigger] s[i]) >= T::rank_of(#[trigger] s[j]),
    ensures
        forall|i: int, j: int|
            0 <= i < j < s.len() + 1 ==> T::rank_of(#[trigger] insert_ranked::<T>(s, x)[i]) >= T::rank_of(
                #[trigger] insert_ranked::<T>(s, x)[j],
            ),
    decreases s.len(),
{
    lemma_insert_members::<T>(s, x);
    if s.len() > 0 && T::rank_of(s[0]) > T::rank_of(x) {
        let t = s.drop_first();
        lemma_insert_sorted::<T>(t, x);
        lemma_insert_members::<T>(t, x);
        let r = insert_ranked::<T>(s, x);
        assert forall|i: int, j: int| 0 <= i < j < s.len() + 1 implies T::rank_of(#[trigger] r[i])
            >= T::rank_of(#[trigger] r[j]) by {
            if i == 0 {
                let y = insert_ranked::<T>(t, x)[j - 1];
                assert(r[j] == y);
                if y != x {
                    let m = choose|m: int| 0 <= m < t.len() && t[m] == y;
                    assert(s[m + 1] == y);
                }
            } else {
                assert(r[i] == insert_ranked::<T>(t, x)[i - 1]);
                assert(r[j] == insert_ranked::<T>(t, x)[j - 1]);
            }
        }
    } else if s.len() > 0 {
        let r = insert_ranked::<T>(s, x);
        assert forall|i: int, j: int| 0 <= i < j < s.len() + 1 implies T::rank_of(#[trigger] r[i])
            >= T::rank_of(#[trigger] r[j]) by {
            if i == 0 {
                assert(r[j] == s[j - 1]);
                assert(T::rank_of(s[0]) >= T::rank_of(s[j - 1]));
            } else {
                assert(r[i] == s[i - 1]);
                assert(r[j] == s[j - 1]);
            }
        }
    }
}

/// A ranking is ordered by key, highest first.
pub proof fn lemma_ranked_sorted<T: Ranked>(s: Seq<T::V>)
    ensures
        forall|i: int, j: int|
            0 <= i < j < ranked::<T>(s).len() ==> T::rank_of(#[trigger] ranked::<T>(s)[i]) >= T::rank_of(
                #[trigger] ranked::<T>(s)[j],
            ),
    decreases s.len(),
{
    if s.len() > 0 {
        let t = s.drop_first();
        lemma_ranked_sorted::<T>(t);
        lemma_ranked_members::<T>(t);
        lemma_insert_sorted::<T>(ranked::<T>(t), s[0]);
        lemma_insert_members::<T>(ranked::<T>(t), s[0]);
    }
}

/// Orders `items` by key, highest first, keeping the given order among equal keys.
pub fn rank_desc<T: Ranked>(items: Vec<T>) -> (r: Vec<T>)
    ensures
        views(r@) == ranked::<T>(views(items@)),
        forall|i: int, j: int|
            0 <= i < j < r@.len() ==> T::rank_of((#[trigger] r@[i])@) >= T::rank_of((#[trigger] r@[j])@),
{
    let ghost all = views(items@);
    let ghost n = items@.len() as int;
    let mut rest = items;
    let mut out: Vec<T> = Vec::new();
    assert(all.subrange(n, n) =~= Seq::<T::V>::empty());
    while rest.len() > 0
        invariant
            n == all.len(),
            rest@.len() <= n,
            views(rest@) == all.subrange(0, rest@.len() as int),
            views(out@) == ranked::<T>(all.subrange(rest@.len() as int, n)),
        decreases rest@.len(),
    {
        let ghost before = views(out@);
        let ghost i = rest@.len() - 1;
        let ghost rest_before = rest@;
        let x = rest.pop().unwrap();
        assert(views(rest@) =~= all.subrange(0, i));
        assert(x@ == all[i]) by {
            assert(views(rest_before)[i] == all.subrange(0, i + 1)[i]);
        }
        let kx = x.rank_key();
        let mut k: usize = 0;
        let mut placed = false;
        while !placed
            invariant
                k <= out@.len(),
                views(out@) == before,
                kx as int == T::rank_of(x@),
                forall|j: int| 0 <= j < k ==> T::rank_of(#[trigger] before[j]) > T::rank_of(x@),
                placed ==> k == out@.len() || T::rank_of(before[k as int]) <= T::rank_of(x@),
            decreases out@.len() - k + if placed { 0int } else { 1int },
        {
            if k == out.len() {
                placed = true;
            } else {
                assert(before[k as int] == out@[k as int]@);
                if out[k].rank_key() > kx {
                    k += 1;
                } else {
                    placed = true;
                }
            }
        }
        proof {
            lemma_insert_at::<T>(before, x@, k as int);
            let s = all.subrange(i, n);
            assert(s.drop_first() =~= all.subrange(i + 1, n));
            assert(s[0] == x@);
        }
        out.insert(k, x);
        assert(views(out@) =~= before.insert(k as int, x@));
    }
    assert(all.subrange(0, n) =~= all);
    proof {
        lemma_ranked_sorted::<T>(all);
        assert forall|i: int, j: int| 0 <= i < j < out@.len() implies T::rank_of((#[trigger] out@[i])@)
            >= T::rank_of((#[trigger] out@[j])@) by {
            assert(views(out@)[i] == out@[i]@);
            assert(views(out@)[j] == out@[j]@);
        }
    }
    out
}

} // verus!
