use vstd::prelude::*;

verus! {

/// The elements of `s` that satisfy `p`, in their order in `s`.
pub open spec fn keep<A>(s: Seq<A>, p: spec_fn(A) -> bool) -> Seq<A>
    decreases s.len(),
{
    if s.len() == 0 {
        Seq::empty()
    } else {
        let rest = keep(s.drop_last(), p);
        if p(s.last()) {
            rest.push(s.last())
        } else {
            rest
        }
    }
}

/// `keep` over a prefix grows by one step as the prefix does.
pub proof fn lemma_keep_step<A>(s: Seq<A>, p: spec_fn(A) -> bool, i: int)
    requires
        0 <= i < s.len(),
    ensures
        keep(s.take(i + 1), p) == if p(s[i]) {
            keep(s.take(i), p).push(s[i])
        } else {
            keep(s.take(i), p)
        },
{
    assert(s.take(i + 1).drop_last() =~= s.take(i));
}

/// `keep` of a sequence with one more element at its end.
pub proof fn lemma_keep_push<A>(s: Seq<A>, p: spec_fn(A) -> bool, x: A)
    ensures
        keep(s.push(x), p) == if p(x) {
            keep(s, p).push(x)
        } else {
            keep(s, p)
        },
{
    assert(s.push(x).drop_last() =~= s);
}

/// Each element of `keep(s, p)` stands in `s`, at strictly increasing places.
pub proof fn lemma_keep_indices<A>(s: Seq<A>, p: spec_fn(A) -> bool) -> (idx: Seq<int>)
    ensures
        idx.len() == keep(s, p).len(),
        forall|k: int| 0 <= k < idx.len() ==> 0 <= #[trigger] idx[k] < s.len(),
        forall|k: int| 0 <= k < idx.len() ==> keep(s, p)[k] == s[#[trigger] idx[k]],
        forall|k: int| 0 <= k < idx.len() ==> p(s[#[trigger] idx[k]]),
        forall|k1: int, k2: int| 0 <= k1 < k2 < idx.len() ==> idx[k1] < idx[k2],
    decreases s.len(),
{
    if s.len() == 0 {
        Seq::empty()
    } else {
        let rest = lemma_keep_indices(s.drop_last(), p);
        if p(s.last()) {
            rest.push(s.len() - 1)
        } else {
            rest
        }
    }
}

/// Every element of `s` that satisfies `p` stands in `keep(s, p)`.
pub proof fn lemma_keep_complete<A>(s: Seq<A>, p: spec_fn(A) -> bool, j: int)
    requires
        0 <= j < s.len(),
        p(s[j]),
    ensures
        keep(s, p).contains(s[j]),
    decreases s.len(),
{
    if j == s.len() - 1 {
        assert(keep(s, p).last() == s[j]);
    } else {
        lemma_keep_complete(s.drop_last(), p, j);
        let k = choose|k: int| 0 <= k < keep(s.drop_last(), p).len()
            && keep(s.drop_last(), p)[k] == s.drop_last()[j];
        if p(s.last()) {
            assert(keep(s, p)[k] == s[j]);
        }
    }
}

/// Where every element satisfies `p`, `keep` changes nothing.
pub proof fn lemma_keep_all<A>(s: Seq<A>, p: spec_fn(A) -> bool)
    requires
        forall|k: int| 0 <= k < s.len() ==> p(#[trigger] s[k]),
    ensures
        keep(s, p) == s,
    decreases s.len(),
{
    if s.len() > 0 {
        lemma_keep_all(s.drop_last(), p);
        assert(s.drop_last().push(s.last()) =~= s);
    }
}

/// Where no element satisfies `p`, `keep` is empty.
pub proof fn lemma_keep_none<A>(s: Seq<A>, p: spec_fn(A) -> bool)
    requires
        forall|k: int| 0 <= k < s.len() ==> !p(#[trigger] s[k]),
    ensures
        keep(s, p) == Seq::<A>::empty(),
    decreases s.len(),
{
    if s.len() > 0 {
        lemma_keep_none(s.drop_last(), p);
    }
}

/// Keeping by `q` and then by `p` keeps by both, when `q` is one of them.
pub proof fn lemma_keep_keep<A>(s: Seq<A>, p: spec_fn(A) -> bool, q: spec_fn(A) -> bool, pq: spec_fn(A) -> bool)
    requires
        forall|x: A| #[trigger] pq(x) == (p(x) && q(x)),
    ensures
        keep(keep(s, q), p) == keep(s, pq),
    decreases s.len(),
{
    if s.len() > 0 {
        lemma_keep_keep(s.drop_last(), p, q, pq);
        if q(s.last()) {
            lemma_keep_push(keep(s.drop_last(), q), p, s.last());
        }
    }
}

} // verus!
