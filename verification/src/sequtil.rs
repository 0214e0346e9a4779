//! Lemmas about filtered sequences with distinct keys, shared by the
//! device store and the peer registry.

use vstd::prelude::*;

verus! {

/// No two elements share a key.
pub open spec fn distinct_keys<A>(s: Seq<A>, key: spec_fn(A) -> Seq<char>) -> bool {
    forall|i: int, j: int| 0 <= i < j < s.len() ==> key(s[i]) != key(s[j])
}

/// Every element of a filtered sequence is an element of the source.
pub proof fn lemma_filter_elems<A>(s: Seq<A>, pred: spec_fn(A) -> bool)
    ensures
        forall|k: int|
            0 <= k < s.filter(pred).len() ==> #[trigger] s.contains(s.filter(pred)[k]),
    decreases s.len(),
{
    reveal(Seq::filter);
    if s.len() > 0 {
        let sub = s.drop_last();
        lemma_filter_elems(sub, pred);
        assert forall|k: int|
            0 <= k < s.filter(pred).len() implies #[trigger] s.contains(s.filter(pred)[k]) by {
            if k < sub.filter(pred).len() {
                assert(sub.contains(sub.filter(pred)[k]));
                let m = choose|m: int| 0 <= m < sub.len() && sub[m] == sub.filter(pred)[k];
                assert(s[m] == s.filter(pred)[k]);
            } else {
                assert(s.filter(pred)[k] == s.last());
                assert(s[s.len() - 1] == s.last());
            }
        }
    }
}

/// Filtering keeps keys distinct.
pub proof fn lemma_filter_distinct_keys<A>(
    s: Seq<A>,
    pred: spec_fn(A) -> bool,
    key: spec_fn(A) -> Seq<char>,
)
    requires
        distinct_keys(s, key),
    ensures
        distinct_keys(s.filter(pred), key),
    decreases s.len(),
{
    reveal(Seq::filter);
    if s.len() > 0 {
        let sub = s.drop_last();
        assert(distinct_keys(sub, key)) by {
            assert forall|i: int, j: int| 0 <= i < j < sub.len() implies key(sub[i]) != key(
                sub[j],
            ) by {
                assert(sub[i] == s[i] && sub[j] == s[j]);
            }
        }
        lemma_filter_distinct_keys(sub, pred, key);
        lemma_filter_elems(sub, pred);
        let f = s.filter(pred);
        let subf = sub.filter(pred);
        if pred(s.last()) {
            assert(f == subf.push(s.last()));
            assert forall|i: int, j: int| 0 <= i < j < f.len() implies key(f[i]) != key(
                f[j],
            ) by {
                if j < subf.len() {
                    assert(f[i] == subf[i] && f[j] == subf[j]);
                } else {
                    assert(f[j] == s.last());
                    assert(f[i] == subf[i]);
                    assert(sub.contains(subf[i]));
                    let m = choose|m: int| 0 <= m < sub.len() && sub[m] == subf[i];
                    assert(s[m] == subf[i]);
                    assert(key(s[m]) != key(s[s.len() - 1]));
                }
            }
        }
    }
}

/// Filtering with a predicate that every element satisfies changes
/// nothing.
pub proof fn lemma_filter_all<A>(s: Seq<A>, pred: spec_fn(A) -> bool)
    requires
        forall|k: int| 0 <= k < s.len() ==> pred(#[trigger] s[k]),
    ensures
        s.filter(pred) == s,
    decreases s.len(),
{
    reveal(Seq::filter);
    if s.len() > 0 {
        let sub = s.drop_last();
        lemma_filter_all(sub, pred);
        assert(s.filter(pred) =~= s);
    }
}

/// Filtering out exactly one element shortens a sequence by exactly
/// one.
pub proof fn lemma_filter_out_one<A>(s: Seq<A>, pred: spec_fn(A) -> bool, m: int)
    requires
        0 <= m < s.len(),
        !pred(s[m]),
        forall|k: int| 0 <= k < s.len() && k != m ==> pred(#[trigger] s[k]),
    ensures
        s.filter(pred).len() == s.len() - 1,
    decreases s.len(),
{
    reveal(Seq::filter);
    let sub = s.drop_last();
    if m == s.len() - 1 {
        assert forall|k: int| 0 <= k < sub.len() implies pred(#[trigger] sub[k]) by {
            assert(sub[k] == s[k]);
        }
        lemma_filter_all(sub, pred);
    } else {
        assert(sub[m] == s[m]);
        assert forall|k: int| 0 <= k < sub.len() && k != m implies pred(#[trigger] sub[k]) by {
            assert(sub[k] == s[k]);
        }
        lemma_filter_out_one(sub, pred, m);
        assert(pred(s[s.len() - 1]));
    }
}

} // verus!
