//! Keeping the elements of a sequence that satisfy a predicate, and the
//! facts about it that the store's deletions rely on.
use vstd::prelude::*;

verus! {

/// The elements of `s` that satisfy `p`, in order.
pub open spec fn keep<A>(s: Seq<A>, p: spec_fn(A) -> bool) -> Seq<A>
    decreases s.len(),
{
    if s.len() == 0 {
        Seq::empty()
    } else if p(s.last()) {
        keep(s.drop_last(), p).push(s.last())
    } else {
        keep(s.drop_last(), p)
    }
}

/// Each kept element satisfies `p` and is an element of `s`; each element
/// of `s` that satisfies `p` is kept.
pub proof fn lemma_keep<A>(s: Seq<A>, p: spec_fn(A) -> bool)
    ensures
        keep(s, p).len() <= s.len(),
        forall|i: int| 0 <= i < keep(s, p).len() ==> p(#[trigger] keep(s, p)[i]),
        forall|i: int|
            0 <= i < keep(s, p).len() ==> exists|j: int| 0 <= j < s.len() && s[j] == #[trigger] keep(s, p)[i],
        forall|j: int|
            0 <= j < s.len() && p(#[trigger] s[j]) ==> exists|i: int|
                0 <= i < keep(s, p).len() && keep(s, p)[i] == s[j],
    decreases s.len(),
{
    if s.len() > 0 {
        let d = s.drop_last();
        lemma_keep(d, p);
        let k = keep(s, p);
        let kd = keep(d, p);
        assert forall|i: int| 0 <= i < k.len() implies exists|j: int|
            0 <= j < s.len() && s[j] == #[trigger] k[i] by {
            if i < kd.len() {
                let j = choose|j: int| 0 <= j < d.len() && d[j] == kd[i];
                assert(s[j] == k[i]);
            } else {
                assert(s[s.len() - 1] == k[i]);
            }
        }
        assert forall|j: int| 0 <= j < s.len() && p(#[trigger] s[j]) implies exists|i: int|
            0 <= i < k.len() && k[i] == s[j] by {
            if j < s.len() - 1 {
                assert(d[j] == s[j]);
                let i = choose|i: int| 0 <= i < kd.len() && kd[i] == d[j];
                assert(k[i] == s[j]);
            } else {
                assert(k[k.len() - 1] == s[j]);
            }
        }
    }
}

/// Distinct keys stay distinct after keeping.
pub proof fn lemma_keep_unique<A>(s: Seq<A>, p: spec_fn(A) -> bool, key: spec_fn(A) -> Seq<char>)
    requires
        forall|i: int, j: int| 0 <= i < j < s.len() ==> key(s[i]) != key(s[j]),
    ensures
        forall|i: int, j: int|
            0 <= i < j < keep(s, p).len() ==> key(keep(s, p)[i]) != key(keep(s, p)[j]),
    decreases s.len(),
{
    if s.len() > 0 {
        let d = s.drop_last();
        lemma_keep_unique(d, p, key);
        lemma_keep(d, p);
        let k = keep(s, p);
        let kd = keep(d, p);
        assert forall|i: int, j: int| 0 <= i < j < k.len() implies key(k[i]) != key(k[j]) by {
            if j >= kd.len() {
                let m = choose|m: int| 0 <= m < d.len() && d[m] == kd[i];
                assert(key(s[m]) != key(s[s.len() - 1]));
            } else {
                assert(k[i] == kd[i] && k[j] == kd[j]);
            }
        }
    }
}

} // verus!
