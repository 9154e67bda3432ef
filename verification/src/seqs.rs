//! General facts about sequences and their filters.

use vstd::prelude::*;

verus! {

/// Filtering one more element of a prefix: it is kept exactly when the
/// predicate holds of it.
pub proof fn lemma_filter_step<A>(s: Seq<A>, i: int, p: spec_fn(A) -> bool)
    requires
        0 <= i < s.len(),
    ensures
        s.take(i + 1).filter(p) == (if p(s[i]) {
            s.take(i).filter(p).push(s[i])
        } else {
            s.take(i).filter(p)
        }),
{
    reveal(Seq::filter);
    assert(s.take(i + 1).drop_last() =~= s.take(i));
    assert(s.take(i + 1).last() == s[i]);
}

/// Filtering keeps a sequence whose elements all pass.
pub proof fn lemma_filter_all<A>(s: Seq<A>, p: spec_fn(A) -> bool)
    requires
        forall|i: int| 0 <= i < s.len() ==> p(#[trigger] s[i]),
    ensures
        s.filter(p) == s,
    decreases s.len(),
{
    reveal(Seq::filter);
    if s.len() > 0 {
        lemma_filter_all(s.drop_last(), p);
        assert(s.drop_last().push(s.last()) =~= s);
    }
}

/// An element of a filtered sequence is an element of the unfiltered one and
/// passes the predicate.
pub proof fn lemma_filter_member<A>(s: Seq<A>, p: spec_fn(A) -> bool, e: A)
    requires
        s.filter(p).contains(e),
    ensures
        s.contains(e),
        p(e),
{
    s.lemma_filter_contains_rev(p, e);
    let k = choose|k: int| 0 <= k < s.filter(p).len() && s.filter(p)[k] == e;
    s.lemma_filter_pred(p, k);
}

} // verus!
