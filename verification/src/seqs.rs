//! Facts about sequences used by the collection code.

use vstd::prelude::*;

verus! {

/// Filtering a sequence extended by one element.
pub proof fn lemma_filter_push<A>(s: Seq<A>, pred: spec_fn(A) -> bool, e: A)
    ensures
        pred(e) ==> s.push(e).filter(pred) == s.filter(pred).push(e),
        !pred(e) ==> s.push(e).filter(pred) == s.filter(pred),
{
    reveal(Seq::filter);
    assert(s.push(e).drop_last() =~= s);
}

/// A filtered prefix, extended by the next element.
pub proof fn lemma_filter_take_step<A>(s: Seq<A>, pred: spec_fn(A) -> bool, i: int)
    requires
        0 <= i < s.len(),
    ensures
        pred(s[i]) ==> s.take(i + 1).filter(pred) == s.take(i).filter(pred).push(s[i]),
        !pred(s[i]) ==> s.take(i + 1).filter(pred) == s.take(i).filter(pred),
{
    lemma_filter_push(s.take(i), pred, s[i]);
    assert(s.take(i).push(s[i]) =~= s.take(i + 1));
}

/// Every element of a filtered sequence satisfies the predicate and comes from
/// the input; filtering keeps at most as many elements.
pub proof fn lemma_filter_facts<A>(s: Seq<A>, pred: spec_fn(A) -> bool)
    ensures
        s.filter(pred).len() <= s.len(),
        forall|i: int| 0 <= i < s.filter(pred).len() ==> pred(#[trigger] s.filter(pred)[i]),
        forall|i: int| 0 <= i < s.len() && pred(s[i]) ==> #[trigger] s.filter(pred).contains(s[i]),
        forall|e: A| #[trigger] s.filter(pred).contains(e) ==> s.contains(e),
{
    broadcast use vstd::seq_lib::group_filter_ensures;

    assert forall|e: A| #[trigger] s.filter(pred).contains(e) implies s.contains(e) by {
        s.lemma_filter_contains_rev(pred, e);
    }
}

/// An element inside a kept prefix is unchanged.
pub proof fn lemma_prefix_index<A>(a: Seq<A>, b: Seq<A>, i: int)
    requires
        b.len() <= a.len(),
        a.take(b.len() as int) == b,
        0 <= i < b.len(),
    ensures
        a[i] == b[i],
{
    assert(a.take(b.len() as int)[i] == a[i]);
}

} // verus!
