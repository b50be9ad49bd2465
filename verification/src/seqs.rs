//! Facts about filtered sequences that the laws rest on.

use vstd::prelude::*;

verus! {

/// What a filtered sequence holds: the members of the sequence that pass the
/// test.
pub proof fn lemma_filter_holds<A>(s: Seq<A>, keep: spec_fn(A) -> bool, x: A)
    ensures
        s.filter(keep).contains(x) <==> s.contains(x) && keep(x),
{
    if s.filter(keep).contains(x) {
        s.lemma_filter_contains_rev(keep, x);
        let i = choose|i: int| 0 <= i < s.filter(keep).len() && s.filter(keep)[i] == x;
        s.lemma_filter_pred(keep, i);
    }
    if s.contains(x) && keep(x) {
        let i = choose|i: int| 0 <= i < s.len() && s[i] == x;
        s.lemma_filter_contains(keep, i);
    }
}

/// A test that no member passes leaves nothing.
pub proof fn lemma_filter_none<A>(s: Seq<A>, keep: spec_fn(A) -> bool)
    requires
        forall|i: int| 0 <= i < s.len() ==> !keep(#[trigger] s[i]),
    ensures
        s.filter(keep) == Seq::<A>::empty(),
{
    let kept = s.filter(keep);
    if kept.len() > 0 {
        let x = kept[0];
        assert(kept.contains(x));
        lemma_filter_holds(s, keep, x);
        let i = choose|i: int| 0 <= i < s.len() && s[i] == x;
        assert(!keep(s[i]));
    }
    assert(kept =~= Seq::<A>::empty());
}

/// Filtering a sequence without duplicates leaves none.
pub proof fn lemma_filter_distinct<A>(s: Seq<A>, keep: spec_fn(A) -> bool)
    requires
        s.no_duplicates(),
    ensures
        s.filter(keep).no_duplicates(),
    decreases s.len(),
{
    reveal(Seq::filter);
    if s.len() > 0 {
        let head = s.drop_last();
        let last = s.last();
        assert(head.no_duplicates());
        lemma_filter_distinct(head, keep);
        if keep(last) {
            let kept = head.filter(keep);
            assert(s.filter(keep) == kept.push(last));
            assert forall|i: int| 0 <= i < kept.len() implies kept[i] != last by {
                assert(kept.contains(kept[i]));
                lemma_filter_holds(head, keep, kept[i]);
                let j = choose|j: int| 0 <= j < head.len() && head[j] == kept[i];
                assert(s[j] == kept[i]);
            }
        }
    }
}

} // verus!
