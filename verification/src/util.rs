//! Small reusable lemmas about sequences, shared by the classifier,
//! the counters and the spatial analyzer.

use vstd::prelude::*;

verus! {

/// Extending a prefix by one element extends its filtered image by
/// that element exactly when the predicate holds of it.
pub proof fn lemma_filter_take_step<A>(s: Seq<A>, pred: spec_fn(A) -> bool, i: int)
    requires
        0 <= i < s.len(),
    ensures
        s.take(i + 1).filter(pred) == if pred(s[i]) {
            s.take(i).filter(pred).push(s[i])
        } else {
            s.take(i).filter(pred)
        },
{
    reveal(Seq::filter);
    let t = s.take(i + 1);
    assert(t.len() == i + 1);
    assert(t.drop_last() =~= s.take(i));
    assert(t.last() == s[i]);
}

/// The whole sequence is its own `take`.
pub proof fn lemma_take_full<A>(s: Seq<A>)
    ensures
        s.take(s.len() as int) == s,
{
    assert(s.take(s.len() as int) =~= s);
}

/// Filtering the empty prefix gives the empty sequence.
pub proof fn lemma_filter_take_zero<A>(s: Seq<A>, pred: spec_fn(A) -> bool)
    ensures
        s.take(0).filter(pred) == Seq::<A>::empty(),
{
    reveal(Seq::filter);
    assert(s.take(0) =~= Seq::<A>::empty());
}

/// A filtered sequence whose predicate holds nowhere on the source is empty.
pub proof fn lemma_filter_all_false<A>(s: Seq<A>, pred: spec_fn(A) -> bool)
    requires
        forall|k: int| 0 <= k < s.len() ==> !pred(s[k]),
    ensures
        s.filter(pred) == Seq::<A>::empty(),
    decreases s.len(),
{
    reveal(Seq::filter);
    if s.len() > 0 {
        lemma_filter_all_false(s.drop_last(), pred);
    }
}

/// A property holding of every element of a sequence holds of every
/// element of any filtered image of it.
pub proof fn lemma_filter_preserves<A>(s: Seq<A>, pred: spec_fn(A) -> bool, prop: spec_fn(A) -> bool)
    requires
        forall|k: int| 0 <= k < s.len() ==> #[trigger] prop(s[k]),
    ensures
        forall|i: int|
            0 <= i < s.filter(pred).len() ==> #[trigger] prop(s.filter(pred)[i]),
    decreases s.len(),
{
    reveal(Seq::filter);
    if s.len() > 0 {
        lemma_filter_preserves(s.drop_last(), pred, prop);
        let sub = s.drop_last().filter(pred);
        let f = s.filter(pred);
        assert forall|i: int| 0 <= i < f.len() implies #[trigger] prop(f[i]) by {
            if pred(s.last()) {
                assert(f == sub.push(s.last()));
                if i < sub.len() {
                    assert(f[i] == sub[i]);
                    assert(prop(sub[i]));
                } else {
                    assert(f[i] == s.last());
                    assert(prop(s.last()));
                }
            } else {
                assert(f == sub);
                assert(prop(sub[i]));
            }
        }
    }
}

} // verus!
