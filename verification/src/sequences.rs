//! Facts about filtered sequences that the proofs of this crate share.

use vstd::prelude::*;

verus! {

/// Filtering one row more either adds that row or changes nothing.
pub proof fn lemma_filter_take_next<A>(rows: Seq<A>, pred: spec_fn(A) -> bool, i: int)
    requires
        0 <= i < rows.len(),
    ensures
        rows.take(i + 1).filter(pred) == if pred(rows[i]) {
            rows.take(i).filter(pred).push(rows[i])
        } else {
            rows.take(i).filter(pred)
        },
{
    assert(rows.take(i + 1) =~= rows.take(i).push(rows[i]));
    rows.take(i).lemma_filter_push(rows[i], pred);
}

/// A sequence in which no element passes the test has an empty filter.
pub proof fn lemma_filter_none<A>(rows: Seq<A>, pred: spec_fn(A) -> bool)
    requires
        forall|i: int| 0 <= i < rows.len() ==> !pred(#[trigger] rows[i]),
    ensures
        rows.filter(pred) == Seq::<A>::empty(),
    decreases rows.len(),
{
    reveal(Seq::filter);
    if rows.len() > 0 {
        lemma_filter_none(rows.drop_last(), pred);
    }
}

/// A sequence in which every element passes the test is its own filter.
pub proof fn lemma_filter_all<A>(rows: Seq<A>, pred: spec_fn(A) -> bool)
    requires
        forall|i: int| 0 <= i < rows.len() ==> pred(#[trigger] rows[i]),
    ensures
        rows.filter(pred) == rows,
    decreases rows.len(),
{
    reveal(Seq::filter);
    if rows.len() > 0 {
        lemma_filter_all(rows.drop_last(), pred);
    }
}

} // verus!
