//! Facts about rows that are built one element at a time.
use vstd::prelude::*;

verus! {

/// Nothing of nothing is kept.
pub proof fn lemma_filter_none<A>(row: Seq<A>, keep: spec_fn(A) -> bool)
    ensures
        row.take(0).filter(keep) == Seq::<A>::empty(),
{
    reveal_with_fuel(Seq::filter, 1);
    assert(row.take(0) =~= Seq::empty());
}

/// What one more element adds to what is kept.
pub proof fn lemma_filter_step<A>(row: Seq<A>, i: int, keep: spec_fn(A) -> bool)
    requires
        0 <= i < row.len(),
    ensures
        row.take(i + 1).filter(keep) == (if keep(row[i]) {
            row.take(i).filter(keep).push(row[i])
        } else {
            row.take(i).filter(keep)
        }),
{
    reveal_with_fuel(Seq::filter, 2);
    assert(row.take(i + 1).drop_last() =~= row.take(i));
    assert(row.take(i + 1).last() == row[i]);
}

} // verus!
