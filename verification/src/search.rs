use vstd::prelude::*;

verus! {

/// The least position in `from..end` at which `wanted` holds, or `end` where
/// it holds at none of them.
pub open spec fn first_where(wanted: spec_fn(int) -> bool, from: int, end: int) -> int
    decreases end - from,
{
    if from >= end {
        end
    } else if wanted(from) {
        from
    } else {
        first_where(wanted, from + 1, end)
    }
}

/// `first_where` names the least position that meets the predicate: nothing
/// before it does, and it does itself unless it is `end`.
pub proof fn lemma_first_where(wanted: spec_fn(int) -> bool, from: int, end: int)
    requires
        from <= end,
    ensures
        from <= first_where(wanted, from, end) <= end,
        first_where(wanted, from, end) < end ==> wanted(first_where(wanted, from, end)),
        forall|index: int| from <= index < first_where(wanted, from, end) ==> !#[trigger] wanted(index),
    decreases end - from,
{
    if from < end && !wanted(from) {
        lemma_first_where(wanted, from + 1, end);
    }
}

/// A position that meets the predicate, with none before it that does, is the
/// one that `first_where` names.
pub proof fn lemma_first_where_is(wanted: spec_fn(int) -> bool, from: int, end: int, found: int)
    requires
        from <= found <= end,
        found < end ==> wanted(found),
        forall|index: int| from <= index < found ==> !#[trigger] wanted(index),
    ensures
        first_where(wanted, from, end) == found,
    decreases end - from,
{
    if from < found {
        lemma_first_where_is(wanted, from + 1, end, found);
    }
}

} // verus!
