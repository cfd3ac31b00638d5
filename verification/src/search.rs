//! The first item of a sequence that meets a condition.

use vstd::prelude::*;

verus! {

/// The position of the first item of `items` that meets `wanted`, or the
/// length of `items` where none does.
pub open spec fn first_match<T>(items: Seq<T>, wanted: spec_fn(T) -> bool) -> int
    decreases items.len(),
{
    if items.len() == 0 {
        0
    } else if wanted(items[0]) {
        0
    } else {
        1 + first_match(items.skip(1), wanted)
    }
}

/// [`first_match`] is a position of the sequence or its length, the item
/// there meets the condition, and no item before it does.
pub proof fn lemma_first_match<T>(items: Seq<T>, wanted: spec_fn(T) -> bool)
    ensures
        0 <= first_match(items, wanted) <= items.len(),
        first_match(items, wanted) < items.len() ==> wanted(items[first_match(items, wanted)]),
        forall|k: int| 0 <= k < first_match(items, wanted) ==> !wanted(#[trigger] items[k]),
    decreases items.len(),
{
    if items.len() > 0 && !wanted(items[0]) {
        let rest = items.skip(1);
        lemma_first_match(rest, wanted);
        assert forall|k: int| 0 <= k < first_match(items, wanted) implies !wanted(
            #[trigger] items[k],
        ) by {
            if k > 0 {
                assert(items[k] == rest[k - 1]);
            }
        }
        if first_match(items, wanted) < items.len() {
            assert(items[first_match(items, wanted)] == rest[first_match(rest, wanted)]);
        }
    }
}

/// A position whose item meets the condition, with none before it that
/// does, is the first match.
pub proof fn lemma_first_match_is<T>(items: Seq<T>, wanted: spec_fn(T) -> bool, at: int)
    requires
        0 <= at <= items.len(),
        at < items.len() ==> wanted(items[at]),
        forall|k: int| 0 <= k < at ==> !wanted(#[trigger] items[k]),
    ensures
        first_match(items, wanted) == at,
{
    lemma_first_match(items, wanted);
    let found = first_match(items, wanted);
    if found < at {
        assert(!wanted(items[found]));
    } else if at < found {
        assert(!wanted(items[at]));
    }
}

} // verus!
