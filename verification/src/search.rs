//! Where a search through a list comes out

use vstd::prelude::*;

verus! {

/// The first index at or past `from` that `pick` takes
pub open spec fn first_index(len: int, pick: spec_fn(int) -> bool, from: int) -> Option<int>
    decreases len - from,
{
    if from >= len {
        None
    } else if pick(from) {
        Some(from)
    } else {
        first_index(len, pick, from + 1)
    }
}

/// A search comes up empty where nothing is there to find
pub proof fn lemma_first_index_none(len: int, pick: spec_fn(int) -> bool, from: int)
    ensures
        first_index(len, pick, from) is None <==> forall|n: int|
            from <= n < len ==> !#[trigger] pick(n),
        first_index(len, pick, from) matches Some(n) ==> from <= n < len && pick(n),
    decreases len - from,
{
    if from < len && !pick(from) {
        lemma_first_index_none(len, pick, from + 1);
    }
}

/// Two searches for the same thing find it in the same place
pub proof fn lemma_first_index_same(
    len: int,
    a: spec_fn(int) -> bool,
    b: spec_fn(int) -> bool,
    from: int,
)
    requires
        0 <= from,
        forall|n: int| 0 <= n < len ==> #[trigger] a(n) == b(n),
    ensures
        first_index(len, a, from) == first_index(len, b, from),
    decreases len - from,
{
    if from < len && !a(from) {
        lemma_first_index_same(len, a, b, from + 1);
    }
}

/// A search finds the first index there is: one that is taken, with none taken
/// before it; and finds one wherever one is taken
pub proof fn law_a_search_finds_the_first(len: int, pick: spec_fn(int) -> bool, from: int)
    ensures
        match first_index(len, pick, from) {
            Some(n) => from <= n < len && pick(n) && forall|k: int|
                from <= k < n ==> !#[trigger] pick(k),
            None => forall|k: int| from <= k < len ==> !#[trigger] pick(k),
        },
    decreases len - from,
{
    if from < len && !pick(from) {
        law_a_search_finds_the_first(len, pick, from + 1);
    }
}

} // verus!
