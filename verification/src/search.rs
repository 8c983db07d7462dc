//! Positions in sequences.

use vstd::prelude::*;

verus! {

/// The least position from `from` on, below `len`, at which `p` fails; `len`
/// where it fails nowhere.
pub open spec fn first_failing(p: spec_fn(int) -> bool, len: nat, from: int) -> int
    decreases len - from,
{
    if from >= len {
        len as int
    } else if !p(from) {
        from
    } else {
        first_failing(p, len, from + 1)
    }
}

/// Positions that satisfy `p` are passed over.
pub proof fn lemma_first_failing(p: spec_fn(int) -> bool, len: nat, from: int, to: int)
    requires
        0 <= from <= to <= len,
        forall|k: int| from <= k < to ==> #[trigger] p(k),
    ensures
        first_failing(p, len, from) == first_failing(p, len, to),
    decreases to - from,
{
    if from < to {
        assert(p(from));
        lemma_first_failing(p, len, from + 1, to);
    }
}

/// Where the first failing position is `len`, `p` holds at every position.
pub proof fn lemma_none_failing(p: spec_fn(int) -> bool, len: nat, from: int)
    requires
        0 <= from <= len,
    ensures
        from <= first_failing(p, len, from) <= len,
        forall|k: int| from <= k < first_failing(p, len, from) ==> #[trigger] p(k),
        first_failing(p, len, from) < len ==> !p(first_failing(p, len, from)),
    decreases len - from,
{
    if from < len && p(from) {
        lemma_none_failing(p, len, from + 1);
    }
}

} // verus!
