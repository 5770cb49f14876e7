//! The aggregates that a block barrier with a predicate hands back.
//!
//! Each thread of a block supplies one `u32` predicate to the barrier, zero
//! meaning false and anything else true. Once every thread has arrived, each
//! of them receives the same aggregate of the whole block's predicates. The
//! functions here compute those aggregates from the block's predicates,
//! listed by the threads' flattened indices within the block.

use vstd::prelude::*;

verus! {

/// The number of non-zero entries of `preds`.
pub open spec fn count_nonzero(preds: Seq<u32>) -> nat
    decreases preds.len(),
{
    if preds.len() == 0 {
        0
    } else {
        count_nonzero(preds.drop_last()) + if preds.last() != 0 {
            1nat
        } else {
            0nat
        }
    }
}

proof fn lemma_count_bounded(preds: Seq<u32>)
    ensures
        count_nonzero(preds) <= preds.len(),
    decreases preds.len(),
{
    if preds.len() > 0 {
        lemma_count_bounded(preds.drop_last());
    }
}

/// The three aggregates agree: every predicate is non-zero exactly when the
/// count is the block's size, and some predicate is non-zero exactly when the
/// count is positive.
pub proof fn lemma_votes_agree(preds: Seq<u32>)
    ensures
        (forall|i: int| 0 <= i < preds.len() ==> #[trigger] preds[i] != 0) <==> count_nonzero(
            preds,
        ) == preds.len(),
        (exists|i: int| 0 <= i < preds.len() && #[trigger] preds[i] != 0) <==> count_nonzero(
            preds,
        ) > 0,
    decreases preds.len(),
{
    if preds.len() > 0 {
        let init = preds.drop_last();
        let n = preds.len() - 1;
        lemma_votes_agree(init);
        lemma_count_bounded(init);
        assert(forall|i: int| 0 <= i < n ==> #[trigger] init[i] == preds[i]);
        if (forall|i: int| 0 <= i < preds.len() ==> #[trigger] preds[i] != 0) {
            assert forall|i: int| 0 <= i < init.len() implies #[trigger] init[i] != 0 by {
                assert(preds[i] != 0);
            }
        }
        if count_nonzero(preds) == preds.len() {
            assert forall|i: int| 0 <= i < preds.len() implies #[trigger] preds[i] != 0 by {
                if i < n {
                    assert(init[i] != 0);
                }
            }
        }
        if (exists|i: int| 0 <= i < preds.len() && #[trigger] preds[i] != 0) {
            let i = choose|i: int| 0 <= i < preds.len() && #[trigger] preds[i] != 0;
            if i < n {
                assert(init[i] != 0);
            }
        }
        if count_nonzero(preds) > 0 {
            if preds.last() == 0 {
                let i = choose|i: int| 0 <= i < init.len() && #[trigger] init[i] != 0;
                assert(preds[i] != 0);
            } else {
                assert(preds[n] != 0);
            }
        }
    }
}

/// The count that every thread of the block receives: how many threads
/// supplied a non-zero predicate.
pub fn block_vote_count(preds: &[u32]) -> (r: u32)
    requires
        preds@.len() <= u32::MAX,
    ensures
        r == count_nonzero(preds@),
{
    let mut count: u32 = 0;
    let mut i: usize = 0;
    while i < preds.len()
        invariant
            i <= preds@.len(),
            preds@.len() <= u32::MAX,
            count == count_nonzero(preds@.subrange(0, i as int)),
        decreases preds@.len() - i,
    {
        proof {
            let next = preds@.subrange(0, i as int + 1);
            assert(next.drop_last() =~= preds@.subrange(0, i as int));
            lemma_count_bounded(preds@.subrange(0, i as int));
        }
        if preds[i] != 0 {
            count = count + 1;
        }
        i = i + 1;
    }
    assert(preds@.subrange(0, i as int) =~= preds@);
    count
}

/// What every thread of the block receives from the "and" barrier: one when
/// every thread supplied a non-zero predicate, zero otherwise.
pub fn block_vote_all(preds: &[u32]) -> (r: u32)
    ensures
        r == (if (forall|i: int| 0 <= i < preds@.len() ==> #[trigger] preds@[i] != 0) {
            1u32
        } else {
            0u32
        }),
{
    let mut i: usize = 0;
    while i < preds.len()
        invariant
            i <= preds@.len(),
            forall|j: int| 0 <= j < i ==> #[trigger] preds@[j] != 0,
        decreases preds@.len() - i,
    {
        if preds[i] == 0 {
            return 0;
        }
        i = i + 1;
    }
    1
}

/// What every thread of the block receives from the "or" barrier: one when
/// at least one thread supplied a non-zero predicate, zero otherwise.
pub fn block_vote_any(preds: &[u32]) -> (r: u32)
    ensures
        r == (if (exists|i: int| 0 <= i < preds@.len() && #[trigger] preds@[i] != 0) {
            1u32
        } else {
            0u32
        }),
{
    let mut i: usize = 0;
    while i < preds.len()
        invariant
            i <= preds@.len(),
            forall|j: int| 0 <= j < i ==> #[trigger] preds@[j] == 0,
        decreases preds@.len() - i,
    {
        if preds[i] != 0 {
            return 1;
        }
        i = i + 1;
    }
    0
}

} // verus!
