//! The rule the bulk inserts share for empty batches.
use vstd::prelude::*;

verus! {

/// The count reported for a batch of `len` records without contacting the
/// store: an empty batch is not sent and reports 0; any other batch is
/// sent (`None`).
pub fn skipped_batch(len: usize) -> (r: Option<u64>)
    ensures
        r == (if len == 0 { Some(0u64) } else { None::<u64> }),
{
    if len == 0 {
        Some(0)
    } else {
        None
    }
}

} // verus!
