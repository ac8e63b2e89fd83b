//! The decisions of the PostgreSQL store that need no connection.
use vstd::prelude::*;
use crate::error::DatabaseError;
use crate::float_bits::{saturating_trunc, truncate_to_u64};

verus! {

/// The latest timestamp, from the result of `SELECT MAX(start_time)`:
/// `latest` holds the bits of the greatest start time, or nothing when the
/// table is empty. A value gives its integer part (as `as u64` computes it);
/// an empty table is an `UnknownError`.
pub fn latest_timestamp(latest: Option<u64>) -> (r: Result<u64, DatabaseError>)
    ensures
        match latest {
            Some(bits) => r == Ok::<u64, DatabaseError>(saturating_trunc(bits)),
            None => r matches Err(DatabaseError::UnknownError),
        },
{
    match latest {
        Some(bits) => Ok(truncate_to_u64(bits)),
        None => Err(DatabaseError::UnknownError),
    }
}

} // verus!
