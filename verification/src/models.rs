//! The RUNEPool history records. Every quantity is an IEEE-754 binary64
//! number in the upstream API; here each one is held as its raw bit
//! pattern (what `f64::to_bits` gives), so that records can be stored,
//! compared and encoded exactly.
use vstd::prelude::*;

verus! {

/// One hourly interval of RUNEPool history.
#[derive(Clone, Copy, Debug, PartialEq, Eq, Structural)]
pub struct RpmuHistoryInterval {
    pub count: u64,
    pub end_time: u64,
    pub start_time: u64,
    pub units: u64,
}

/// Summary of a page of intervals.
#[derive(Clone, Copy, Debug, PartialEq, Eq, Structural)]
pub struct RpmuHistoryMeta {
    pub end_count: u64,
    pub end_time: u64,
    pub end_units: u64,
    pub start_count: u64,
    pub start_time: u64,
    pub start_units: u64,
}

/// One page of the history endpoint.
#[derive(Debug)]
pub struct RpmuHistoryResponse {
    pub intervals: Vec<RpmuHistoryInterval>,
    pub meta: RpmuHistoryMeta,
}

} // verus!
