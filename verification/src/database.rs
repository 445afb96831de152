//! What is written to the store, and how it is read back.

pub mod backfill_laws;
pub mod epoch_backfill;
pub mod event_laws;
pub mod history_laws;
pub mod live_limit_laws;
pub mod rate_limit_laws;
pub mod rate_limit_samples;
pub mod usage_events;

use vstd::prelude::*;

verus! {

/// How a truth value is stored.
pub open spec fn stored_bool(value: bool) -> i64 {
    if value {
        1
    } else {
        0
    }
}

/// How a truth value is stored: 1 or 0.
pub fn bool_to_i64(value: bool) -> (stored: i64)
    ensures
        stored == stored_bool(value),
{
    if value {
        1
    } else {
        0
    }
}

/// The truth value that a stored number stands for: anything but zero is true.
pub fn i64_to_bool(value: i64) -> (result: bool)
    ensures
        result == (value != 0),
{
    value != 0
}

/// A stored truth value reads back as it was.
pub proof fn stored_bool_reads_back(value: bool)
    ensures
        (stored_bool(value) != 0) == value,
        value ==> stored_bool(value) == 1,
        !value ==> stored_bool(value) == 0,
{
}

} // verus!
