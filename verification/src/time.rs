//! The two clock facts the monitor needs from the outside world: whether
//! an epoch-millisecond count is representable as a calendar instant,
//! and the instant of local receipt of a frame.

use vstd::prelude::*;

verus! {

/// Whether chrono can represent this count of epoch milliseconds as a
/// calendar instant.  The exact range is chrono's own; the monitor only
/// relies on it being a function of the count.
pub uninterp spec fn chrono_millis_in_range(ms: i64) -> bool;

/// Relies on chrono's `DateTime::<Utc>::from_timestamp_millis`, which
/// "returns None on out-of-range number of milliseconds": whether the
/// count is representable depends on the count alone.
#[verifier::external_body]
pub fn timestamp_millis_valid(ms: i64) -> (r: bool)
    ensures
        r == chrono_millis_in_range(ms),
{
    chrono::DateTime::<chrono::Utc>::from_timestamp_millis(ms).is_some()
}

/// Relies on chrono's `Utc::now`: the wall clock as epoch milliseconds.
/// Nothing is assumed of the value.
#[verifier::external_body]
pub fn now_millis() -> i64 {
    chrono::Utc::now().timestamp_millis()
}

} // verus!
