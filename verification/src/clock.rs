//! The clock.

use vstd::prelude::*;

verus! {

/// The last second that the clock can tell, at the end of the year 262142.
pub const LAST_SECOND: i64 = 8_210_266_876_799;

/// Whether `time` is one that the clock can tell, in seconds since the epoch.
pub open spec fn is_time(time: int) -> bool {
    0 <= time <= LAST_SECOND
}

/// Reads the clock, by `chrono::Utc::now` and `DateTime::timestamp`: the whole
/// seconds since the epoch. What they are depends on the moment of the call;
/// all that is claimed is that the epoch lies in the past, and that the year is
/// one that chrono can represent. Where the clock of the machine is set outside
/// these limits, the call panics.
#[verifier::external_body]
pub(crate) fn now() -> (r: i64)
    ensures
        is_time(r as int),
{
    chrono::Utc::now().timestamp()
}

} // verus!
