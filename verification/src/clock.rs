//! The wall clock.
//!
//! The file target names what it delivers with a timestamp.  The time comes
//! from outside; nothing can be promised of it.

use vstd::prelude::*;

verus! {

/// Relies on chrono's `Utc::now` and `DateTime::timestamp_micros`: the
/// number of non-leap microseconds since the epoch at the moment of the
/// call.  Nothing is promised of the value.  One residual, environmental
/// panic remains: `Utc::now` itself panics on a machine whose system clock
/// is set before the Unix epoch.  That depends on the environment alone,
/// not on any argument, so no `requires` can exclude it.
#[verifier::external_body]
pub fn now_micros() -> i64 {
    chrono::Utc::now().timestamp_micros()
}

} // verus!
