//! The wall clock.

use vstd::prelude::*;

verus! {

/// Reads the wall clock: calls `chrono::Utc::now` and gives what
/// `DateTime::timestamp_micros` makes of it, the microseconds since the
/// epoch. Nothing is claimed of the value: two readings may differ in
/// either direction. `Utc::now` does not return on a machine whose clock
/// stands before the epoch.
#[verifier::external_body]
pub(crate) fn now_micros() -> (t: i64) {
    chrono::Utc::now().timestamp_micros()
}

} // verus!
