//! The wall clock, read in whole seconds.

use vstd::prelude::*;

verus! {

/// Reads the current time as seconds since the Unix epoch, by
/// `chrono::Utc::now` and `DateTime::timestamp`.
///
/// Nothing is promised of the value: it depends on the machine's clock and
/// two readings may differ.
#[verifier::external_body]
pub(crate) fn unix_now() -> (now: i64) {
    chrono::Utc::now().timestamp()
}

} // verus!
