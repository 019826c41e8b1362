use vstd::prelude::*;

verus! {

/// Relies on `chrono::Utc::now` (exposed as an integer via
/// `DateTime::timestamp_micros`): reads the current wall-clock time in
/// microseconds since the Unix epoch.  The value depends on the clock, so
/// nothing is promised about it.
#[verifier::external_body]
pub(crate) fn now_micros() -> i64 {
    chrono::Utc::now().timestamp_micros()
}

} // verus!
