//! The time of day.

use vstd::prelude::*;

verus! {

/// The present time in milliseconds since the Unix epoch.
///
/// Calls `chrono::Local::now` and reads the result with
/// `DateTime::timestamp_millis`. Nothing is claimed of the number: it is
/// whatever the machine's clock says. Where that clock stands before the
/// year 1970, `Local::now` panics.
#[verifier::external_body]
pub(crate) fn now() -> i64 {
    chrono::Local::now().timestamp_millis()
}

} // verus!
