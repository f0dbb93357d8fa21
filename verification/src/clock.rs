//! The server-assigned timestamp written into a record at insert time.

use vstd::prelude::*;

verus! {

/// Relies on `chrono::Utc::now().timestamp_millis()`: the current Unix time
/// in milliseconds. Nothing is promised of the value.
#[verifier::external_body]
pub fn now_unix_millis() -> i64 {
    chrono::Utc::now().timestamp_millis()
}

} // verus!
