//! The wall clock.

use std::time::{SystemTime, UNIX_EPOCH};
use vstd::prelude::*;

verus! {

/// Reads `SystemTime::now` as milliseconds since the Unix epoch, zero where
/// the clock stands before the epoch. Nothing is promised of the reading.
#[verifier::external_body]
pub(crate) fn now_ms() -> (millis: i64) {
    SystemTime::now().duration_since(UNIX_EPOCH).map(|d| d.as_millis() as i64).unwrap_or(0)
}

} // verus!
