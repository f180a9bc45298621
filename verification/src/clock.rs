//! Wall-clock access.
//!
//! Timestamps throughout the crate are nanoseconds since the Unix epoch.
//! Nothing can be promised of the clock's value; callers that need the
//! crate's time bound or monotonicity check them on the value they got.

use vstd::prelude::*;
use std::time::{SystemTime, UNIX_EPOCH};

verus! {

/// Relies on `SystemTime::now` and `duration_since(UNIX_EPOCH)`: nanoseconds
/// since the epoch, or zero should the clock stand before it.  Nothing is
/// promised of the value.
#[verifier::external_body]
pub fn get_epoch_nanos() -> u128 {
    match SystemTime::now().duration_since(UNIX_EPOCH) {
        Ok(d) => d.as_nanos(),
        Err(_) => 0,
    }
}

} // verus!
