//! The wall clock, in Unix seconds.

use vstd::prelude::*;

verus! {

/// Wraps `std::time::SystemTime::now().duration_since(UNIX_EPOCH)` and
/// `Duration::as_secs`: the current Unix time in whole seconds, or `None`
/// when the clock reads before 1970 (where `duration_since` fails). Nothing
/// is claimed of the value, which is the machine's clock.
#[verifier::external_body]
pub fn now_ts() -> (t: Option<i64>) {
    std::time::SystemTime::now().duration_since(std::time::UNIX_EPOCH).ok().map(|d| d.as_secs() as i64)
}

} // verus!
