//! The wall clock, as the capture records read it.
use vstd::prelude::*;

verus! {

/// Milliseconds since the Unix epoch by the system clock, or 0 when the clock
/// reads earlier than the epoch. Nothing is claimed of the value: it is the time.
#[verifier::external_body]
pub(crate) fn now_millis() -> (r: u64) {
    std::time::SystemTime::now().duration_since(std::time::UNIX_EPOCH).unwrap_or_default().as_millis() as u64
}

} // verus!
