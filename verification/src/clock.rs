//! The wall clock behind the `time` counter.

use std::time::Duration;
use std::time::Instant;
use vstd::prelude::*;

verus! {

/// A moment on the monotonic clock. Nothing is known of what it holds.
#[verifier::external_type_specification]
#[verifier::external_body]
pub struct ExInstant(std::time::Instant);

/// `Instant::now` reads the monotonic clock; nothing is claimed of the moment
/// it returns.
pub assume_specification[ Instant::now ]() -> (moment: Instant)
;

/// `Instant::elapsed` gives the time that has passed since the moment was
/// taken; nothing is claimed of its length.
pub assume_specification[ Instant::elapsed ](moment: &Instant) -> (passed: Duration)
;

/// `Duration::as_secs` gives the whole seconds of a span of time; nothing is
/// claimed of their number.
pub assume_specification[ Duration::as_secs ](span: &Duration) -> (secs: u64)
;

} // verus!
