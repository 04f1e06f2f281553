//! Spans of time.

use std::time::Duration;

use vstd::prelude::*;

verus! {

/// The span that `Duration::new` makes of whole seconds and nanoseconds.
pub uninterp spec fn duration_of(seconds: u64, nanoseconds: u32) -> Duration;

/// Calls `Duration::new`. Trusted: the span depends on the two numbers alone,
/// and less than a second of nanoseconds never overflows.
#[verifier::external_body]
pub(crate) fn duration(seconds: u64, nanoseconds: u32) -> (r: Duration)
    requires
        nanoseconds < 1_000_000_000,
    ensures
        r == duration_of(seconds, nanoseconds),
{
    Duration::new(seconds, nanoseconds)
}

} // verus!
