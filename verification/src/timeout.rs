//! When to call in next, and what for.
use crate::units::Instant;
use vstd::prelude::*;

verus! {

/// What a timeout is for.
#[derive(Debug, Clone, Copy, PartialEq, Eq, Structural)]
pub enum Reason {
    /// The delay based controller.
    BweDelayControl,
    /// The control of probes.
    BweProbeControl,
    /// The evaluation of probes.
    BweProbeEstimator,
}

/// The earlier of two timeouts: the first only where it is strictly earlier, or where the second
/// never comes.
pub open spec fn soonest_of(
    a: (Option<Instant>, Reason),
    b: (Option<Instant>, Reason),
) -> (Option<Instant>, Reason) {
    match (a.0, b.0) {
        (Some(at), Some(bt)) => if at.nanos < bt.nanos {
            a
        } else {
            b
        },
        (Some(_), None) => a,
        (None, _) => b,
    }
}

/// The earlier of two timeouts.
pub fn soonest(
    a: (Option<Instant>, Reason),
    b: (Option<Instant>, Reason),
) -> (first: (Option<Instant>, Reason))
    ensures
        first == soonest_of(a, b),
{
    match (a.0, b.0) {
        (Some(at), Some(bt)) => if at.nanos < bt.nanos {
            a
        } else {
            b
        },
        (Some(_), None) => a,
        (None, _) => b,
    }
}

} // verus!
