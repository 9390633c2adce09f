//! Link capacity as the highest rate that a probe has proven.
use crate::estimator::capacity_after;
use crate::parts::LinkCapacityEstimator;
use crate::twcc::ProbeClusterConfig;
use crate::units::{max_rate, Bitrate, Instant};
use vstd::prelude::*;

verus! {

/// The link capacity as the highest rate that a probe has measured.
#[derive(Debug, Clone, Copy, PartialEq, Eq, Structural)]
pub struct ProvenLinkCapacity {
    /// The highest rate measured so far.
    pub highest: Option<Bitrate>,
}

impl View for ProvenLinkCapacity {
    type V = ProvenLinkCapacity;

    open spec fn view(&self) -> ProvenLinkCapacity {
        *self
    }
}

impl LinkCapacityEstimator for ProvenLinkCapacity {
    open spec fn start() -> ProvenLinkCapacity {
        ProvenLinkCapacity { highest: None }
    }

    open spec fn on_probe(
        state: ProvenLinkCapacity,
        measured: Bitrate,
        now: Instant,
    ) -> ProvenLinkCapacity {
        ProvenLinkCapacity {
            highest: match state.highest {
                Some(highest) => Some(max_rate(highest, measured)),
                None => Some(measured),
            },
        }
    }

    open spec fn capacity_of(state: ProvenLinkCapacity, now: Instant) -> Option<Bitrate> {
        state.highest
    }

    fn new() -> (estimator: Self) {
        ProvenLinkCapacity { highest: None }
    }

    fn update_from_probe(&mut self, measured: Bitrate, now: Instant) {
        self.highest = match self.highest {
            Some(highest) => Some(highest.max(measured)),
            None => Some(measured),
        };
    }

    fn capacity_estimate(&self, now: Instant) -> (capacity: Option<Bitrate>) {
        self.highest
    }
}

/// The capacity is no lower than any rate measured by a probe that was sent while the application
/// limited its own rate, no lower than before, and nothing but such a rate raises it.
pub proof fn law_capacity_is_highest_probe(
    state: ProvenLinkCapacity,
    results: Seq<(ProbeClusterConfig, Bitrate)>,
    now: Instant,
)
    ensures
        ({
            let after = capacity_after::<ProvenLinkCapacity>(state, results, now).highest;
            &&& forall|i: int|
                0 <= i < results.len() && (#[trigger] results[i]).0.alr_probe ==> after is Some
                    && results[i].1.bits <= after->0.bits
            &&& state.highest is Some ==> after is Some && state.highest->0.bits
                <= after->0.bits
            &&& after == state.highest || exists|i: int|
                0 <= i < results.len() && (#[trigger] results[i]).0.alr_probe && after == Some(
                    results[i].1,
                )
        }),
    decreases results.len(),
{
    if results.len() > 0 {
        let shorter = results.drop_last();
        law_capacity_is_highest_probe(state, shorter, now);
        let before = capacity_after::<ProvenLinkCapacity>(state, shorter, now).highest;
        let after = capacity_after::<ProvenLinkCapacity>(state, results, now).highest;
        assert forall|i: int|
            0 <= i < results.len() && (#[trigger] results[i]).0.alr_probe implies after is Some
            && results[i].1.bits <= after->0.bits by {
            if i < shorter.len() {
                assert(shorter[i] == results[i]);
            }
        }
        if after != state.highest {
            if after == before {
                let i = choose|i: int|
                    0 <= i < shorter.len() && (#[trigger] shorter[i]).0.alr_probe && before == Some(
                        shorter[i].1,
                    );
                assert(results[i] == shorter[i]);
            } else {
                assert(results[results.len() - 1].0.alr_probe);
            }
        }
    }
}

/// What a probe has proven does not fade: the capacity after it is what the probe has measured, or
/// what it was before where that is more, at any time.
pub proof fn law_proven_capacity_does_not_fade(
    state: ProvenLinkCapacity,
    measured: Bitrate,
    at: Instant,
    now: Instant,
    later: Instant,
)
    ensures
        ({
            let before = ProvenLinkCapacity::capacity_of(state, now);
            let after = ProvenLinkCapacity::capacity_of(
                ProvenLinkCapacity::on_probe(state, measured, at),
                later,
            );
            &&& before is None ==> after == Some(measured)
            &&& before is Some && before->0.bits <= measured.bits ==> after == Some(measured)
            &&& before is Some && before->0.bits >= measured.bits ==> after == before
        }),
{
}

} // verus!
