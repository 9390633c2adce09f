//! Detection of an application that limits its own rate, by a budget.
//!
//! The budget grows with time at a share of the estimated bandwidth and shrinks with every byte
//! that is sent. A budget that stays well filled shows an application that sends less than it
//! could.
use crate::parts::AlrDetector;
use crate::double::{millionths, millionths_of};
use crate::units::{time_between, Bitrate, DataSize, Instant};
use vstd::prelude::*;

verus! {

/// The share of the estimate that an application has to use, in hundredths.
pub const USAGE_PERCENT: u32 = 65;

/// For how long the budget can build up, in nanoseconds.
pub const WINDOW_NANOS: u64 = 500_000_000;

/// How much budget a byte takes. The unit of the budget is what flows at a millionth of a bit per
/// second in a nanosecond.
pub const BUDGET_PER_BYTE: u64 = 8_000_000_000_000_000;

/// The state of the detector.
pub struct AlrState {
    /// When the last packet was sent.
    pub last_send_time: Option<Instant>,
    /// The rate at which the budget grows, in millionths of a bit per second.
    pub target: nat,
    /// What is left of the budget. A debt is negative.
    pub budget: int,
    /// Since when the application limits its own rate.
    pub start_time: Option<Instant>,
}

impl AlrState {
    /// The budget when it is full. A debt does not exceed it either.
    pub open spec fn full(self) -> int {
        self.target * WINDOW_NANOS
    }

    /// The budget after `bytes` were sent at the end of a span of `nanos`.
    pub open spec fn budget_after(self, bytes: nat, nanos: nat) -> int {
        let spent = self.budget - bytes * BUDGET_PER_BYTE;
        let owed = if spent < -self.full() {
            -self.full()
        } else {
            spent
        };
        let grown = owed + self.target * nanos;
        if grown > self.full() {
            self.full()
        } else {
            grown
        }
    }

    /// Since when the application limits its own rate, judged by the budget at `now`. That starts
    /// with a budget more than four fifths full, and ends with one less than half full.
    pub open spec fn start_time_after(self, budget: int, now: Instant) -> Option<Instant> {
        match self.start_time {
            None => if 5 * budget > 4 * self.full() {
                Some(now)
            } else {
                None
            },
            Some(start) => if self.full() == 0 || 2 * budget < self.full() {
                None
            } else {
                Some(start)
            },
        }
    }

    /// The state after a packet. The first one only starts the clock.
    pub open spec fn on_bytes(self, bytes: nat, now: Instant) -> AlrState {
        match self.last_send_time {
            None => AlrState { last_send_time: Some(now), ..self },
            Some(last) => {
                let budget = self.budget_after(bytes, time_between(last, now).nanos as nat);
                AlrState {
                    last_send_time: Some(now),
                    target: self.target,
                    budget,
                    start_time: self.start_time_after(budget, now),
                }
            },
        }
    }

    /// The state with a new estimate.
    pub open spec fn on_estimate(self, estimate: Bitrate) -> AlrState {
        let target = millionths_of(estimate.bits as nat) * USAGE_PERCENT as nat / 100;
        let full = target * WINDOW_NANOS;
        AlrState {
            target,
            budget: if self.budget > full {
                full
            } else if self.budget < -full {
                -full
            } else {
                self.budget
            },
            ..self
        }
    }
}

/// Detects an application that limits its own rate, by a budget.
pub struct BudgetAlrDetector {
    last_send_time: Option<Instant>,
    target: u64,
    budget: i128,
    start_time: Option<Instant>,
}

impl View for BudgetAlrDetector {
    type V = AlrState;

    closed spec fn view(&self) -> AlrState {
        AlrState {
            last_send_time: self.last_send_time,
            target: self.target as nat,
            budget: self.budget as int,
            start_time: self.start_time,
        }
    }
}

impl BudgetAlrDetector {
    /// Neither the budget nor a debt exceeds the full budget.
    #[verifier::type_invariant]
    spec fn within_bounds(self) -> bool {
        -self@.full() <= self.budget <= self@.full()
    }
}

/// The budget when it is full, at a given target rate.
fn full_budget(target: u64) -> (full: i128)
    ensures
        full == target * WINDOW_NANOS,
        0 <= full <= u64::MAX * 500_000_000,
{
    assert(0 <= target * 500_000_000 <= u64::MAX * 500_000_000);
    target as i128 * WINDOW_NANOS as i128
}

/// The budget that sending takes.
fn cost(size: DataSize) -> (cost: i128)
    ensures
        cost == size.bytes * BUDGET_PER_BYTE,
        0 <= cost <= u64::MAX * 8_000_000_000_000_000,
{
    assert(0 <= size.bytes * 8_000_000_000_000_000 <= u64::MAX * 8_000_000_000_000_000);
    size.bytes as i128 * BUDGET_PER_BYTE as i128
}

impl AlrDetector for BudgetAlrDetector {
    open spec fn start() -> AlrState {
        AlrState { last_send_time: None, target: 0, budget: 0, start_time: None }
    }

    open spec fn on_estimate(state: AlrState, estimate: Bitrate) -> AlrState {
        state.on_estimate(estimate)
    }

    open spec fn on_bytes(state: AlrState, size: DataSize, now: Instant) -> AlrState {
        state.on_bytes(size.bytes as nat, now)
    }

    open spec fn start_time_of(state: AlrState) -> Option<Instant> {
        state.start_time
    }

    fn new() -> (detector: Self) {
        BudgetAlrDetector { last_send_time: None, target: 0, budget: 0, start_time: None }
    }

    fn set_estimated_bitrate(&mut self, estimate: Bitrate) {
        let target: u64 = (millionths(estimate.bits) as u128 * USAGE_PERCENT as u128 / 100) as u64;
        let full: i128 = full_budget(target);
        let budget: i128 = if self.budget > full {
            full
        } else if self.budget < -full {
            -full
        } else {
            self.budget
        };
        *self = BudgetAlrDetector {
            last_send_time: self.last_send_time,
            target,
            budget,
            start_time: self.start_time,
        };
    }

    fn on_bytes_sent(&mut self, size: DataSize, now: Instant) {
        proof {
            use_type_invariant(&*self);
        }
        let last = match self.last_send_time {
            Some(last) => last,
            None => {
                self.last_send_time = Some(now);
                return ;
            },
        };
        let full: i128 = full_budget(self.target);
        let spent: i128 = self.budget - cost(size);
        let owed: i128 = if spent < -full {
            -full
        } else {
            spent
        };
        // Twice the window fills the budget from any debt.
        let elapsed: u128 = now.duration_since(last).nanos;
        let counted: u128 = if elapsed <= 2 * WINDOW_NANOS as u128 {
            elapsed
        } else {
            2 * WINDOW_NANOS as u128
        };
        proof {
            assert(0 <= self.target * counted <= self.target * 1_000_000_000) by (nonlinear_arith)
                requires
                    0 <= counted <= 1_000_000_000,
                    0 <= self.target,
            ;
            if elapsed > 1_000_000_000 {
                assert(self.target * elapsed >= self.target * 1_000_000_000) by (nonlinear_arith)
                    requires
                        elapsed > 1_000_000_000,
                        0 <= self.target,
                ;
            }
        }
        let grown: i128 = owed + self.target as i128 * counted as i128;
        let budget: i128 = if grown > full {
            full
        } else {
            grown
        };
        let start_time = match self.start_time {
            None => if 5 * budget > 4 * full {
                Some(now)
            } else {
                None
            },
            Some(start) => if full == 0 || 2 * budget < full {
                None
            } else {
                Some(start)
            },
        };
        *self = BudgetAlrDetector {
            last_send_time: Some(now),
            target: self.target,
            budget,
            start_time,
        };
    }

    fn alr_start_time(&self) -> (start: Option<Instant>) {
        self.start_time
    }
}

/// The state after a run of packets.
pub open spec fn after_sending(state: AlrState, sent: Seq<(DataSize, Instant)>) -> AlrState
    decreases sent.len(),
{
    if sent.len() == 0 {
        state
    } else {
        after_sending(state, sent.drop_last()).on_bytes(sent.last().0.bytes as nat, sent.last().1)
    }
}

/// Whether every packet of a run makes up for the budget that has grown since the one before it,
/// within the window.
pub open spec fn uses_its_share(state: AlrState, sent: Seq<(DataSize, Instant)>) -> bool {
    forall|i: int|
        0 <= i < sent.len() ==> {
            let before = if i == 0 {
                state.last_send_time
            } else {
                Some(sent[i - 1].1)
            };
            before matches Some(last) ==> {
                let nanos = time_between(last, (#[trigger] sent[i]).1).nanos;
                &&& nanos <= WINDOW_NANOS
                &&& state.target * nanos <= sent[i].0.bytes * BUDGET_PER_BYTE
            }
        }
}

/// Every packet counts: an application whose packets make up for the budget as it grows is never
/// found to limit its own rate.
pub proof fn law_full_use_is_not_application_limited(
    state: AlrState,
    sent: Seq<(DataSize, Instant)>,
)
    requires
        state.start_time is None,
        -state.full() <= state.budget <= 0,
        uses_its_share(state, sent),
    ensures
        after_sending(state, sent).start_time is None,
        -state.full() <= after_sending(state, sent).budget <= 0,
        after_sending(state, sent).target == state.target,
        sent.len() > 0 ==> after_sending(state, sent).last_send_time == Some(sent.last().1),
        sent.len() == 0 ==> after_sending(state, sent).last_send_time == state.last_send_time,
    decreases sent.len(),
{
    if sent.len() > 0 {
        let shorter = sent.drop_last();
        let last = sent.last();
        assert(uses_its_share(state, shorter)) by {
            assert forall|i: int| 0 <= i < shorter.len() implies shorter[i] == sent[i] by {}
        }
        law_full_use_is_not_application_limited(state, shorter);
        let before = after_sending(state, shorter);
        assert(sent[sent.len() - 1] == last);
        if before.last_send_time is Some {
            let nanos = time_between(before.last_send_time->0, last.1).nanos;
            assert(nanos <= WINDOW_NANOS);
            assert(0 <= state.target * nanos <= state.target * WINDOW_NANOS) by (nonlinear_arith)
                requires
                    0 <= nanos <= WINDOW_NANOS,
                    0 <= state.target,
            ;
        }
    }
}

/// The budget grows with time and shrinks with what is sent, as far as it goes. Neither it nor a
/// debt ever exceeds the full budget, and a long silence fills it.
pub proof fn law_budget_counts_what_flows(state: AlrState, bytes: nat, nanos: nat)
    requires
        -state.full() <= state.budget <= state.full(),
    ensures
        ({
            let spent = state.budget - bytes * 8_000_000_000_000_000;
            let after = state.budget_after(bytes, nanos);
            &&& state.full() == state.target * 500_000_000
            &&& -state.full() <= after <= state.full()
            &&& -state.full() <= spent && spent + state.target * nanos <= state.full() ==> after
                == spent + state.target * nanos
            &&& nanos >= 1_000_000_000 ==> after == state.full()
        }),
{
    assert(state.target * nanos >= 0) by (nonlinear_arith);
    if nanos >= 1_000_000_000 {
        assert(state.target * nanos >= state.target * 1_000_000_000) by (nonlinear_arith)
            requires
                nanos >= 1_000_000_000,
        ;
    }
}

/// The application limits its own rate from a budget of more than four fifths on, to one of less
/// than half. In between that stays as it was.
pub proof fn law_limits_start_well_filled_and_end_half_empty(
    state: AlrState,
    size: DataSize,
    last: Instant,
    now: Instant,
)
    requires
        state.last_send_time == Some(last),
    ensures
        ({
            let after = state.on_bytes(size.bytes as nat, now);
            &&& after.last_send_time == Some(now)
            &&& after.target == state.target
            &&& state.start_time is None && 5 * after.budget > 4 * state.full()
                ==> after.start_time == Some(now)
            &&& state.start_time is None && 5 * after.budget <= 4 * state.full()
                ==> after.start_time is None
            &&& state.start_time is Some && state.full() > 0 && 2 * after.budget >= state.full()
                ==> after.start_time == state.start_time
            &&& state.start_time is Some && 2 * after.budget < state.full()
                ==> after.start_time is None
        }),
{
}

/// The budget grows at 65 hundredths of the estimate, rounded down.
pub proof fn law_budget_grows_with_the_estimate(state: AlrState, estimate: Bitrate)
    ensures
        ({
            let after = state.on_estimate(estimate);
            let millionths = millionths_of(estimate.bits as nat);
            &&& 100 * after.target <= 65 * millionths < 100 * (after.target + 1)
            &&& after.last_send_time == state.last_send_time
            &&& after.start_time == state.start_time
            &&& -after.full() <= after.budget <= after.full()
            &&& -after.full() <= state.budget <= after.full() ==> after.budget == state.budget
        }),
{
    let target = state.on_estimate(estimate).target;
    assert(target * WINDOW_NANOS >= 0) by (nonlinear_arith);
}

/// The detector goes by every packet with its size. The first one only starts the clock.
pub proof fn law_detector_goes_by_every_packet(state: AlrState, size: DataSize, now: Instant)
    ensures
        BudgetAlrDetector::start_time_of(state) == state.start_time,
        ({
            let after = <BudgetAlrDetector as AlrDetector>::on_bytes(state, size, now);
            &&& after.last_send_time == Some(now)
            &&& after.target == state.target
            &&& state.last_send_time is None ==> after.budget == state.budget && after.start_time
                == state.start_time
            &&& state.last_send_time matches Some(last) ==> {
                &&& last.nanos <= now.nanos ==> after.budget == state.budget_after(
                    size.bytes as nat,
                    (now.nanos - last.nanos) as nat,
                )
                &&& now.nanos <= last.nanos ==> after.budget == state.budget_after(
                    size.bytes as nat,
                    0,
                )
            }
        }),
{
}

} // verus!
