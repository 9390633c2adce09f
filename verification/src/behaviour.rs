//! What the operations do, said of their inputs and results alone.
//!
//! The laws here speak of what the parts are handed and of what they answer, of times in
//! nanoseconds and of counts. None of them goes by the way in which a result is worked out.
use crate::estimator::{acked_after, capacity_after, EstimatorState, SendSideBandwidthEstimator};
use crate::handle::{Bwe, BweState};
use crate::packet::AckedPacket;
use crate::parts::{
    AckedBitrateEstimator, AlrDetector, BandwidthLimitedCause, DelayController, EstimateSmoother,
    LinkCapacityEstimator, LossBasedResult, LossController, LossControllerState, Parts,
    ProbeControl, ProbeEstimator,
};
use crate::receive_order::{acked_packets, by_receive_time, lost_packets};
use crate::replay::{ReplayParts, ReplaySmoother};
use crate::rules::limited_probe;
use crate::timeout::{soonest_of, Reason};
use crate::twcc::{ProbeClusterConfig, TwccSendRecord};
use crate::units::{Bitrate, Duration, Instant};
use vstd::prelude::*;

verus! {

/// What a report comes to in the parts that measure: the acknowledged packets in receive order,
/// the acknowledged rate after them, the probe result to believe, and what the delay based
/// controller answers when it is handed these.
pub open spec fn comes_to<P: Parts>(
    state: EstimatorState<P>,
    records: Seq<TwccSendRecord>,
    now: Instant,
    packets: Seq<AckedPacket>,
    rate: Option<Bitrate>,
    probe: Option<Bitrate>,
    answer: Option<Bitrate>,
) -> bool {
    let results = P::ProbeResults::on_records(state.probe_estimator, records).1;
    &&& packets == by_receive_time(acked_packets(records))
    &&& rate == P::Acked::estimate_of(
        acked_after::<P::Acked>(state.acked_bitrate_estimator, packets),
    )
    &&& results.len() == 0 ==> probe is None
    &&& results.len() > 0 ==> probe == Some(
        limited_probe(
            results[results.len() - 1].1,
            rate,
            P::Delay::estimate_of(state.delay_controller),
        ),
    )
    &&& answer == P::Delay::on_update(state.delay_controller, packets, rate, probe, now).1
}

/// Whether a report comes no later than two seconds after the first one.
pub open spec fn is_early(started_at: Option<Instant>, now: Instant) -> bool {
    started_at matches Some(start) ==> now.nanos <= start.nanos + 2_000_000_000
}

/// Every measuring part gets the whole report: the evaluation of probes the records as they came,
/// the acknowledged rate and the delay based controller the acknowledged packets in receive order,
/// and the link capacity every completed probe. The first report is the one that starts the clock.
pub proof fn law_report_reaches_every_measuring_part<P: Parts>(
    state: EstimatorState<P>,
    records: Seq<TwccSendRecord>,
    now: Instant,
    packets: Seq<AckedPacket>,
    rate: Option<Bitrate>,
    probe: Option<Bitrate>,
    answer: Option<Bitrate>,
)
    requires
        comes_to(state, records, now, packets, rate, probe, answer),
    ensures
        ({
            let after = state.on_update(records, now);
            let (probe_estimator, results) = P::ProbeResults::on_records(
                state.probe_estimator,
                records,
            );
            &&& after.probe_estimator == probe_estimator
            &&& after.acked_bitrate_estimator == acked_after::<P::Acked>(
                state.acked_bitrate_estimator,
                packets,
            )
            &&& after.link_capacity_estimator == capacity_after::<P::Capacity>(
                state.link_capacity_estimator,
                results,
                now,
            )
            &&& after.delay_controller == P::Delay::on_update(
                state.delay_controller,
                packets,
                rate,
                probe,
                now,
            ).0
            &&& after.started_at == Some(
                if state.started_at is Some {
                    state.started_at->0
                } else {
                    now
                },
            )
        }),
{
}

/// A report on which the delay based controller gives no estimate changes nothing else.
pub proof fn law_report_without_answer_changes_nothing_else<P: Parts>(
    state: EstimatorState<P>,
    records: Seq<TwccSendRecord>,
    now: Instant,
    packets: Seq<AckedPacket>,
    rate: Option<Bitrate>,
    probe: Option<Bitrate>,
)
    requires
        comes_to(state, records, now, packets, rate, probe, None),
    ensures
        state.on_update(records, now).loss_controller == state.loss_controller,
        state.on_update(records, now).probe_control == state.probe_control,
        state.on_update(records, now).alr_detector == state.alr_detector,
        state.on_update(records, now).last_updated_estimate == state.last_updated_estimate,
{
}

/// Within two seconds of the first report, a report with no more than one packet in a thousand
/// lost gives the loss based controller the delay based estimate as it is, and does not count for
/// it. Nobody else is told.
pub proof fn law_early_clean_report_sets_the_loss_estimate<P: Parts>(
    state: EstimatorState<P>,
    records: Seq<TwccSendRecord>,
    now: Instant,
    packets: Seq<AckedPacket>,
    rate: Option<Bitrate>,
    probe: Option<Bitrate>,
    delay_estimate: Bitrate,
)
    requires
        comes_to(state, records, now, packets, rate, probe, Some(delay_estimate)),
        is_early(state.started_at, now),
        1_000 * lost_packets(records) <= records.len(),
    ensures
        state.on_update(records, now).loss_controller == P::Loss::on_bandwidth_estimate(
            state.loss_controller,
            delay_estimate,
        ),
        state.on_update(records, now).probe_control == state.probe_control,
        state.on_update(records, now).alr_detector == state.alr_detector,
        state.on_update(records, now).last_updated_estimate == state.last_updated_estimate,
{
}

/// Every other report with a delay based estimate counts for the loss based controller: later than
/// two seconds after the first one, with loss or without, and before that with loss. The
/// controller takes in all records. Before that its estimate is set to the delay based one where
/// a probe has completed, and its acknowledged rate where that is known. After that its estimate
/// is set to the delay based one where it exceeds it.
pub proof fn law_every_other_report_counts_for_loss<P: Parts>(
    state: EstimatorState<P>,
    records: Seq<TwccSendRecord>,
    now: Instant,
    packets: Seq<AckedPacket>,
    rate: Option<Bitrate>,
    probe: Option<Bitrate>,
    delay_estimate: Bitrate,
    probed: <P::Loss as View>::V,
    informed: <P::Loss as View>::V,
)
    requires
        comes_to(state, records, now, packets, rate, probe, Some(delay_estimate)),
        !is_early(state.started_at, now) || 1_000 * lost_packets(records) > records.len(),
        probe is None ==> probed == state.loss_controller,
        probe is Some ==> probed == P::Loss::on_bandwidth_estimate(
            state.loss_controller,
            delay_estimate,
        ),
        rate is None ==> informed == probed,
        rate matches Some(known) ==> informed == P::Loss::on_acknowledged_bitrate(probed, known),
    ensures
        ({
            let counted = P::Loss::on_update(informed, records, delay_estimate);
            let made = P::Loss::result_of(counted).bandwidth_estimate;
            let after = state.on_update(records, now).loss_controller;
            &&& made is None ==> after == counted
            &&& made is Some && made->0.bits <= delay_estimate.bits ==> after == counted
            &&& made is Some && made->0.bits > delay_estimate.bits ==> after
                == P::Loss::on_bandwidth_estimate(counted, delay_estimate)
        }),
{
}

/// After a report that counts, the control of probes and the detector of application limits have
/// been told the estimate that it leaves behind, once, if it is not the one that they were last
/// told. Otherwise they are as they were.
pub proof fn law_counting_report_tells_the_estimate_it_leaves<P: Parts>(
    state: EstimatorState<P>,
    records: Seq<TwccSendRecord>,
    now: Instant,
    packets: Seq<AckedPacket>,
    rate: Option<Bitrate>,
    probe: Option<Bitrate>,
    delay_estimate: Bitrate,
)
    requires
        comes_to(state, records, now, packets, rate, probe, Some(delay_estimate)),
        !is_early(state.started_at, now) || 1_000 * lost_packets(records) > records.len(),
    ensures
        ({
            let after = state.on_update(records, now);
            let estimate = after.last_estimate();
            &&& estimate is None || estimate == state.last_updated_estimate ==> {
                &&& after.probe_control == state.probe_control
                &&& after.alr_detector == state.alr_detector
                &&& after.last_updated_estimate == state.last_updated_estimate
            }
            &&& estimate is Some && estimate != state.last_updated_estimate ==> {
                &&& after.probe_control == P::Probes::on_estimate(
                    state.probe_control,
                    estimate->0,
                    after.cause(),
                )
                &&& after.alr_detector == P::Alr::on_estimate(state.alr_detector, estimate->0)
                &&& after.last_updated_estimate == estimate
            }
        }),
{
}

/// Telling the parts touches the control of probes, the detector of application limits and the
/// note of what was told. All else stays.
pub proof fn law_telling_leaves_the_rest<P: Parts>(state: EstimatorState<P>)
    ensures
        state.propagated().delay_controller == state.delay_controller,
        state.propagated().loss_controller == state.loss_controller,
        state.propagated().acked_bitrate_estimator == state.acked_bitrate_estimator,
        state.propagated().probe_estimator == state.probe_estimator,
        state.propagated().started_at == state.started_at,
        state.propagated().link_capacity_estimator == state.link_capacity_estimator,
{
}

/// Each completed probe counts for the link capacity in turn, if the application limited its own
/// rate when it was sent, and does not otherwise.
pub proof fn law_each_probe_counts_for_capacity_in_turn<C: LinkCapacityEstimator>(
    capacity: C::V,
    results: Seq<(ProbeClusterConfig, Bitrate)>,
    next: (ProbeClusterConfig, Bitrate),
    now: Instant,
)
    ensures
        capacity_after::<C>(capacity, Seq::empty(), now) == capacity,
        next.0.alr_probe ==> capacity_after::<C>(capacity, results.push(next), now) == C::on_probe(
            capacity_after::<C>(capacity, results, now),
            next.1,
            now,
        ),
        !next.0.alr_probe ==> capacity_after::<C>(capacity, results.push(next), now)
            == capacity_after::<C>(capacity, results, now),
{
    assert(results.push(next).drop_last() == results);
}

/// Each acknowledged packet counts for the acknowledged rate in turn, with the time at which the
/// remote received it.
pub proof fn law_each_packet_counts_for_the_rate_in_turn<A: AckedBitrateEstimator>(
    acked: A::V,
    packets: Seq<AckedPacket>,
    next: AckedPacket,
)
    ensures
        acked_after::<A>(acked, Seq::empty()) == acked,
        acked_after::<A>(acked, packets.push(next)) == A::on_packet(
            acked_after::<A>(acked, packets),
            next.remote_recv_time,
            next.size,
        ),
{
    assert(packets.push(next).drop_last() == packets);
}

/// A timeout tells the delay based controller the acknowledged rate, and the loss based controller
/// since when the application limits its own rate and what the link can carry. What measures
/// packets and capacity, and the start, stay as they are.
pub proof fn law_timeout_brings_the_controllers_up_to_date<P: Parts>(
    state: EstimatorState<P>,
    desired: Bitrate,
    do_probe: bool,
    now: Instant,
)
    ensures
        ({
            let after = state.on_timeout(desired, do_probe, now).0;
            &&& after.delay_controller == P::Delay::on_timeout(
                state.delay_controller,
                P::Acked::estimate_of(state.acked_bitrate_estimator),
                now,
            )
            &&& after.loss_controller == P::Loss::on_link_capacity(
                P::Loss::on_alr_start_time(
                    state.loss_controller,
                    P::Alr::start_time_of(state.alr_detector),
                ),
                P::Capacity::capacity_of(state.link_capacity_estimator, now),
            )
            &&& do_probe ==> after.probe_estimator == P::ProbeResults::on_timeout(
                state.probe_estimator,
                now,
            )
            &&& !do_probe ==> after.probe_estimator == P::ProbeResults::on_clear(
                P::ProbeResults::on_timeout(state.probe_estimator, now),
            )
            &&& after.acked_bitrate_estimator == state.acked_bitrate_estimator
            &&& after.link_capacity_estimator == state.link_capacity_estimator
            &&& after.started_at == state.started_at
        }),
{
}

/// The probe that a timeout starts is the one that the control of probes names when it is switched
/// as the caller says, whatever the estimate. Before that the control has been told the desired
/// rate, then whether the application limits its own rate, then the estimate that the timeout
/// leaves behind, if that is not the one it was last told. The detector of application limits is
/// told the estimate along with it.
pub proof fn law_timeout_starts_the_probe_that_is_due<P: Parts>(
    state: EstimatorState<P>,
    desired: Bitrate,
    do_probe: bool,
    now: Instant,
    limited: <P::Probes as View>::V,
    told: <P::Probes as View>::V,
)
    requires
        P::Alr::start_time_of(state.alr_detector) is None ==> limited == P::Probes::on_alr_stop(
            P::Probes::on_desired_bitrate(state.probe_control, desired),
            now,
        ),
        P::Alr::start_time_of(state.alr_detector) matches Some(start) ==> limited
            == P::Probes::on_alr_start(
            P::Probes::on_desired_bitrate(state.probe_control, desired),
            start,
        ),
        ({
            let after = state.on_timeout(desired, do_probe, now).0;
            let estimate = after.last_estimate();
            &&& estimate is None || estimate == state.last_updated_estimate ==> told == limited
            &&& estimate is Some && estimate != state.last_updated_estimate ==> told
                == P::Probes::on_estimate(limited, estimate->0, after.cause())
        }),
    ensures
        ({
            let (after, probe) = state.on_timeout(desired, do_probe, now);
            let (control, due) = P::Probes::on_timeout(P::Probes::on_enable(told, do_probe), now);
            let estimate = after.last_estimate();
            &&& probe == due
            &&& after.probe_control == control
            &&& estimate is None || estimate == state.last_updated_estimate ==> {
                &&& after.alr_detector == state.alr_detector
                &&& after.last_updated_estimate == state.last_updated_estimate
            }
            &&& estimate is Some && estimate != state.last_updated_estimate ==> {
                &&& after.alr_detector == P::Alr::on_estimate(state.alr_detector, estimate->0)
                &&& after.last_updated_estimate == estimate
            }
        }),
{
}

/// With the replaying control of probes, a timeout with probing switched on starts the probe that
/// was put in, whatever the estimate, and one with probing switched off starts none and leaves it
/// in.
pub proof fn law_replayed_probe_starts_whatever_the_estimate(
    state: EstimatorState<ReplayParts>,
    desired: Bitrate,
    now: Instant,
)
    ensures
        state.on_timeout(desired, true, now).1 == state.probe_control.reply,
        state.on_timeout(desired, true, now).0.probe_control.reply is None,
        state.on_timeout(desired, false, now).1 is None,
        state.on_timeout(desired, false, now).0.probe_control.reply == state.probe_control.reply,
{
}

/// The estimate in the cases that there are. While loss does not limit the bandwidth, it is the
/// delay based one. While loss limits it, or has done so and it recovers, it is the lower of the
/// two, or the one that there is.
pub proof fn law_estimate_case_by_case<P: Parts>(
    state: EstimatorState<P>,
    delay: Bitrate,
    limit: Bitrate,
)
    ensures
        ({
            let loss = P::Loss::result_of(state.loss_controller);
            let delay_estimate = P::Delay::estimate_of(state.delay_controller);
            &&& loss.state == LossControllerState::DelayBased ==> state.last_estimate()
                == delay_estimate
            &&& loss.state != LossControllerState::DelayBased ==> {
                &&& delay_estimate == Some(delay) && loss.bandwidth_estimate == Some(limit)
                    && delay.bits <= limit.bits ==> state.last_estimate() == Some(delay)
                &&& delay_estimate == Some(delay) && loss.bandwidth_estimate == Some(limit)
                    && limit.bits <= delay.bits ==> state.last_estimate() == Some(limit)
                &&& delay_estimate is None ==> state.last_estimate() == loss.bandwidth_estimate
                &&& loss.bandwidth_estimate is None ==> state.last_estimate() == delay_estimate
            }
        }),
{
}

/// The cause in the cases that there are.
pub proof fn law_cause_case_by_case<P: Parts>(state: EstimatorState<P>)
    ensures
        ({
            let loss = P::Loss::result_of(state.loss_controller).state;
            &&& P::Delay::overuse_of(state.delay_controller) ==> state.cause()
                == BandwidthLimitedCause::DelayBasedLimitedDelayIncreased
            &&& !P::Delay::overuse_of(state.delay_controller) ==> {
                &&& loss == LossControllerState::DelayBased ==> state.cause()
                    == BandwidthLimitedCause::DelayBasedLimited
                &&& loss == LossControllerState::Increasing ==> state.cause()
                    == BandwidthLimitedCause::LossLimitedBweIncreasing
                &&& loss == LossControllerState::Decreasing ==> state.cause()
                    == BandwidthLimitedCause::LossLimitedBwe
            }
        }),
{
}

/// Of two timeouts the earlier one is next. At the same time it is the second one, and one that
/// never comes is next only where the other never comes either.
pub proof fn law_earlier_timeout_is_next(
    at: Instant,
    other_at: Instant,
    reason: Reason,
    other: Reason,
)
    ensures
        at.nanos < other_at.nanos ==> soonest_of((Some(at), reason), (Some(other_at), other)) == (
            Some(at),
            reason,
        ),
        other_at.nanos <= at.nanos ==> soonest_of((Some(at), reason), (Some(other_at), other)) == (
            Some(other_at),
            other,
        ),
        soonest_of((Some(at), reason), (None, other)) == (Some(at), reason),
        soonest_of((None, reason), (Some(at), other)) == (Some(at), other),
        soonest_of((None, reason), (None, other)).0 is None,
{
}

/// The next timeout comes with the reason that is due: the delay based controller where it is
/// earlier than both others, the evaluation of probes where neither other is earlier, and the
/// control of probes in between.
pub proof fn law_next_timeout_has_the_reason_that_is_due<P: Parts>(state: EstimatorState<P>)
    ensures
        ({
            let delay = P::Delay::timeout_of(state.delay_controller);
            let control = P::Probes::timeout_of(state.probe_control);
            let results = P::ProbeResults::timeout_of(state.probe_estimator);
            &&& results.nanos <= delay.nanos && results.nanos <= control.nanos ==> state.timeout()
                == (Some(results), Reason::BweProbeEstimator)
            &&& control.nanos <= delay.nanos && control.nanos < results.nanos ==> state.timeout()
                == (Some(control), Reason::BweProbeControl)
            &&& delay.nanos < control.nanos && delay.nanos < results.nanos ==> state.timeout() == (
                Some(delay),
                Reason::BweDelayControl,
            )
        }),
{
}

/// A new estimator has new parts. The delay based controller, the loss based one and the detector
/// of application limits start from the initial estimate. The acknowledged rate has a window of
/// half a second at first and of 150 milliseconds from then on.
pub proof fn law_new_estimator_has_new_parts<P: Parts>(initial: Bitrate)
    ensures
        ({
            let new = EstimatorState::<P>::start(initial);
            &&& new.delay_controller == P::Delay::start(initial)
            &&& new.loss_controller == P::Loss::on_bandwidth_estimate(P::Loss::start(), initial)
            &&& new.acked_bitrate_estimator == P::Acked::start(
                Duration { nanos: 500_000_000 },
                Duration { nanos: 150_000_000 },
            )
            &&& new.probe_control == P::Probes::start()
            &&& new.probe_estimator == P::ProbeResults::start()
            &&& new.alr_detector == P::Alr::on_estimate(P::Alr::start(), initial)
            &&& new.link_capacity_estimator == P::Capacity::start()
            &&& new.started_at is None
            &&& new.last_updated_estimate is None
        }),
{
}

/// A new session has a new estimator and a new smoother, with nothing allocated and nothing
/// desired.
pub proof fn law_new_session_is_empty<P: Parts>(initial: Bitrate)
    ensures
        BweState::<P>::start(initial).bwe == EstimatorState::<P>::start(initial),
        BweState::<P>::start(initial).current_bitrate.bits == 0,
        BweState::<P>::start(initial).desired_bitrate.bits == 0,
        BweState::<P>::start(initial).smoother == P::Smoother::start(),
{
}

/// A timeout of a session is one of its estimator, with the rate that the application desires.
/// After it the smoother has recorded the estimate that there is, whatever the state of the
/// parts, and nothing where there is none. What the application has set stays.
pub proof fn law_timeout_records_the_estimate_it_leaves<P: Parts>(
    state: BweState<P>,
    do_probe: bool,
    now: Instant,
)
    ensures
        ({
            let (after, probe) = state.on_timeout(do_probe, now);
            let (bwe, due) = state.bwe.on_timeout(state.desired_bitrate, do_probe, now);
            &&& probe == due
            &&& after.bwe == bwe
            &&& after.bwe.last_estimate() matches Some(estimate) ==> after.smoother
                == P::Smoother::on_record(state.smoother, now, estimate)
            &&& after.bwe.last_estimate() is None ==> after.smoother == state.smoother
            &&& after.current_bitrate == state.current_bitrate
            &&& after.desired_bitrate == state.desired_bitrate
        }),
{
}

/// With the replaying smoother, a poll right after a timeout gives the estimate that the timeout
/// leaves behind, where there is one, and what a poll before it would have given otherwise.
pub proof fn law_replayed_poll_gives_the_estimate_of_the_timeout(
    state: BweState<ReplayParts>,
    do_probe: bool,
    now: Instant,
)
    ensures
        ({
            let after = state.on_timeout(do_probe, now).0;
            let polled = ReplaySmoother::on_poll(
                after.smoother,
            ).1;
            let before = ReplaySmoother::on_poll(
                state.smoother,
            ).1;
            &&& after.bwe.last_estimate() is Some ==> polled == after.bwe.last_estimate()
            &&& after.bwe.last_estimate() is None ==> polled == before
        }),
{
}

/// The state of an estimator shows every part and all that it keeps itself.
pub proof fn law_state_shows_everything<P: Parts>(estimator: SendSideBandwidthEstimator<P>)
    ensures
        estimator@.delay_controller == estimator.delay_controller@,
        estimator@.loss_controller == estimator.loss_controller@,
        estimator@.acked_bitrate_estimator == estimator.acked_bitrate_estimator@,
        estimator@.probe_control == estimator.probe_control@,
        estimator@.probe_estimator == estimator.probe_estimator@,
        estimator@.started_at == estimator.started_at,
        estimator@.alr_detector == estimator.alr_detector@,
        estimator@.link_capacity_estimator == estimator.link_capacity_estimator@,
        estimator@.last_updated_estimate == estimator.last_updated_estimate,
{
}

/// The state of a session shows its estimator, its smoother and what the application has set.
pub proof fn law_session_state_shows_everything<P: Parts>(session: Bwe<P>)
    ensures
        session@.bwe == session.bwe@,
        session@.current_bitrate == session.current_bitrate,
        session@.desired_bitrate == session.desired_bitrate,
        session@.smoother == session.smoother@,
{
}

/// With the replaying controllers, a report that counts leaves behind what they were to answer:
/// the delay based estimate, or the loss based one where that is lower and loss is said to limit
/// the bandwidth. The delay based controller has been handed the packets in receive order.
pub proof fn law_replayed_report_gives_the_lower_estimate(
    state: EstimatorState<ReplayParts>,
    records: Seq<TwccSendRecord>,
    now: Instant,
    delay: Bitrate,
    loss: LossBasedResult,
)
    requires
        state.delay_controller.reply == Some(delay),
        state.loss_controller.reply == Some(loss),
        !is_early(state.started_at, now) || 1_000 * lost_packets(records) > records.len(),
    ensures
        ({
            let after = state.on_update(records, now);
            let limit = loss.bandwidth_estimate;
            &&& after.delay_controller.packets == by_receive_time(acked_packets(records))
            &&& after.delay_controller.last_estimate == Some(delay)
            &&& after.loss_controller.result.state == loss.state
            &&& loss.state == LossControllerState::DelayBased ==> after.last_estimate() == Some(
                delay,
            )
            &&& limit is None ==> after.last_estimate() == Some(delay)
            &&& limit is Some && limit->0.bits > delay.bits ==> after.last_estimate() == Some(delay)
            &&& loss.state != LossControllerState::DelayBased && limit is Some && limit->0.bits
                <= delay.bits ==> after.last_estimate() == limit
        }),
{
}

} // verus!
