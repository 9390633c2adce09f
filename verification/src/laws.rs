//! What holds of the bandwidth estimator whatever its parts do.
use crate::estimator::EstimatorState;
use crate::handle::BweState;
use crate::parts::{
    cluster_feedback, AckedBitrateEstimator, AlrDetector, BandwidthLimitedCause, DelayController,
    LossController, LossControllerState, Parts, ProbeControl, ProbeEstimator, ProbeWatch,
};
use crate::receive_order::lost_packets;
use crate::rules::{is_negligible_loss, is_startup};
use crate::timeout::Reason;
use crate::twcc::{ProbeClusterConfig, TwccClusterId, TwccSendRecord};
use crate::units::{time_between, Bitrate, DataSize, Instant};
use vstd::prelude::*;

verus! {

/// The delay based estimate is the upper limit of the estimate.
pub proof fn law_delay_estimate_is_upper_limit<P: Parts>(state: EstimatorState<P>)
    ensures
        P::Delay::estimate_of(state.delay_controller) matches Some(delay) ==> {
            &&& state.last_estimate() is Some
            &&& state.last_estimate()->0.bits <= delay.bits
        },
{
}

/// Loss limits the estimate only in a state in which it says so. In any other state the delay
/// based estimate stands as it is.
pub proof fn law_loss_limits_only_when_it_says_so<P: Parts>(state: EstimatorState<P>)
    ensures
        ({
            let loss = P::Loss::result_of(state.loss_controller);
            let delay_estimate = P::Delay::estimate_of(state.delay_controller);
            &&& loss.state == LossControllerState::DelayBased ==> state.last_estimate()
                == delay_estimate
            &&& loss.state != LossControllerState::DelayBased ==> {
                &&& loss.bandwidth_estimate matches Some(limit) ==> {
                    &&& state.last_estimate() is Some
                    &&& state.last_estimate()->0.bits <= limit.bits
                }
                &&& loss.bandwidth_estimate is None ==> state.last_estimate() == delay_estimate
                &&& state.last_estimate() is Some ==> state.last_estimate() == delay_estimate
                    || state.last_estimate() == loss.bandwidth_estimate
            }
        }),
{
}

/// Overuse is named as the cause whatever loss does. Without overuse the cause tells the state of
/// the loss based controller.
pub proof fn law_overuse_is_the_first_cause<P: Parts>(state: EstimatorState<P>)
    ensures
        ({
            let loss = P::Loss::result_of(state.loss_controller).state;
            let overuse = P::Delay::overuse_of(state.delay_controller);
            &&& state.cause() == BandwidthLimitedCause::DelayBasedLimitedDelayIncreased <==> overuse
            &&& state.cause() == BandwidthLimitedCause::DelayBasedLimited <==> !overuse && loss
                == LossControllerState::DelayBased
            &&& state.cause() == BandwidthLimitedCause::LossLimitedBweIncreasing <==> !overuse
                && loss == LossControllerState::Increasing
            &&& state.cause() == BandwidthLimitedCause::LossLimitedBwe <==> !overuse && loss
                == LossControllerState::Decreasing
        }),
{
}

/// Telling the parts changes neither the estimate nor its cause, and to tell them twice is to tell
/// them once.
pub proof fn law_propagation_is_idempotent<P: Parts>(state: EstimatorState<P>)
    ensures
        state.propagated().last_estimate() == state.last_estimate(),
        state.propagated().cause() == state.cause(),
        state.propagated().propagated() == state.propagated(),
{
}

/// The parts are told of a change, and of nothing else: an estimate that they know, or none at
/// all, leaves them as they are.
pub proof fn law_parts_are_told_only_of_a_change<P: Parts>(state: EstimatorState<P>)
    ensures
        state.last_estimate() is None || state.last_estimate() == state.last_updated_estimate
            ==> state.propagated() == state,
        state.last_estimate() matches Some(estimate) ==> {
            &&& state.propagated().last_updated_estimate == Some(estimate)
            &&& state.last_updated_estimate != Some(estimate) ==> {
                &&& state.propagated().probe_control == P::Probes::on_estimate(
                    state.probe_control,
                    estimate,
                    state.cause(),
                )
                &&& state.propagated().alr_detector == P::Alr::on_estimate(
                    state.alr_detector,
                    estimate,
                )
            }
        },
{
}

/// A timeout leaves no part behind: the estimate, where there is one, is the one that the parts
/// were told.
pub proof fn law_timeout_leaves_parts_informed<P: Parts>(
    state: EstimatorState<P>,
    desired: Bitrate,
    do_probe: bool,
    now: Instant,
)
    ensures
        ({
            let after = state.on_timeout(desired, do_probe, now).0;
            after.last_estimate() is Some ==> after.last_updated_estimate == after.last_estimate()
        }),
{
    law_propagation_is_idempotent(state.refreshed(desired, now));
}

/// A report that gives a delay based estimate outside the startup phase, or with loss, leaves no
/// part behind either.
pub proof fn law_counting_report_leaves_parts_informed<P: Parts>(
    state: EstimatorState<P>,
    records: Seq<TwccSendRecord>,
    now: Instant,
)
    requires
        state.measured(records, now).2 is Some,
        !is_startup(state.measured(records, now).0.started_at, now) || !is_negligible_loss(
            lost_packets(records),
            records.len(),
        ),
    ensures
        ({
            let after = state.on_update(records, now);
            after.last_estimate() is Some ==> after.last_updated_estimate == after.last_estimate()
        }),
{
}

/// The loss based estimate is capped by the delay based one: after a report that gives a delay
/// based estimate, it does not exceed that.
pub proof fn law_loss_estimate_is_capped<P: Parts>(
    state: EstimatorState<P>,
    records: Seq<TwccSendRecord>,
    now: Instant,
)
    ensures
        state.measured(records, now).2 matches Some(delay_estimate) ==> {
            P::Loss::result_of(state.on_update(records, now).loss_controller).bandwidth_estimate
                matches Some(estimate) ==> estimate.bits <= delay_estimate.bits
        },
{
    let (measured, probe_result, reply) = state.measured(records, now);
    if reply is Some {
        let delay_estimate = reply->0;
        let loss = measured.loss_controller;
        P::Loss::estimate_is_set(loss, delay_estimate);
        let probed = if probe_result is Some {
            P::Loss::on_bandwidth_estimate(loss, delay_estimate)
        } else {
            loss
        };
        let acknowledged = match P::Acked::estimate_of(measured.acked_bitrate_estimator) {
            Some(rate) => P::Loss::on_acknowledged_bitrate(probed, rate),
            None => probed,
        };
        P::Loss::estimate_is_set(
            P::Loss::on_update(acknowledged, records, delay_estimate),
            delay_estimate,
        );
    }
}

/// A report that gives no delay based estimate concerns the measuring parts alone: the loss based
/// controller, the control of probes, the detector of application limits and the estimate that
/// they were told stay as they are.
pub proof fn law_report_without_delay_estimate_only_measures<P: Parts>(
    state: EstimatorState<P>,
    records: Seq<TwccSendRecord>,
    now: Instant,
)
    requires
        state.measured(records, now).2 is None,
    ensures
        state.on_update(records, now) == state.measured(records, now).0,
        state.on_update(records, now).loss_controller == state.loss_controller,
        state.on_update(records, now).probe_control == state.probe_control,
        state.on_update(records, now).alr_detector == state.alr_detector,
        state.on_update(records, now).last_updated_estimate == state.last_updated_estimate,
{
}

/// In the startup phase, while loss is negligible, the delay based estimate is used directly: the
/// loss based controller has it as its own, and nothing else is told.
pub proof fn law_startup_uses_delay_estimate_directly<P: Parts>(
    state: EstimatorState<P>,
    records: Seq<TwccSendRecord>,
    now: Instant,
)
    requires
        state.measured(records, now).2 is Some,
        is_startup(state.measured(records, now).0.started_at, now),
        is_negligible_loss(lost_packets(records), records.len()),
    ensures
        P::Loss::result_of(state.on_update(records, now).loss_controller).bandwidth_estimate
            == state.measured(records, now).2,
        state.on_update(records, now).probe_control == state.probe_control,
        state.on_update(records, now).alr_detector == state.alr_detector,
        state.on_update(records, now).last_updated_estimate == state.last_updated_estimate,
{
    P::Loss::estimate_is_set(state.loss_controller, state.measured(records, now).2->0);
}

/// The first report starts the startup phase. Neither a later report nor a timeout moves its
/// start.
pub proof fn law_start_is_set_once<P: Parts>(
    state: EstimatorState<P>,
    records: Seq<TwccSendRecord>,
    desired: Bitrate,
    do_probe: bool,
    now: Instant,
)
    ensures
        state.started_at is None ==> state.on_update(records, now).started_at == Some(now),
        state.started_at is None ==> is_startup(state.on_update(records, now).started_at, now),
        state.started_at is Some ==> state.on_update(records, now).started_at == state.started_at,
        state.on_timeout(desired, do_probe, now).0.started_at == state.started_at,
{
}

/// A timeout makes the evaluation of probes forget them all where probing is switched off, and
/// only there.
pub proof fn law_probes_are_cleared_while_switched_off<P: Parts>(
    state: EstimatorState<P>,
    desired: Bitrate,
    now: Instant,
)
    ensures
        state.on_timeout(desired, false, now).0.probe_estimator == P::ProbeResults::on_clear(
            P::ProbeResults::on_timeout(state.probe_estimator, now),
        ),
        state.on_timeout(desired, true, now).0.probe_estimator == P::ProbeResults::on_timeout(
            state.probe_estimator,
            now,
        ),
{
}

/// The state after a start of a probe cluster, and whether it was accepted.
pub open spec fn after_probe_start<P: Parts>(
    state: EstimatorState<P>,
    config: ProbeClusterConfig,
    now: Instant,
) -> (EstimatorState<P>, bool) {
    let (probe_estimator, accepted) = P::ProbeResults::on_probe_start(
        state.probe_estimator,
        config,
        now,
    );
    (EstimatorState { probe_estimator, ..state }, accepted)
}

/// The state after the end of a probe cluster.
pub open spec fn after_probe_end<P: Parts>(
    state: EstimatorState<P>,
    now: Instant,
    cluster: TwccClusterId,
) -> EstimatorState<P> {
    EstimatorState {
        probe_estimator: P::ProbeResults::on_probe_end(state.probe_estimator, now, cluster),
        ..state
    }
}

/// The answer to a start tells whether the probe is looked for: an accepted one is, and one that
/// was not looked for before and is rejected is not. A rejected start leaves every probe as it
/// was. Either way the estimate and its cause, and with it overuse, stay as they are.
pub proof fn law_start_answers_whether_the_probe_is_watched<P: Parts>(
    state: EstimatorState<P>,
    config: ProbeClusterConfig,
    now: Instant,
    cluster: TwccClusterId,
)
    ensures
        ({
            let (after, accepted) = after_probe_start(state, config, now);
            let watch = P::ProbeResults::watch_of(after.probe_estimator, config.cluster);
            &&& accepted ==> watch == ProbeWatch::Sending
            &&& P::ProbeResults::watch_of(state.probe_estimator, config.cluster) == ProbeWatch::Off
                ==> (accepted <==> watch != ProbeWatch::Off)
            &&& !accepted ==> {
                &&& P::ProbeResults::watch_of(after.probe_estimator, cluster)
                    == P::ProbeResults::watch_of(state.probe_estimator, cluster)
                &&& P::ProbeResults::feedback_of(after.probe_estimator, cluster)
                    == P::ProbeResults::feedback_of(state.probe_estimator, cluster)
            }
            &&& after.last_estimate() == state.last_estimate()
            &&& after.cause() == state.cause()
        }),
{
    P::ProbeResults::accepted_is_watched(state.probe_estimator, config, now);
    P::ProbeResults::start_leaves_the_others(state.probe_estimator, config, now, config.cluster);
    P::ProbeResults::start_leaves_the_others(state.probe_estimator, config, now, cluster);
}

/// No probe is looked for once a timeout has switched probing off.
pub proof fn law_no_probe_is_watched_once_switched_off<P: Parts>(
    state: EstimatorState<P>,
    desired: Bitrate,
    now: Instant,
    cluster: TwccClusterId,
)
    ensures
        P::ProbeResults::watch_of(state.on_timeout(desired, false, now).0.probe_estimator, cluster)
            == ProbeWatch::Off,
{
    P::ProbeResults::clear_leaves_none(
        P::ProbeResults::on_timeout(state.probe_estimator, now),
        cluster,
    );
}

/// What an estimator goes through while probing is switched on.
pub enum Event {
    /// A report, and when it comes in.
    Report(Seq<TwccSendRecord>, Instant),
    /// A timeout, with the rate that the application would like to have.
    Timeout(Bitrate, Instant),
    /// A sent packet.
    Sent(DataSize, Instant),
    /// The start of a probe cluster.
    Start(ProbeClusterConfig, Instant),
    /// The end of a probe cluster.
    End(TwccClusterId, Instant),
}

/// The state after an event.
pub open spec fn after_event<P: Parts>(
    state: EstimatorState<P>,
    event: Event,
) -> EstimatorState<P> {
    match event {
        Event::Report(records, now) => state.on_update(records, now),
        Event::Timeout(desired, now) => state.on_timeout(desired, true, now).0,
        Event::Sent(size, now) => EstimatorState {
            alr_detector: P::Alr::on_bytes(state.alr_detector, size, now),
            ..state
        },
        Event::Start(config, now) => after_probe_start(state, config, now).0,
        Event::End(cluster, now) => after_probe_end(state, now, cluster),
    }
}

/// The state after a run of events.
pub open spec fn after_events<P: Parts>(
    state: EstimatorState<P>,
    events: Seq<Event>,
) -> EstimatorState<P>
    decreases events.len(),
{
    if events.len() == 0 {
        state
    } else {
        after_event(after_events(state, events.drop_last()), events.last())
    }
}

/// How many packets of a cluster the reports of a run show as acknowledged.
pub open spec fn reported(events: Seq<Event>, cluster: TwccClusterId) -> nat
    decreases events.len(),
{
    if events.len() == 0 {
        0
    } else {
        reported(events.drop_last(), cluster) + match events.last() {
            Event::Report(records, _) => cluster_feedback(records, cluster),
            _ => 0,
        }
    }
}

/// Whether an event is none that starts a cluster again, ends it while it is being sent, or comes
/// when the history since its end is over.
pub open spec fn leaves_watch<P: Parts>(
    event: Event,
    cluster: TwccClusterId,
    watch: ProbeWatch,
) -> bool {
    match event {
        Event::Report(_, _) => true,
        Event::Sent(_, _) => true,
        Event::Timeout(_, now) => match watch {
            ProbeWatch::Ended(at) => time_between(at, now).nanos
                <= P::ProbeResults::history().nanos,
            _ => true,
        },
        Event::Start(config, _) => config.cluster != cluster,
        Event::End(ended, _) => ended != cluster || watch != ProbeWatch::Sending,
    }
}

/// A probe that is looked for takes in every acknowledged packet of its own that reports show, and
/// stays looked for, whatever else happens meanwhile: timeouts within its history, sent packets,
/// and the start and the end of other probes.
pub proof fn law_watched_probe_takes_reports<P: Parts>(
    state: EstimatorState<P>,
    cluster: TwccClusterId,
    events: Seq<Event>,
)
    requires
        P::ProbeResults::watch_of(state.probe_estimator, cluster) != ProbeWatch::Off,
        forall|i: int|
            0 <= i < events.len() ==> leaves_watch::<P>(
                #[trigger] events[i],
                cluster,
                P::ProbeResults::watch_of(state.probe_estimator, cluster),
            ),
    ensures
        ({
            let after = after_events(state, events);
            &&& P::ProbeResults::watch_of(after.probe_estimator, cluster)
                == P::ProbeResults::watch_of(state.probe_estimator, cluster)
            &&& P::ProbeResults::feedback_of(after.probe_estimator, cluster)
                == P::ProbeResults::feedback_of(state.probe_estimator, cluster) + reported(
                events,
                cluster,
            )
        }),
    decreases events.len(),
{
    if events.len() > 0 {
        let watch = P::ProbeResults::watch_of(state.probe_estimator, cluster);
        let shorter = events.drop_last();
        assert forall|i: int| 0 <= i < shorter.len() implies leaves_watch::<P>(
            #[trigger] shorter[i],
            cluster,
            watch,
        ) by {
            assert(shorter[i] == events[i]);
        }
        law_watched_probe_takes_reports(state, cluster, shorter);
        let before = after_events(state, shorter).probe_estimator;
        assert(events[events.len() - 1] == events.last());
        match events.last() {
            Event::Report(records, _) => {
                P::ProbeResults::report_is_taken_in(before, records, cluster);
            },
            Event::Timeout(_, now) => {
                P::ProbeResults::history_is_kept(before, now, cluster);
            },
            Event::Sent(_, _) => {},
            Event::Start(config, now) => {
                P::ProbeResults::start_leaves_the_others(before, config, now, cluster);
            },
            Event::End(ended, now) => {
                P::ProbeResults::end_is_noted(before, now, ended, cluster);
            },
        }
    }
}

/// The end of a probe cluster that is being sent marks it and drops nothing. For the history
/// period that follows, whatever happens meanwhile, late reports still count for it: every one of
/// its packets that they show as acknowledged is taken in. The end leaves the estimate and its
/// cause as they are.
pub proof fn law_ended_probe_takes_late_reports<P: Parts>(
    state: EstimatorState<P>,
    ended_at: Instant,
    cluster: TwccClusterId,
    events: Seq<Event>,
)
    requires
        P::ProbeResults::watch_of(state.probe_estimator, cluster) == ProbeWatch::Sending,
        forall|i: int|
            0 <= i < events.len() ==> leaves_watch::<P>(
                #[trigger] events[i],
                cluster,
                ProbeWatch::Ended(ended_at),
            ),
    ensures
        ({
            let ended = after_probe_end(state, ended_at, cluster);
            let after = after_events(ended, events);
            &&& ended.last_estimate() == state.last_estimate()
            &&& ended.cause() == state.cause()
            &&& P::ProbeResults::watch_of(after.probe_estimator, cluster) == ProbeWatch::Ended(
                ended_at,
            )
            &&& P::ProbeResults::feedback_of(after.probe_estimator, cluster)
                == P::ProbeResults::feedback_of(state.probe_estimator, cluster) + reported(
                events,
                cluster,
            )
        }),
{
    P::ProbeResults::end_is_noted(state.probe_estimator, ended_at, cluster, cluster);
    law_watched_probe_takes_reports(after_probe_end(state, ended_at, cluster), cluster, events);
}

/// The whole life of a probe: from an accepted start, over its end, through the history period
/// that follows, it is looked for, and all of its packets that reports show as acknowledged
/// meanwhile are taken in.
pub proof fn law_accepted_probe_takes_reports_through_its_history<P: Parts>(
    state: EstimatorState<P>,
    config: ProbeClusterConfig,
    started_at: Instant,
    sending: Seq<Event>,
    ended_at: Instant,
    late: Seq<Event>,
)
    requires
        after_probe_start(state, config, started_at).1,
        forall|i: int|
            0 <= i < sending.len() ==> leaves_watch::<P>(
                #[trigger] sending[i],
                config.cluster,
                ProbeWatch::Sending,
            ),
        forall|i: int|
            0 <= i < late.len() ==> leaves_watch::<P>(
                #[trigger] late[i],
                config.cluster,
                ProbeWatch::Ended(ended_at),
            ),
    ensures
        ({
            let started = after_probe_start(state, config, started_at).0;
            let ended = after_probe_end(after_events(started, sending), ended_at, config.cluster);
            let after = after_events(ended, late);
            &&& P::ProbeResults::watch_of(after.probe_estimator, config.cluster)
                == ProbeWatch::Ended(ended_at)
            &&& P::ProbeResults::feedback_of(after.probe_estimator, config.cluster)
                == P::ProbeResults::feedback_of(started.probe_estimator, config.cluster)
                + reported(sending, config.cluster) + reported(late, config.cluster)
        }),
{
    let started = after_probe_start(state, config, started_at).0;
    P::ProbeResults::accepted_is_watched(state.probe_estimator, config, started_at);
    law_watched_probe_takes_reports(started, config.cluster, sending);
    law_ended_probe_takes_late_reports(
        after_events(started, sending),
        ended_at,
        config.cluster,
        late,
    );
}

/// What is sent and what is probed does not change the estimate: it depends on the delay based
/// and the loss based controller alone.
pub proof fn law_estimate_depends_on_two_parts<P: Parts>(
    a: EstimatorState<P>,
    b: EstimatorState<P>,
)
    requires
        a.delay_controller == b.delay_controller,
        a.loss_controller == b.loss_controller,
    ensures
        a.last_estimate() == b.last_estimate(),
        a.cause() == b.cause(),
{
}

/// The next timeout is the earliest of the three, and comes with the reason that is due then.
pub proof fn law_next_timeout_is_the_earliest<P: Parts>(state: EstimatorState<P>)
    ensures
        ({
            let (at, reason) = state.timeout();
            let delay = P::Delay::timeout_of(state.delay_controller);
            let probe = P::Probes::timeout_of(state.probe_control);
            let results = P::ProbeResults::timeout_of(state.probe_estimator);
            &&& at is Some
            &&& at->0.nanos <= delay.nanos
            &&& at->0.nanos <= probe.nanos
            &&& at->0.nanos <= results.nanos
            &&& at == match reason {
                Reason::BweDelayControl => Some(delay),
                Reason::BweProbeControl => Some(probe),
                Reason::BweProbeEstimator => Some(results),
            }
        }),
{
}

/// A new estimator has no estimate but the ones that its parts start with, has told nobody, and
/// has not started. The loss based controller starts from the initial estimate.
pub proof fn law_new_estimator_has_told_nobody<P: Parts>(initial: Bitrate)
    ensures
        EstimatorState::<P>::start(initial).started_at is None,
        EstimatorState::<P>::start(initial).last_updated_estimate is None,
        P::Loss::result_of(EstimatorState::<P>::start(initial).loss_controller).bandwidth_estimate
            == Some(initial),
{
    P::Loss::estimate_is_set(P::Loss::start(), initial);
}

/// A timeout keeps what the application has allocated and what it desires.
pub proof fn law_timeout_keeps_what_the_application_set<P: Parts>(
    state: BweState<P>,
    do_probe: bool,
    now: Instant,
)
    ensures
        state.on_timeout(do_probe, now).0.current_bitrate == state.current_bitrate,
        state.on_timeout(do_probe, now).0.desired_bitrate == state.desired_bitrate,
{
}

} // verus!
