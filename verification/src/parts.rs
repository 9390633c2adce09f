//! The parts that the bandwidth estimator is put together from.
//!
//! Each part measures or controls one thing, and there is more than one way to do so. A part is
//! therefore a trait. Its view is its state, and spec functions over that state say what each
//! method does: `on_..` gives the state after a call, `.._of` gives what a state answers. So a
//! part depends on nothing but what it was given, in the order in which it was given.
use crate::packet::{is_acked, AckedPacket};
use crate::twcc::{ProbeClusterConfig, TwccClusterId, TwccSendRecord};
use crate::units::{time_between, Bitrate, DataSize, Duration, Instant};
use vstd::prelude::*;

verus! {

/// Estimates the bandwidth from the delay that packets build up on their way.
pub trait DelayController: View + Sized {
    /// The state to start in.
    spec fn start(initial: Bitrate) -> Self::V;

    /// The state after a report, and the estimate that comes of it, if one does.
    spec fn on_update(
        state: Self::V,
        packets: Seq<AckedPacket>,
        acked_bitrate: Option<Bitrate>,
        probe_bitrate: Option<Bitrate>,
        now: Instant,
    ) -> (Self::V, Option<Bitrate>);

    /// The state after a timeout.
    spec fn on_timeout(state: Self::V, acked_bitrate: Option<Bitrate>, now: Instant) -> Self::V;

    /// The latest estimate.
    spec fn estimate_of(state: Self::V) -> Option<Bitrate>;

    /// Whether delay builds up.
    spec fn overuse_of(state: Self::V) -> bool;

    /// When the next timeout is due.
    spec fn timeout_of(state: Self::V) -> Instant;

    /// Starts from an initial estimate.
    fn new(initial_bitrate: Bitrate) -> (controller: Self)
        ensures
            controller@ == Self::start(initial_bitrate),
    ;

    /// Takes in a report: the acknowledged packets in receive order, the acknowledged rate and the
    /// rate that a probe has measured.
    fn update(
        &mut self,
        acked_packets: &[AckedPacket],
        acked_bitrate: Option<Bitrate>,
        probe_bitrate: Option<Bitrate>,
        now: Instant,
    ) -> (estimate: Option<Bitrate>)
        ensures
            (final(self)@, estimate) == Self::on_update(
                old(self)@,
                acked_packets@,
                acked_bitrate,
                probe_bitrate,
                now,
            ),
    ;

    /// Handles a timeout.
    fn handle_timeout(&mut self, acked_bitrate: Option<Bitrate>, now: Instant)
        ensures
            final(self)@ == Self::on_timeout(old(self)@, acked_bitrate, now),
    ;

    /// The latest estimate.
    fn last_estimate(&self) -> (estimate: Option<Bitrate>)
        ensures
            estimate == Self::estimate_of(self@),
    ;

    /// Whether delay builds up.
    fn is_overusing(&self) -> (overuse: bool)
        ensures
            overuse == Self::overuse_of(self@),
    ;

    /// When the next timeout is due.
    fn poll_timeout(&self) -> (at: Instant)
        ensures
            at == Self::timeout_of(self@),
    ;
}

/// What limits the bandwidth, as the loss based controller sees it.
#[derive(Debug, Clone, Copy, PartialEq, Eq, Structural)]
pub enum LossControllerState {
    /// Loss does not limit the bandwidth.
    DelayBased,
    /// Loss has limited the bandwidth, which now recovers.
    Increasing,
    /// Loss limits the bandwidth.
    Decreasing,
}

/// What the loss based controller has to say.
#[derive(Debug, Clone, Copy, PartialEq, Eq, Structural)]
pub struct LossBasedResult {
    /// The loss based estimate, if there is one.
    pub bandwidth_estimate: Option<Bitrate>,
    /// What limits the bandwidth.
    pub state: LossControllerState,
}

/// Estimates the bandwidth from the packets that get lost.
pub trait LossController: View + Sized {
    /// The state to start in.
    spec fn start() -> Self::V;

    /// The state with the estimate set from outside.
    spec fn on_bandwidth_estimate(state: Self::V, estimate: Bitrate) -> Self::V;

    /// The state with a new acknowledged rate.
    spec fn on_acknowledged_bitrate(state: Self::V, acknowledged: Bitrate) -> Self::V;

    /// The state after a report, given the delay based estimate.
    spec fn on_update(
        state: Self::V,
        records: Seq<TwccSendRecord>,
        delay_estimate: Bitrate,
    ) -> Self::V;

    /// The state that knows since when the application limits its own rate.
    spec fn on_alr_start_time(state: Self::V, start: Option<Instant>) -> Self::V;

    /// The state with a new link capacity.
    spec fn on_link_capacity(state: Self::V, capacity: Option<Bitrate>) -> Self::V;

    /// What the controller has to say.
    spec fn result_of(state: Self::V) -> LossBasedResult;

    /// An estimate that was set is the one that is given.
    proof fn estimate_is_set(state: Self::V, estimate: Bitrate)
        ensures
            Self::result_of(Self::on_bandwidth_estimate(state, estimate)).bandwidth_estimate
                == Some(estimate),
    ;

    /// Starts without an estimate of its own.
    fn new() -> (controller: Self)
        ensures
            controller@ == Self::start(),
    ;

    /// Sets the estimate.
    fn set_bandwidth_estimate(&mut self, estimate: Bitrate)
        ensures
            final(self)@ == Self::on_bandwidth_estimate(old(self)@, estimate),
    ;

    /// Takes in the acknowledged rate.
    fn set_acknowledged_bitrate(&mut self, acknowledged: Bitrate)
        ensures
            final(self)@ == Self::on_acknowledged_bitrate(old(self)@, acknowledged),
    ;

    /// Takes in a report.
    fn update_bandwidth_estimate(&mut self, records: &[TwccSendRecord], delay_estimate: Bitrate)
        ensures
            final(self)@ == Self::on_update(old(self)@, records@, delay_estimate),
    ;

    /// Takes in since when the application limits its own rate, if it does.
    fn set_alr_start_time(&mut self, start: Option<Instant>)
        ensures
            final(self)@ == Self::on_alr_start_time(old(self)@, start),
    ;

    /// Takes in the link capacity, as far as it is known.
    fn set_link_capacity_estimate(&mut self, capacity: Option<Bitrate>)
        ensures
            final(self)@ == Self::on_link_capacity(old(self)@, capacity),
    ;

    /// What the controller has to say.
    fn loss_based_result(&self) -> (result: LossBasedResult)
        ensures
            result == Self::result_of(self@),
    ;
}

/// Estimates the rate at which data is acknowledged.
pub trait AckedBitrateEstimator: View + Sized {
    /// The state to start in.
    spec fn start(initial_window: Duration, window: Duration) -> Self::V;

    /// The state after an acknowledged packet.
    spec fn on_packet(state: Self::V, received_at: Instant, size: DataSize) -> Self::V;

    /// The acknowledged rate, as far as it is known.
    spec fn estimate_of(state: Self::V) -> Option<Bitrate>;

    /// Starts with the window for the first estimate and the one for those that follow.
    fn new(initial_window: Duration, window: Duration) -> (estimator: Self)
        ensures
            estimator@ == Self::start(initial_window, window),
    ;

    /// Takes in an acknowledged packet.
    fn update(&mut self, received_at: Instant, size: DataSize)
        ensures
            final(self)@ == Self::on_packet(old(self)@, received_at, size),
    ;

    /// The acknowledged rate, as far as it is known.
    fn current_estimate(&self) -> (estimate: Option<Bitrate>)
        ensures
            estimate == Self::estimate_of(self@),
    ;
}

/// Why the bandwidth estimate is no higher than it is.
#[derive(Debug, Clone, Copy, PartialEq, Eq, Structural)]
pub enum BandwidthLimitedCause {
    /// The delay based estimate limits it, and delay builds up.
    DelayBasedLimitedDelayIncreased,
    /// The delay based estimate limits it.
    DelayBasedLimited,
    /// Loss has limited it, and it recovers.
    LossLimitedBweIncreasing,
    /// Loss limits it.
    LossLimitedBwe,
}

/// Decides when to probe, and how.
pub trait ProbeControl: View + Sized {
    /// The state to start in.
    spec fn start() -> Self::V;

    /// The state with a new desired rate.
    spec fn on_desired_bitrate(state: Self::V, desired: Bitrate) -> Self::V;

    /// The state that knows that the application limits its own rate.
    spec fn on_alr_start(state: Self::V, start: Instant) -> Self::V;

    /// The state that knows that the application does not limit its own rate.
    spec fn on_alr_stop(state: Self::V, now: Instant) -> Self::V;

    /// The state with a new estimate.
    spec fn on_estimate(state: Self::V, estimate: Bitrate, cause: BandwidthLimitedCause) -> Self::V;

    /// The state with probing switched on or off.
    spec fn on_enable(state: Self::V, enabled: bool) -> Self::V;

    /// The state after a timeout, and the probe to start, if there is one.
    spec fn on_timeout(state: Self::V, now: Instant) -> (Self::V, Option<ProbeClusterConfig>);

    /// When the next timeout is due.
    spec fn timeout_of(state: Self::V) -> Instant;

    /// Starts a control.
    fn new() -> (control: Self)
        ensures
            control@ == Self::start(),
    ;

    /// Takes in the rate that the application would like to have.
    fn set_desired_bitrate(&mut self, desired: Bitrate)
        ensures
            final(self)@ == Self::on_desired_bitrate(old(self)@, desired),
    ;

    /// Takes in that the application limits its own rate, and since when.
    fn set_alr_start_time(&mut self, start: Instant)
        ensures
            final(self)@ == Self::on_alr_start(old(self)@, start),
    ;

    /// Takes in that the application does not limit its own rate.
    fn set_alr_stop_time(&mut self, now: Instant)
        ensures
            final(self)@ == Self::on_alr_stop(old(self)@, now),
    ;

    /// Takes in a new estimate.
    fn set_estimated_bitrate(&mut self, estimate: Bitrate, cause: BandwidthLimitedCause)
        ensures
            final(self)@ == Self::on_estimate(old(self)@, estimate, cause),
    ;

    /// Switches probing on or off.
    fn enable(&mut self, enabled: bool)
        ensures
            final(self)@ == Self::on_enable(old(self)@, enabled),
    ;

    /// Handles a timeout. The result is the probe to start, if there is one.
    fn handle_timeout(&mut self, now: Instant) -> (probe: Option<ProbeClusterConfig>)
        ensures
            (final(self)@, probe) == Self::on_timeout(old(self)@, now),
    ;

    /// When the next timeout is due.
    fn poll_timeout(&self) -> (at: Instant)
        ensures
            at == Self::timeout_of(self@),
    ;
}

/// Whether the evaluation of probes looks for a probe cluster in reports.
#[derive(Debug, Clone, Copy, PartialEq, Eq, Structural)]
pub enum ProbeWatch {
    /// It does not.
    Off,
    /// It does, and the cluster is still being sent.
    Sending,
    /// It does, though the cluster has been sent: reports may be late.
    Ended(Instant),
}

/// How many packets of a cluster the records show as acknowledged.
pub open spec fn cluster_feedback(records: Seq<TwccSendRecord>, cluster: TwccClusterId) -> nat {
    records.filter(|r: TwccSendRecord| is_acked(r) && r.cluster == Some(cluster)).len()
}

/// Evaluates probes.
pub trait ProbeEstimator: View + Sized {
    /// The state to start in.
    spec fn start() -> Self::V;

    /// The state after a report, and the probes that it completes with the rates they measured.
    spec fn on_records(state: Self::V, records: Seq<TwccSendRecord>) -> (
        Self::V,
        Seq<(ProbeClusterConfig, Bitrate)>,
    );

    /// The state after a timeout.
    spec fn on_timeout(state: Self::V, now: Instant) -> Self::V;

    /// The state without probes.
    spec fn on_clear(state: Self::V) -> Self::V;

    /// The state after a request to watch a probe, and whether it was accepted.
    spec fn on_probe_start(state: Self::V, config: ProbeClusterConfig, now: Instant) -> (
        Self::V,
        bool,
    );

    /// The state after the last packet of a probe was sent.
    spec fn on_probe_end(state: Self::V, now: Instant, cluster: TwccClusterId) -> Self::V;

    /// When the next timeout is due.
    spec fn timeout_of(state: Self::V) -> Instant;

    /// Whether a cluster is looked for.
    spec fn watch_of(state: Self::V, cluster: TwccClusterId) -> ProbeWatch;

    /// How many acknowledged packets of a cluster have been taken in.
    spec fn feedback_of(state: Self::V, cluster: TwccClusterId) -> nat;

    /// For how long a cluster is looked for once it has been sent.
    spec fn history() -> Duration;

    /// A probe that is accepted is looked for.
    proof fn accepted_is_watched(state: Self::V, config: ProbeClusterConfig, now: Instant)
        ensures
            Self::on_probe_start(state, config, now).1 ==> Self::watch_of(
                Self::on_probe_start(state, config, now).0,
                config.cluster,
            ) == ProbeWatch::Sending,
    ;

    /// A start concerns the probe that it starts: it leaves every other probe as it was, and a
    /// start that is rejected leaves all of them so.
    proof fn start_leaves_the_others(
        state: Self::V,
        config: ProbeClusterConfig,
        now: Instant,
        cluster: TwccClusterId,
    )
        ensures
            cluster != config.cluster || !Self::on_probe_start(state, config, now).1 ==> {
                &&& Self::watch_of(Self::on_probe_start(state, config, now).0, cluster)
                    == Self::watch_of(state, cluster)
                &&& Self::feedback_of(Self::on_probe_start(state, config, now).0, cluster)
                    == Self::feedback_of(state, cluster)
            },
    ;

    /// The end of a probe is noted, and drops nothing.
    proof fn end_is_noted(
        state: Self::V,
        now: Instant,
        ended: TwccClusterId,
        cluster: TwccClusterId,
    )
        ensures
            Self::feedback_of(Self::on_probe_end(state, now, ended), cluster) == Self::feedback_of(
                state,
                cluster,
            ),
            Self::watch_of(Self::on_probe_end(state, now, ended), cluster) == if cluster == ended
                && Self::watch_of(state, cluster) == ProbeWatch::Sending {
                ProbeWatch::Ended(now)
            } else {
                Self::watch_of(state, cluster)
            },
    ;

    /// A timeout drops no probe that is still being sent, nor one whose end is not longer ago than
    /// the history.
    proof fn history_is_kept(state: Self::V, now: Instant, cluster: TwccClusterId)
        ensures
            (match Self::watch_of(state, cluster) {
                ProbeWatch::Off => false,
                ProbeWatch::Sending => true,
                ProbeWatch::Ended(at) => time_between(at, now).nanos <= Self::history().nanos,
            }) ==> {
                &&& Self::watch_of(Self::on_timeout(state, now), cluster) == Self::watch_of(
                    state,
                    cluster,
                )
                &&& Self::feedback_of(Self::on_timeout(state, now), cluster) == Self::feedback_of(
                    state,
                    cluster,
                )
            },
    ;

    /// A report is taken in for every probe that is looked for, and ends no watch.
    proof fn report_is_taken_in(
        state: Self::V,
        records: Seq<TwccSendRecord>,
        cluster: TwccClusterId,
    )
        ensures
            Self::watch_of(state, cluster) != ProbeWatch::Off ==> {
                &&& Self::watch_of(Self::on_records(state, records).0, cluster) == Self::watch_of(
                    state,
                    cluster,
                )
                &&& Self::feedback_of(Self::on_records(state, records).0, cluster)
                    == Self::feedback_of(state, cluster) + cluster_feedback(records, cluster)
            },
    ;

    /// No probe is looked for once all are forgotten.
    proof fn clear_leaves_none(state: Self::V, cluster: TwccClusterId)
        ensures
            Self::watch_of(Self::on_clear(state), cluster) == ProbeWatch::Off,
    ;

    /// Starts without probes.
    fn new() -> (estimator: Self)
        ensures
            estimator@ == Self::start(),
    ;

    /// Takes in a report. The result is the probes that it completes, with the rates they measured.
    fn update(&mut self, records: &[TwccSendRecord]) -> (results: Vec<
        (ProbeClusterConfig, Bitrate),
    >)
        ensures
            (final(self)@, results@) == Self::on_records(old(self)@, records@),
    ;

    /// Handles a timeout.
    fn handle_timeout(&mut self, now: Instant)
        ensures
            final(self)@ == Self::on_timeout(old(self)@, now),
    ;

    /// Forgets all probes.
    fn clear_probes(&mut self)
        ensures
            final(self)@ == Self::on_clear(old(self)@),
    ;

    /// Starts to watch a probe. The result is whether it was accepted.
    fn probe_start(&mut self, config: ProbeClusterConfig, now: Instant) -> (accepted: bool)
        ensures
            (final(self)@, accepted) == Self::on_probe_start(old(self)@, config, now),
    ;

    /// Takes in that the last packet of a probe was sent.
    fn end_probe(&mut self, now: Instant, cluster: TwccClusterId)
        ensures
            final(self)@ == Self::on_probe_end(old(self)@, now, cluster),
    ;

    /// When the next timeout is due.
    fn poll_timeout(&self) -> (at: Instant)
        ensures
            at == Self::timeout_of(self@),
    ;
}

/// Detects whether the application limits its own rate (application limited region, ALR).
pub trait AlrDetector: View + Sized {
    /// The state to start in.
    spec fn start() -> Self::V;

    /// The state with a new estimate.
    spec fn on_estimate(state: Self::V, estimate: Bitrate) -> Self::V;

    /// The state after a sent packet.
    spec fn on_bytes(state: Self::V, size: DataSize, now: Instant) -> Self::V;

    /// Since when the application limits its own rate, if it does.
    spec fn start_time_of(state: Self::V) -> Option<Instant>;

    /// Starts without an estimate.
    fn new() -> (detector: Self)
        ensures
            detector@ == Self::start(),
    ;

    /// Takes in a new estimate.
    fn set_estimated_bitrate(&mut self, estimate: Bitrate)
        ensures
            final(self)@ == Self::on_estimate(old(self)@, estimate),
    ;

    /// Takes in a sent packet.
    fn on_bytes_sent(&mut self, size: DataSize, now: Instant)
        ensures
            final(self)@ == Self::on_bytes(old(self)@, size, now),
    ;

    /// Since when the application limits its own rate, if it does.
    fn alr_start_time(&self) -> (start: Option<Instant>)
        ensures
            start == Self::start_time_of(self@),
    ;
}

/// Estimates what the link can carry, from probes that were sent while the application limited
/// its own rate.
pub trait LinkCapacityEstimator: View + Sized {
    /// The state to start in.
    spec fn start() -> Self::V;

    /// The state after a probe.
    spec fn on_probe(state: Self::V, measured: Bitrate, now: Instant) -> Self::V;

    /// The capacity, as far as it is known.
    spec fn capacity_of(state: Self::V, now: Instant) -> Option<Bitrate>;

    /// Starts without an estimate.
    fn new() -> (estimator: Self)
        ensures
            estimator@ == Self::start(),
    ;

    /// Takes in the rate that a probe has measured.
    fn update_from_probe(&mut self, measured: Bitrate, now: Instant)
        ensures
            final(self)@ == Self::on_probe(old(self)@, measured, now),
    ;

    /// The capacity, as far as it is known.
    fn capacity_estimate(&self, now: Instant) -> (capacity: Option<Bitrate>)
        ensures
            capacity == Self::capacity_of(self@, now),
    ;
}

/// Smooths the estimates that the application gets to see.
pub trait EstimateSmoother: View + Sized {
    /// The state to start in.
    spec fn start() -> Self::V;

    /// The state after an estimate.
    spec fn on_record(state: Self::V, now: Instant, estimate: Bitrate) -> Self::V;

    /// The state after a poll, and the estimate to report, if there is one.
    spec fn on_poll(state: Self::V) -> (Self::V, Option<Bitrate>);

    /// Starts without estimates.
    fn new() -> (smoother: Self)
        ensures
            smoother@ == Self::start(),
    ;

    /// Takes in an estimate.
    fn record(&mut self, now: Instant, estimate: Bitrate)
        ensures
            final(self)@ == Self::on_record(old(self)@, now, estimate),
    ;

    /// The estimate to report, if there is one.
    fn poll(&mut self) -> (estimate: Option<Bitrate>)
        ensures
            (final(self)@, estimate) == Self::on_poll(old(self)@),
    ;
}

/// A choice of parts.
pub trait Parts: Sized {
    type Delay: DelayController;

    type Loss: LossController;

    type Acked: AckedBitrateEstimator;

    type Probes: ProbeControl;

    type ProbeResults: ProbeEstimator;

    type Alr: AlrDetector;

    type Capacity: LinkCapacityEstimator;

    type Smoother: EstimateSmoother;
}

/// One more record counts for the feedback on a cluster where it acknowledges a packet of that
/// cluster, and for no other.
pub proof fn law_feedback_counts_own_packets(
    records: Seq<TwccSendRecord>,
    next: TwccSendRecord,
    cluster: TwccClusterId,
)
    ensures
        cluster_feedback(Seq::empty(), cluster) == 0,
        cluster_feedback(records.push(next), cluster) == cluster_feedback(records, cluster) + if {
            &&& next.remote_recv_time is Some
            &&& next.local_recv_time is Some
            &&& next.cluster == Some(cluster)
        } {
            1nat
        } else {
            0nat
        },
{
    reveal(Seq::filter);
    assert(records.push(next).drop_last() == records);
    let none = Seq::<TwccSendRecord>::empty();
    assert(none.filter(
        |r: TwccSendRecord| is_acked(r) && r.cluster == Some(cluster),
    ).len() == 0);
}

} // verus!
