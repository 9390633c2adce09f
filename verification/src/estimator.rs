//! The send side bandwidth estimator.
//!
//! The estimator feeds TWCC reports, sent packets and timeouts to its parts, combines the delay
//! based and the loss based estimate into one, and hands that one back to the parts that build on
//! it.
use crate::packet::AckedPacket;
use crate::parts::{
    AckedBitrateEstimator, AlrDetector, BandwidthLimitedCause, DelayController,
    LinkCapacityEstimator, LossController, LossControllerState, Parts, ProbeControl,
    ProbeEstimator, ProbeWatch,
};
use crate::receive_order::{
    acked_packets, by_receive_time, collect_acked_packets, lost_packets, sort_by_receive_time,
};
use crate::rules::{
    in_startup_phase, is_negligible_loss, is_startup, limit_probe_bitrate, limited_probe,
    loss_is_negligible,
};
use crate::timeout::{soonest, soonest_of, Reason};
use crate::twcc::{ProbeClusterConfig, TwccClusterId, TwccSendRecord};
use crate::units::{min_rate, Bitrate, DataSize, Duration, Instant};
use vstd::prelude::*;

verus! {

/// The window of the first acknowledged rate.
#[verifier::allow_in_spec]
pub fn initial_bitrate_window() -> Duration
    returns
        (Duration { nanos: 500_000_000 }),
{
    Duration::from_millis(500)
}

/// The window of the acknowledged rates that follow.
#[verifier::allow_in_spec]
pub fn bitrate_window() -> Duration
    returns
        (Duration { nanos: 150_000_000 }),
{
    Duration::from_millis(150)
}

/// The state of an estimator: that of its parts, and what it keeps itself.
pub struct EstimatorState<P: Parts> {
    pub delay_controller: <P::Delay as View>::V,
    pub loss_controller: <P::Loss as View>::V,
    pub acked_bitrate_estimator: <P::Acked as View>::V,
    pub probe_control: <P::Probes as View>::V,
    pub probe_estimator: <P::ProbeResults as View>::V,
    /// When the first report came in.
    pub started_at: Option<Instant>,
    pub alr_detector: <P::Alr as View>::V,
    pub link_capacity_estimator: <P::Capacity as View>::V,
    /// The estimate that the parts were last told.
    pub last_updated_estimate: Option<Bitrate>,
}

/// The rate that the last of the completed probes has measured.
pub open spec fn latest_probe(results: Seq<(ProbeClusterConfig, Bitrate)>) -> Option<Bitrate> {
    if results.len() == 0 {
        None
    } else {
        Some(results.last().1)
    }
}

/// The link capacity after every completed probe that was sent while the application limited its
/// own rate.
pub open spec fn capacity_after<C: LinkCapacityEstimator>(
    capacity: C::V,
    results: Seq<(ProbeClusterConfig, Bitrate)>,
    now: Instant,
) -> C::V
    decreases results.len(),
{
    if results.len() == 0 {
        capacity
    } else {
        let before = capacity_after::<C>(capacity, results.drop_last(), now);
        if results.last().0.alr_probe {
            C::on_probe(before, results.last().1, now)
        } else {
            before
        }
    }
}

/// The acknowledged rate after every packet.
pub open spec fn acked_after<A: AckedBitrateEstimator>(
    acked: A::V,
    packets: Seq<AckedPacket>,
) -> A::V
    decreases packets.len(),
{
    if packets.len() == 0 {
        acked
    } else {
        A::on_packet(
            acked_after::<A>(acked, packets.drop_last()),
            packets.last().remote_recv_time,
            packets.last().size,
        )
    }
}

/// The loss based controller after a report that counts for it. A probe result sets its estimate
/// to the delay based one, and what it makes of the report is capped by the delay based one.
pub open spec fn loss_after<L: LossController>(
    loss: L::V,
    records: Seq<TwccSendRecord>,
    delay_estimate: Bitrate,
    acked_bitrate: Option<Bitrate>,
    is_probe_result: bool,
) -> L::V {
    let probed = if is_probe_result {
        L::on_bandwidth_estimate(loss, delay_estimate)
    } else {
        loss
    };
    let acknowledged = match acked_bitrate {
        Some(rate) => L::on_acknowledged_bitrate(probed, rate),
        None => probed,
    };
    let updated = L::on_update(acknowledged, records, delay_estimate);
    match L::result_of(updated).bandwidth_estimate {
        Some(estimate) if estimate.bits > delay_estimate.bits => {
            L::on_bandwidth_estimate(updated, delay_estimate)
        },
        _ => updated,
    }
}

impl<P: Parts> EstimatorState<P> {
    /// The state to start in.
    pub open spec fn start(initial: Bitrate) -> Self {
        EstimatorState {
            delay_controller: P::Delay::start(initial),
            loss_controller: P::Loss::on_bandwidth_estimate(P::Loss::start(), initial),
            acked_bitrate_estimator: P::Acked::start(initial_bitrate_window(), bitrate_window()),
            probe_control: P::Probes::start(),
            probe_estimator: P::ProbeResults::start(),
            started_at: None,
            alr_detector: P::Alr::on_estimate(P::Alr::start(), initial),
            link_capacity_estimator: P::Capacity::start(),
            last_updated_estimate: None,
        }
    }

    /// The estimate: the delay based one, or the lower of the two while loss limits the
    /// bandwidth or while it recovers from that.
    pub open spec fn last_estimate(self) -> Option<Bitrate> {
        let delay_estimate = P::Delay::estimate_of(self.delay_controller);
        let loss = P::Loss::result_of(self.loss_controller);
        match (loss.state, delay_estimate, loss.bandwidth_estimate) {
            (LossControllerState::DelayBased, _, _) => delay_estimate,
            (_, Some(delay), Some(loss)) => Some(min_rate(delay, loss)),
            (_, None, loss) => loss,
            (_, delay, None) => delay,
        }
    }

    /// Why the estimate is no higher than it is.
    pub open spec fn cause(self) -> BandwidthLimitedCause {
        if P::Delay::overuse_of(self.delay_controller) {
            BandwidthLimitedCause::DelayBasedLimitedDelayIncreased
        } else {
            match P::Loss::result_of(self.loss_controller).state {
                LossControllerState::DelayBased => BandwidthLimitedCause::DelayBasedLimited,
                LossControllerState::Increasing => BandwidthLimitedCause::LossLimitedBweIncreasing,
                LossControllerState::Decreasing => BandwidthLimitedCause::LossLimitedBwe,
            }
        }
    }

    /// The state in which the parts know the estimate. They are told only of a change.
    pub open spec fn propagated(self) -> Self {
        match self.last_estimate() {
            Some(estimate) if self.last_updated_estimate != Some(estimate) => EstimatorState {
                probe_control: P::Probes::on_estimate(self.probe_control, estimate, self.cause()),
                alr_detector: P::Alr::on_estimate(self.alr_detector, estimate),
                last_updated_estimate: Some(estimate),
                ..self
            },
            _ => self,
        }
    }

    /// The state in which the parts that measure have taken in a report, and the delay based
    /// estimate that comes of it, if one does. With it comes the probe result that the delay based
    /// controller was given.
    pub open spec fn measured(self, records: Seq<TwccSendRecord>, now: Instant) -> (
        Self,
        Option<Bitrate>,
        Option<Bitrate>,
    ) {
        let (probe_estimator, results) = P::ProbeResults::on_records(self.probe_estimator, records);
        let packets = by_receive_time(acked_packets(records));
        let acked = acked_after::<P::Acked>(self.acked_bitrate_estimator, packets);
        let acked_bitrate = P::Acked::estimate_of(acked);
        let probe_result = match latest_probe(results) {
            Some(probe) => Some(
                limited_probe(probe, acked_bitrate, P::Delay::estimate_of(self.delay_controller)),
            ),
            None => None,
        };
        let (delay_controller, delay_estimate) = P::Delay::on_update(
            self.delay_controller,
            packets,
            acked_bitrate,
            probe_result,
            now,
        );
        let state = EstimatorState {
            delay_controller,
            acked_bitrate_estimator: acked,
            probe_estimator,
            started_at: match self.started_at {
                Some(start) => Some(start),
                None => Some(now),
            },
            link_capacity_estimator: capacity_after::<P::Capacity>(
                self.link_capacity_estimator,
                results,
                now,
            ),
            ..self
        };
        (state, probe_result, delay_estimate)
    }

    /// The state after a report.
    ///
    /// Without a delay based estimate nothing more happens. In the startup phase, while loss is
    /// negligible, the delay based estimate becomes the loss based one as it is. Otherwise the
    /// loss based controller takes in the report and the parts are told the estimate.
    pub open spec fn on_update(self, records: Seq<TwccSendRecord>, now: Instant) -> Self {
        let (state, probe_result, delay_estimate) = self.measured(records, now);
        match delay_estimate {
            None => state,
            Some(delay_estimate) => if is_startup(state.started_at, now) && is_negligible_loss(
                lost_packets(records),
                records.len(),
            ) {
                EstimatorState {
                    loss_controller: P::Loss::on_bandwidth_estimate(
                        state.loss_controller,
                        delay_estimate,
                    ),
                    ..state
                }
            } else {
                EstimatorState {
                    loss_controller: loss_after::<P::Loss>(
                        state.loss_controller,
                        records,
                        delay_estimate,
                        P::Acked::estimate_of(state.acked_bitrate_estimator),
                        probe_result is Some,
                    ),
                    ..state
                }.propagated()
            },
        }
    }

    /// The state after a timeout, with the parts brought up to date but before probes are due.
    pub open spec fn refreshed(self, desired: Bitrate, now: Instant) -> Self {
        let desiring = P::Probes::on_desired_bitrate(self.probe_control, desired);
        let alr_start = P::Alr::start_time_of(self.alr_detector);
        EstimatorState {
            delay_controller: P::Delay::on_timeout(
                self.delay_controller,
                P::Acked::estimate_of(self.acked_bitrate_estimator),
                now,
            ),
            probe_control: match alr_start {
                Some(start) => P::Probes::on_alr_start(desiring, start),
                None => P::Probes::on_alr_stop(desiring, now),
            },
            loss_controller: P::Loss::on_link_capacity(
                P::Loss::on_alr_start_time(self.loss_controller, alr_start),
                P::Capacity::capacity_of(self.link_capacity_estimator, now),
            ),
            probe_estimator: P::ProbeResults::on_timeout(self.probe_estimator, now),
            ..self
        }.propagated()
    }

    /// The state after a timeout, and the probe to start, if there is one.
    pub open spec fn on_timeout(self, desired: Bitrate, do_probe: bool, now: Instant) -> (
        Self,
        Option<ProbeClusterConfig>,
    ) {
        let state = self.refreshed(desired, now);
        let (probe_control, probe) = P::Probes::on_timeout(
            P::Probes::on_enable(state.probe_control, do_probe),
            now,
        );
        let probe_estimator = if do_probe {
            state.probe_estimator
        } else {
            P::ProbeResults::on_clear(state.probe_estimator)
        };
        (EstimatorState { probe_control, probe_estimator, ..state }, probe)
    }

    /// When the next timeout is due, and what for.
    pub open spec fn timeout(self) -> (Option<Instant>, Reason) {
        soonest_of(
            soonest_of(
                (Some(P::Delay::timeout_of(self.delay_controller)), Reason::BweDelayControl),
                (Some(P::Probes::timeout_of(self.probe_control)), Reason::BweProbeControl),
            ),
            (Some(P::ProbeResults::timeout_of(self.probe_estimator)), Reason::BweProbeEstimator),
        )
    }
}

/// Estimates the bandwidth that the sender may use.
pub struct SendSideBandwidthEstimator<P: Parts> {
    pub delay_controller: P::Delay,
    pub loss_controller: P::Loss,
    pub acked_bitrate_estimator: P::Acked,
    pub probe_control: P::Probes,
    pub probe_estimator: P::ProbeResults,
    /// When the first report came in.
    pub started_at: Option<Instant>,
    pub alr_detector: P::Alr,
    pub link_capacity_estimator: P::Capacity,
    /// The estimate that the parts were last told.
    pub last_updated_estimate: Option<Bitrate>,
}

impl<P: Parts> View for SendSideBandwidthEstimator<P> {
    type V = EstimatorState<P>;

    open spec fn view(&self) -> EstimatorState<P> {
        EstimatorState {
            delay_controller: self.delay_controller@,
            loss_controller: self.loss_controller@,
            acked_bitrate_estimator: self.acked_bitrate_estimator@,
            probe_control: self.probe_control@,
            probe_estimator: self.probe_estimator@,
            started_at: self.started_at,
            alr_detector: self.alr_detector@,
            link_capacity_estimator: self.link_capacity_estimator@,
            last_updated_estimate: self.last_updated_estimate,
        }
    }
}

/// Takes in the completed probes. Every one that was sent while the application limited its own
/// rate counts for the link capacity. The result is the rate that the last one has measured.
fn take_probe_results<C: LinkCapacityEstimator>(
    capacity: &mut C,
    results: &Vec<(ProbeClusterConfig, Bitrate)>,
    now: Instant,
) -> (latest: Option<Bitrate>)
    ensures
        final(capacity)@ == capacity_after::<C>(old(capacity)@, results@, now),
        latest == latest_probe(results@),
{
    let mut latest: Option<Bitrate> = None;
    let mut i: usize = 0;
    while i < results.len()
        invariant
            i <= results.len(),
            capacity@ == capacity_after::<C>(old(capacity)@, results@.take(i as int), now),
            latest == latest_probe(results@.take(i as int)),
        decreases results.len() - i,
    {
        let ghost seen = results@.take(i + 1);
        assert(seen.drop_last() == results@.take(i as int));
        assert(seen.last() == results@[i as int]);
        let (config, bitrate) = results[i];
        latest = Some(bitrate);
        if config.is_alr_probe() {
            capacity.update_from_probe(bitrate, now);
        }
        i = i + 1;
    }
    assert(results@.take(i as int) == results@);
    latest
}

/// Takes in the acknowledged packets.
fn take_acked_packets<A: AckedBitrateEstimator>(acked: &mut A, packets: &Vec<AckedPacket>)
    ensures
        final(acked)@ == acked_after::<A>(old(acked)@, packets@),
{
    let mut i: usize = 0;
    while i < packets.len()
        invariant
            i <= packets.len(),
            acked@ == acked_after::<A>(old(acked)@, packets@.take(i as int)),
        decreases packets.len() - i,
    {
        let ghost seen = packets@.take(i + 1);
        assert(seen.drop_last() == packets@.take(i as int));
        assert(seen.last() == packets@[i as int]);
        acked.update(packets[i].remote_recv_time, packets[i].size);
        i = i + 1;
    }
    assert(packets@.take(i as int) == packets@);
}

impl<P: Parts> SendSideBandwidthEstimator<P> {
    /// An estimator that starts from an initial estimate.
    pub fn new(initial_bitrate: Bitrate) -> (estimator: Self)
        ensures
            estimator@ == EstimatorState::<P>::start(initial_bitrate),
    {
        let mut alr_detector = P::Alr::new();
        alr_detector.set_estimated_bitrate(initial_bitrate);

        let mut loss_controller = P::Loss::new();
        loss_controller.set_bandwidth_estimate(initial_bitrate);

        SendSideBandwidthEstimator {
            delay_controller: P::Delay::new(initial_bitrate),
            loss_controller,
            acked_bitrate_estimator: P::Acked::new(initial_bitrate_window(), bitrate_window()),
            probe_control: P::Probes::new(),
            probe_estimator: P::ProbeResults::new(),
            started_at: None,
            alr_detector,
            link_capacity_estimator: P::Capacity::new(),
            last_updated_estimate: None,
        }
    }

    /// Takes in a sent packet. Packets are not meant to be empty.
    pub fn on_packet_sent(&mut self, bytes: DataSize, now: Instant)
        ensures
            final(self)@ == (EstimatorState {
                alr_detector: P::Alr::on_bytes(old(self)@.alr_detector, bytes, now),
                ..old(self)@
            }),
    {
        self.alr_detector.on_bytes_sent(bytes, now);
    }

    /// Whether the delay based detector signals overuse. Padding stops while it does.
    pub fn is_overusing(&self) -> (overuse: bool)
        ensures
            overuse == P::Delay::overuse_of(self@.delay_controller),
    {
        self.delay_controller.is_overusing()
    }

    /// Takes in a TWCC report.
    pub fn update(&mut self, records: &[TwccSendRecord], now: Instant)
        ensures
            final(self)@ == old(self)@.on_update(records@, now),
    {
        if self.started_at.is_none() {
            self.started_at = Some(now);
        }
        let results = self.probe_estimator.update(records);
        // The link capacity learns of every probe, the delay based controller of the last one.
        let latest_probe_result = take_probe_results(
            &mut self.link_capacity_estimator,
            &results,
            now,
        );

        let mut acked_packets = collect_acked_packets(records);
        let count: usize = records.len();
        let lost: usize = count - acked_packets.len();
        sort_by_receive_time(&mut acked_packets);
        take_acked_packets(&mut self.acked_bitrate_estimator, &acked_packets);
        let acked_bitrate = self.acked_bitrate_estimator.current_estimate();

        let probe_result = match latest_probe_result {
            Some(bitrate) => Some(
                limit_probe_bitrate(
                    bitrate,
                    acked_bitrate,
                    self.delay_controller.last_estimate(),
                ),
            ),
            None => None,
        };
        let maybe_estimate = self.delay_controller.update(
            acked_packets.as_slice(),
            acked_bitrate,
            probe_result,
            now,
        );
        let delay_estimate = match maybe_estimate {
            Some(estimate) => estimate,
            None => return ,
        };

        // During startup with no loss, the delay based estimate is used directly.
        if in_startup_phase(self.started_at, now) && loss_is_negligible(lost, count) {
            self.loss_controller.set_bandwidth_estimate(delay_estimate);
            return ;
        }
        if probe_result.is_some() {
            self.loss_controller.set_bandwidth_estimate(delay_estimate);
        }
        if let Some(acked_bitrate) = acked_bitrate {
            self.loss_controller.set_acknowledged_bitrate(acked_bitrate);
        }
        self.loss_controller.update_bandwidth_estimate(records, delay_estimate);
        // The delay based estimate is the upper limit.
        if let Some(loss_estimate) = self.loss_controller.loss_based_result().bandwidth_estimate {
            if loss_estimate.bits > delay_estimate.bits {
                self.loss_controller.set_bandwidth_estimate(delay_estimate);
            }
        }
        self.propagate_estimate();
    }

    /// When the next timeout is due, and what for.
    pub fn poll_timeout(&self) -> (timeout: (Option<Instant>, Reason))
        ensures
            timeout == self@.timeout(),
    {
        let delay_timeout = Some(self.delay_controller.poll_timeout());
        let probe_timeout = Some(self.probe_control.poll_timeout());
        let probe_estimator_timeout = Some(self.probe_estimator.poll_timeout());
        soonest(
            soonest(
                (delay_timeout, Reason::BweDelayControl),
                (probe_timeout, Reason::BweProbeControl),
            ),
            (probe_estimator_timeout, Reason::BweProbeEstimator),
        )
    }

    /// Handles a timeout. The result is the probe to start, if there is one.
    pub fn handle_timeout(
        &mut self,
        desired_bitrate: Bitrate,
        do_probe: bool,
        now: Instant,
    ) -> (probe: Option<ProbeClusterConfig>)
        ensures
            (final(self)@, probe) == old(self)@.on_timeout(desired_bitrate, do_probe, now),
    {
        let acked_bitrate = self.acked_bitrate_estimator.current_estimate();
        self.delay_controller.handle_timeout(acked_bitrate, now);
        self.probe_control.set_desired_bitrate(desired_bitrate);

        let alr_start_time = self.alr_detector.alr_start_time();
        match alr_start_time {
            Some(start) => self.probe_control.set_alr_start_time(start),
            None => self.probe_control.set_alr_stop_time(now),
        }
        self.loss_controller.set_alr_start_time(alr_start_time);

        let link_capacity = self.link_capacity_estimator.capacity_estimate(now);
        self.loss_controller.set_link_capacity_estimate(link_capacity);

        self.probe_estimator.handle_timeout(now);
        self.propagate_estimate();

        if !do_probe {
            self.probe_estimator.clear_probes();
        }
        self.probe_control.enable(do_probe);
        self.probe_control.handle_timeout(now)
    }

    /// Tells the parts that build on it of the estimate, if it has changed.
    pub fn propagate_estimate(&mut self)
        ensures
            final(self)@ == old(self)@.propagated(),
    {
        let estimate = match self.last_estimate() {
            Some(estimate) => estimate,
            None => return ,
        };
        if let Some(last) = self.last_updated_estimate {
            if last == estimate {
                return ;
            }
        }
        let cause = self.bandwidth_limited_cause();
        self.probe_control.set_estimated_bitrate(estimate, cause);
        self.alr_detector.set_estimated_bitrate(estimate);
        self.last_updated_estimate = Some(estimate);
    }

    /// Why the estimate is no higher than it is.
    pub fn bandwidth_limited_cause(&self) -> (cause: BandwidthLimitedCause)
        ensures
            cause == self@.cause(),
    {
        if self.delay_controller.is_overusing() {
            return BandwidthLimitedCause::DelayBasedLimitedDelayIncreased;
        }
        match self.loss_controller.loss_based_result().state {
            LossControllerState::DelayBased => BandwidthLimitedCause::DelayBasedLimited,
            LossControllerState::Increasing => BandwidthLimitedCause::LossLimitedBweIncreasing,
            LossControllerState::Decreasing => BandwidthLimitedCause::LossLimitedBwe,
        }
    }

    /// The latest estimate.
    pub fn last_estimate(&self) -> (estimate: Option<Bitrate>)
        ensures
            estimate == self@.last_estimate(),
    {
        let delay_estimate = self.delay_controller.last_estimate();
        let loss_result = self.loss_controller.loss_based_result();
        match loss_result.state {
            // Loss does not limit the bandwidth.
            LossControllerState::DelayBased => delay_estimate,
            // Loss limits the bandwidth, or has done so and it recovers.
            LossControllerState::Decreasing | LossControllerState::Increasing => {
                match (delay_estimate, loss_result.bandwidth_estimate) {
                    (Some(delay), Some(loss)) => Some(delay.min(loss)),
                    (None, loss) => loss,
                    (delay, None) => delay,
                }
            },
        }
    }

    /// Starts to analyze a probe cluster. To be called when the pacer starts to send it, so that
    /// the estimator knows which cluster to look for in TWCC reports. The result is whether the
    /// probe was accepted.
    pub fn start_probe(&mut self, config: ProbeClusterConfig, now: Instant) -> (accepted: bool)
        ensures
            ({
                let (probe_estimator, reply) = P::ProbeResults::on_probe_start(
                    old(self)@.probe_estimator,
                    config,
                    now,
                );
                &&& accepted == reply
                &&& final(self)@ == (EstimatorState { probe_estimator, ..old(self)@ })
            }),
            accepted ==> P::ProbeResults::watch_of(final(self)@.probe_estimator, config.cluster)
                == ProbeWatch::Sending,
            forall|cluster: TwccClusterId|
                #![trigger P::ProbeResults::watch_of(final(self)@.probe_estimator, cluster)]
                #![trigger P::ProbeResults::feedback_of(final(self)@.probe_estimator, cluster)]
                cluster != config.cluster || !accepted ==> {
                    &&& P::ProbeResults::watch_of(final(self)@.probe_estimator, cluster)
                        == P::ProbeResults::watch_of(old(self)@.probe_estimator, cluster)
                    &&& P::ProbeResults::feedback_of(final(self)@.probe_estimator, cluster)
                        == P::ProbeResults::feedback_of(old(self)@.probe_estimator, cluster)
                },
    {
        let ghost before = self.probe_estimator@;
        let accepted = self.probe_estimator.probe_start(config, now);
        proof {
            P::ProbeResults::accepted_is_watched(before, config, now);
            assert forall|cluster: TwccClusterId|
                #![trigger P::ProbeResults::watch_of(self.probe_estimator@, cluster)]
                #![trigger P::ProbeResults::feedback_of(self.probe_estimator@, cluster)]
                cluster != config.cluster || !accepted implies P::ProbeResults::watch_of(
                self.probe_estimator@,
                cluster,
            ) == P::ProbeResults::watch_of(before, cluster) && P::ProbeResults::feedback_of(
                self.probe_estimator@,
                cluster,
            ) == P::ProbeResults::feedback_of(before, cluster) by {
                P::ProbeResults::start_leaves_the_others(before, config, now, cluster);
            }
        }
        accepted
    }

    /// Ends a probe cluster. To be called when the pacer has sent it. Late reports may still
    /// refine its result.
    pub fn end_probe(&mut self, now: Instant, cluster_id: TwccClusterId)
        ensures
            final(self)@ == (EstimatorState {
                probe_estimator: P::ProbeResults::on_probe_end(
                    old(self)@.probe_estimator,
                    now,
                    cluster_id,
                ),
                ..old(self)@
            }),
    {
        self.probe_estimator.end_probe(now, cluster_id);
    }

    /// Starts anew from an initial estimate.
    pub fn reset(&mut self, init_bitrate: Bitrate)
        ensures
            final(self)@ == EstimatorState::<P>::start(init_bitrate),
    {
        *self = SendSideBandwidthEstimator::new(init_bitrate);
    }
}

} // verus!
