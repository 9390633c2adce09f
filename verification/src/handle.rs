//! Bandwidth estimation as an application uses it.
use crate::estimator::{EstimatorState, SendSideBandwidthEstimator};
use crate::parts::{
    AlrDetector, DelayController, EstimateSmoother, Parts, ProbeEstimator, ProbeWatch,
};
use crate::timeout::Reason;
use crate::twcc::{ProbeClusterConfig, TwccClusterId, TwccSendRecord};
use crate::units::{Bitrate, DataSize, Instant};
use vstd::prelude::*;

verus! {

/// The state of bandwidth estimation.
pub struct BweState<P: Parts> {
    pub bwe: EstimatorState<P>,
    /// The rate that is allocated to media.
    pub current_bitrate: Bitrate,
    /// The rate that the application would like to have.
    pub desired_bitrate: Bitrate,
    pub smoother: <P::Smoother as View>::V,
}

impl<P: Parts> BweState<P> {
    /// The state to start in.
    pub open spec fn start(initial: Bitrate) -> Self {
        BweState {
            bwe: EstimatorState::start(initial),
            current_bitrate: Bitrate::zero(),
            desired_bitrate: Bitrate::zero(),
            smoother: P::Smoother::start(),
        }
    }

    /// The state after a timeout, and the probe to start, if there is one. The smoother gets to
    /// see the estimate that the timeout leaves behind.
    pub open spec fn on_timeout(self, do_probe: bool, now: Instant) -> (
        Self,
        Option<ProbeClusterConfig>,
    ) {
        let (bwe, probe) = self.bwe.on_timeout(self.desired_bitrate, do_probe, now);
        let smoother = match bwe.last_estimate() {
            Some(estimate) => P::Smoother::on_record(self.smoother, now, estimate),
            None => self.smoother,
        };
        (BweState { bwe, smoother, ..self }, probe)
    }
}

/// Bandwidth estimation for one session.
pub struct Bwe<P: Parts> {
    pub bwe: SendSideBandwidthEstimator<P>,
    /// The rate that is allocated to media.
    pub current_bitrate: Bitrate,
    /// The rate that the application would like to have.
    pub desired_bitrate: Bitrate,
    pub smoother: P::Smoother,
}

impl<P: Parts> View for Bwe<P> {
    type V = BweState<P>;

    open spec fn view(&self) -> BweState<P> {
        BweState {
            bwe: self.bwe@,
            current_bitrate: self.current_bitrate,
            desired_bitrate: self.desired_bitrate,
            smoother: self.smoother@,
        }
    }
}

impl<P: Parts> Bwe<P> {
    /// Starts from an initial estimate, with nothing allocated and nothing desired.
    pub fn new(initial: Bitrate) -> (bwe: Self)
        ensures
            bwe@ == BweState::<P>::start(initial),
    {
        let send_side_bwe = SendSideBandwidthEstimator::new(initial);
        Bwe {
            bwe: send_side_bwe,
            current_bitrate: Bitrate::zero(),
            desired_bitrate: Bitrate::zero(),
            smoother: P::Smoother::new(),
        }
    }

    /// Handles a timeout. The result is the probe to start, if there is one.
    pub fn handle_timeout(&mut self, now: Instant, do_probe: bool) -> (probe: Option<
        ProbeClusterConfig,
    >)
        ensures
            (final(self)@, probe) == old(self)@.on_timeout(do_probe, now),
    {
        let result = self.bwe.handle_timeout(self.desired_bitrate, do_probe, now);
        if let Some(estimate) = self.bwe.last_estimate() {
            self.smoother.record(now, estimate);
        }
        result
    }

    /// Starts to analyze a probe cluster. The result is whether it was accepted.
    pub fn start_probe(&mut self, config: ProbeClusterConfig, now: Instant) -> (accepted: bool)
        ensures
            ({
                let (probe_estimator, reply) = P::ProbeResults::on_probe_start(
                    old(self)@.bwe.probe_estimator,
                    config,
                    now,
                );
                &&& accepted == reply
                &&& final(self)@ == (BweState {
                    bwe: EstimatorState { probe_estimator, ..old(self)@.bwe },
                    ..old(self)@
                })
            }),
            accepted ==> P::ProbeResults::watch_of(
                final(self)@.bwe.probe_estimator,
                config.cluster,
            ) == ProbeWatch::Sending,
            forall|cluster: TwccClusterId|
                #![trigger P::ProbeResults::watch_of(final(self)@.bwe.probe_estimator, cluster)]
                #![trigger P::ProbeResults::feedback_of(final(self)@.bwe.probe_estimator, cluster)]
                cluster != config.cluster || !accepted ==> {
                    &&& P::ProbeResults::watch_of(final(self)@.bwe.probe_estimator, cluster)
                        == P::ProbeResults::watch_of(old(self)@.bwe.probe_estimator, cluster)
                    &&& P::ProbeResults::feedback_of(final(self)@.bwe.probe_estimator, cluster)
                        == P::ProbeResults::feedback_of(old(self)@.bwe.probe_estimator, cluster)
                },
    {
        self.bwe.start_probe(config, now)
    }

    /// Ends a probe cluster.
    pub fn end_probe(&mut self, now: Instant, cluster_id: TwccClusterId)
        ensures
            final(self)@ == (BweState {
                bwe: EstimatorState {
                    probe_estimator: P::ProbeResults::on_probe_end(
                        old(self)@.bwe.probe_estimator,
                        now,
                        cluster_id,
                    ),
                    ..old(self)@.bwe
                },
                ..old(self)@
            }),
    {
        self.bwe.end_probe(now, cluster_id);
    }

    /// Starts the estimator anew. What is allocated and desired stays, and so does what the
    /// smoother has seen.
    pub fn reset(&mut self, init_bitrate: Bitrate)
        ensures
            final(self)@ == (BweState {
                bwe: EstimatorState::start(init_bitrate),
                ..old(self)@
            }),
    {
        self.bwe.reset(init_bitrate);
    }

    /// Takes in a TWCC report.
    pub fn update(&mut self, records: &[TwccSendRecord], now: Instant)
        ensures
            final(self)@ == (BweState {
                bwe: old(self)@.bwe.on_update(records@, now),
                ..old(self)@
            }),
    {
        self.bwe.update(records, now);
    }

    /// The smoothed estimate to report, if there is one.
    pub fn poll_estimate(&mut self) -> (estimate: Option<Bitrate>)
        ensures
            ({
                let (smoother, reply) = P::Smoother::on_poll(old(self)@.smoother);
                &&& estimate == reply
                &&& final(self)@ == (BweState { smoother, ..old(self)@ })
            }),
    {
        self.smoother.poll()
    }

    /// When the next timeout is due, and what for.
    pub fn poll_timeout(&self) -> (timeout: (Option<Instant>, Reason))
        ensures
            timeout == self@.bwe.timeout(),
    {
        self.bwe.poll_timeout()
    }

    /// The latest estimate.
    pub fn last_estimate(&self) -> (estimate: Option<Bitrate>)
        ensures
            estimate == self@.bwe.last_estimate(),
    {
        self.bwe.last_estimate()
    }

    /// Takes in a sent packet. Packets are not meant to be empty.
    pub fn on_packet_sent(&mut self, payload_size: DataSize, now: Instant)
        ensures
            final(self)@ == (BweState {
                bwe: EstimatorState {
                    alr_detector: P::Alr::on_bytes(
                        old(self)@.bwe.alr_detector,
                        payload_size,
                        now,
                    ),
                    ..old(self)@.bwe
                },
                ..old(self)@
            }),
    {
        self.bwe.on_packet_sent(payload_size, now);
    }

    /// Takes in the rate that the application would like to have.
    pub fn set_desired_bitrate(&mut self, v: Bitrate)
        ensures
            final(self)@ == (BweState { desired_bitrate: v, ..old(self)@ }),
    {
        self.desired_bitrate = v;
    }

    /// Takes in the rate that is allocated to media.
    pub fn set_current_bitrate(&mut self, v: Bitrate)
        ensures
            final(self)@ == (BweState { current_bitrate: v, ..old(self)@ }),
    {
        self.current_bitrate = v;
    }

    /// The rate that is allocated to media.
    pub fn current_bitrate(&self) -> (rate: Bitrate)
        ensures
            rate == self@.current_bitrate,
    {
        self.current_bitrate
    }

    /// Whether the delay based detector signals overuse.
    pub fn is_overusing(&self) -> (overuse: bool)
        ensures
            overuse == P::Delay::overuse_of(self@.bwe.delay_controller),
    {
        self.bwe.is_overusing()
    }
}

} // verus!
