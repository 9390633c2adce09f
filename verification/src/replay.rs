//! Parts that replay measurements made elsewhere.
//!
//! The application puts in what a part is to answer, and can look up what the part was last
//! given. With these parts the estimator runs from a recorded trace, or step by step.
use crate::alr::BudgetAlrDetector;
use crate::capacity::ProvenLinkCapacity;
use crate::packet::{is_acked, AckedPacket};
use crate::parts::{
    cluster_feedback, AckedBitrateEstimator, BandwidthLimitedCause, DelayController,
    EstimateSmoother, LossBasedResult, LossController, LossControllerState, Parts, ProbeControl,
    ProbeEstimator, ProbeWatch,
};
use crate::twcc::{ProbeClusterConfig, TwccClusterId, TwccSendRecord};
use crate::units::{time_between, Bitrate, DataSize, Duration, Instant};
use vstd::prelude::*;

verus! {

/// A timeout that is never due.
#[verifier::allow_in_spec]
pub fn never() -> Instant
    returns
        (Instant { nanos: u128::MAX }),
{
    Instant { nanos: u128::MAX }
}

/// Replays delay based estimates.
pub struct ReplayDelayController {
    /// The estimate to start from.
    pub initial: Bitrate,
    /// What the next report gives.
    pub reply: Option<Bitrate>,
    /// The latest estimate that a report gave.
    pub last_estimate: Option<Bitrate>,
    /// Whether delay builds up.
    pub overusing: bool,
    /// When the next timeout is due.
    pub timeout: Instant,
    /// The packets of the last report.
    pub packets: Vec<AckedPacket>,
    /// The acknowledged rate as last given.
    pub acked_bitrate: Option<Bitrate>,
    /// The probe result of the last report.
    pub probe_bitrate: Option<Bitrate>,
}

/// The state of a [`ReplayDelayController`].
pub struct ReplayDelayState {
    pub initial: Bitrate,
    pub reply: Option<Bitrate>,
    pub last_estimate: Option<Bitrate>,
    pub overusing: bool,
    pub timeout: Instant,
    pub packets: Seq<AckedPacket>,
    pub acked_bitrate: Option<Bitrate>,
    pub probe_bitrate: Option<Bitrate>,
}

impl View for ReplayDelayController {
    type V = ReplayDelayState;

    open spec fn view(&self) -> ReplayDelayState {
        ReplayDelayState {
            initial: self.initial,
            reply: self.reply,
            last_estimate: self.last_estimate,
            overusing: self.overusing,
            timeout: self.timeout,
            packets: self.packets@,
            acked_bitrate: self.acked_bitrate,
            probe_bitrate: self.probe_bitrate,
        }
    }
}

impl DelayController for ReplayDelayController {
    open spec fn start(initial: Bitrate) -> ReplayDelayState {
        ReplayDelayState {
            initial,
            reply: None,
            last_estimate: None,
            overusing: false,
            timeout: never(),
            packets: Seq::empty(),
            acked_bitrate: None,
            probe_bitrate: None,
        }
    }

    open spec fn on_update(
        state: ReplayDelayState,
        packets: Seq<AckedPacket>,
        acked_bitrate: Option<Bitrate>,
        probe_bitrate: Option<Bitrate>,
        now: Instant,
    ) -> (ReplayDelayState, Option<Bitrate>) {
        (
            ReplayDelayState {
                last_estimate: if state.reply is Some {
                    state.reply
                } else {
                    state.last_estimate
                },
                packets,
                acked_bitrate,
                probe_bitrate,
                ..state
            },
            state.reply,
        )
    }

    open spec fn on_timeout(
        state: ReplayDelayState,
        acked_bitrate: Option<Bitrate>,
        now: Instant,
    ) -> ReplayDelayState {
        ReplayDelayState { acked_bitrate, ..state }
    }

    open spec fn estimate_of(state: ReplayDelayState) -> Option<Bitrate> {
        state.last_estimate
    }

    open spec fn overuse_of(state: ReplayDelayState) -> bool {
        state.overusing
    }

    open spec fn timeout_of(state: ReplayDelayState) -> Instant {
        state.timeout
    }

    fn new(initial_bitrate: Bitrate) -> (controller: Self) {
        ReplayDelayController {
            initial: initial_bitrate,
            reply: None,
            last_estimate: None,
            overusing: false,
            timeout: never(),
            packets: Vec::new(),
            acked_bitrate: None,
            probe_bitrate: None,
        }
    }

    fn update(
        &mut self,
        acked_packets: &[AckedPacket],
        acked_bitrate: Option<Bitrate>,
        probe_bitrate: Option<Bitrate>,
        now: Instant,
    ) -> (estimate: Option<Bitrate>) {
        let mut packets: Vec<AckedPacket> = Vec::new();
        let mut i: usize = 0;
        while i < acked_packets.len()
            invariant
                i <= acked_packets.len(),
                packets@ == acked_packets@.take(i as int),
            decreases acked_packets.len() - i,
        {
            packets.push(acked_packets[i]);
            i = i + 1;
        }
        assert(packets@ == acked_packets@);
        self.packets = packets;
        self.acked_bitrate = acked_bitrate;
        self.probe_bitrate = probe_bitrate;
        if self.reply.is_some() {
            self.last_estimate = self.reply;
        }
        self.reply
    }

    fn handle_timeout(&mut self, acked_bitrate: Option<Bitrate>, now: Instant) {
        self.acked_bitrate = acked_bitrate;
    }

    fn last_estimate(&self) -> (estimate: Option<Bitrate>) {
        self.last_estimate
    }

    fn is_overusing(&self) -> (overuse: bool) {
        self.overusing
    }

    fn poll_timeout(&self) -> (at: Instant) {
        self.timeout
    }
}

/// Replays loss based results.
#[derive(Debug, Clone, Copy, PartialEq, Eq, Structural)]
pub struct ReplayLossController {
    /// What the next report gives, if it changes the result.
    pub reply: Option<LossBasedResult>,
    /// What the controller has to say.
    pub result: LossBasedResult,
    /// The acknowledged rate as last given.
    pub acknowledged: Option<Bitrate>,
    /// The delay based estimate of the last report.
    pub delay_estimate: Option<Bitrate>,
    /// The number of records in the last report.
    pub records: usize,
    /// Since when the application limits its own rate, as last given.
    pub alr_start: Option<Instant>,
    /// The link capacity as last given.
    pub capacity: Option<Bitrate>,
}

impl View for ReplayLossController {
    type V = ReplayLossController;

    open spec fn view(&self) -> ReplayLossController {
        *self
    }
}

impl LossController for ReplayLossController {
    open spec fn start() -> ReplayLossController {
        ReplayLossController {
            reply: None,
            result: LossBasedResult {
                bandwidth_estimate: None,
                state: LossControllerState::DelayBased,
            },
            acknowledged: None,
            delay_estimate: None,
            records: 0,
            alr_start: None,
            capacity: None,
        }
    }

    open spec fn on_bandwidth_estimate(
        state: ReplayLossController,
        estimate: Bitrate,
    ) -> ReplayLossController {
        ReplayLossController {
            result: LossBasedResult { bandwidth_estimate: Some(estimate), ..state.result },
            ..state
        }
    }

    open spec fn on_acknowledged_bitrate(
        state: ReplayLossController,
        acknowledged: Bitrate,
    ) -> ReplayLossController {
        ReplayLossController { acknowledged: Some(acknowledged), ..state }
    }

    open spec fn on_update(
        state: ReplayLossController,
        records: Seq<TwccSendRecord>,
        delay_estimate: Bitrate,
    ) -> ReplayLossController {
        ReplayLossController {
            result: match state.reply {
                Some(result) => result,
                None => state.result,
            },
            delay_estimate: Some(delay_estimate),
            records: records.len() as usize,
            ..state
        }
    }

    open spec fn on_alr_start_time(
        state: ReplayLossController,
        start: Option<Instant>,
    ) -> ReplayLossController {
        ReplayLossController { alr_start: start, ..state }
    }

    open spec fn on_link_capacity(
        state: ReplayLossController,
        capacity: Option<Bitrate>,
    ) -> ReplayLossController {
        ReplayLossController { capacity, ..state }
    }

    open spec fn result_of(state: ReplayLossController) -> LossBasedResult {
        state.result
    }

    proof fn estimate_is_set(state: ReplayLossController, estimate: Bitrate) {
    }

    fn new() -> (controller: Self) {
        ReplayLossController {
            reply: None,
            result: LossBasedResult {
                bandwidth_estimate: None,
                state: LossControllerState::DelayBased,
            },
            acknowledged: None,
            delay_estimate: None,
            records: 0,
            alr_start: None,
            capacity: None,
        }
    }

    fn set_bandwidth_estimate(&mut self, estimate: Bitrate) {
        self.result.bandwidth_estimate = Some(estimate);
    }

    fn set_acknowledged_bitrate(&mut self, acknowledged: Bitrate) {
        self.acknowledged = Some(acknowledged);
    }

    fn update_bandwidth_estimate(&mut self, records: &[TwccSendRecord], delay_estimate: Bitrate) {
        if let Some(result) = self.reply {
            self.result = result;
        }
        self.delay_estimate = Some(delay_estimate);
        self.records = records.len();
    }

    fn set_alr_start_time(&mut self, start: Option<Instant>) {
        self.alr_start = start;
    }

    fn set_link_capacity_estimate(&mut self, capacity: Option<Bitrate>) {
        self.capacity = capacity;
    }

    fn loss_based_result(&self) -> (result: LossBasedResult) {
        self.result
    }
}

/// Replays an acknowledged rate.
pub struct ReplayAckedBitrateEstimator {
    /// The window for the first estimate.
    pub initial_window: Duration,
    /// The window for the estimates that follow.
    pub window: Duration,
    /// The acknowledged rate.
    pub estimate: Option<Bitrate>,
    /// The packets given so far.
    pub packets: Vec<(Instant, DataSize)>,
}

/// The state of a [`ReplayAckedBitrateEstimator`].
pub struct ReplayAckedState {
    pub initial_window: Duration,
    pub window: Duration,
    pub estimate: Option<Bitrate>,
    pub packets: Seq<(Instant, DataSize)>,
}

impl View for ReplayAckedBitrateEstimator {
    type V = ReplayAckedState;

    open spec fn view(&self) -> ReplayAckedState {
        ReplayAckedState {
            initial_window: self.initial_window,
            window: self.window,
            estimate: self.estimate,
            packets: self.packets@,
        }
    }
}

impl AckedBitrateEstimator for ReplayAckedBitrateEstimator {
    open spec fn start(initial_window: Duration, window: Duration) -> ReplayAckedState {
        ReplayAckedState { initial_window, window, estimate: None, packets: Seq::empty() }
    }

    open spec fn on_packet(
        state: ReplayAckedState,
        received_at: Instant,
        size: DataSize,
    ) -> ReplayAckedState {
        ReplayAckedState { packets: state.packets.push((received_at, size)), ..state }
    }

    open spec fn estimate_of(state: ReplayAckedState) -> Option<Bitrate> {
        state.estimate
    }

    fn new(initial_window: Duration, window: Duration) -> (estimator: Self) {
        ReplayAckedBitrateEstimator { initial_window, window, estimate: None, packets: Vec::new() }
    }

    fn update(&mut self, received_at: Instant, size: DataSize) {
        self.packets.push((received_at, size));
    }

    fn current_estimate(&self) -> (estimate: Option<Bitrate>) {
        self.estimate
    }
}

/// Replays the start of probes.
pub struct ReplayProbeControl {
    /// The probe that the next timeout starts, if probing is switched on.
    pub reply: Option<ProbeClusterConfig>,
    /// When the next timeout is due.
    pub timeout: Instant,
    /// Whether probing is switched on.
    pub enabled: bool,
    /// The rate that the application would like to have, as last given.
    pub desired: Option<Bitrate>,
    /// Since when the application limits its own rate, as last given.
    pub alr_start: Option<Instant>,
    /// The estimates given so far.
    pub estimates: Vec<(Bitrate, BandwidthLimitedCause)>,
}

/// The state of a [`ReplayProbeControl`].
pub struct ReplayProbeControlState {
    pub reply: Option<ProbeClusterConfig>,
    pub timeout: Instant,
    pub enabled: bool,
    pub desired: Option<Bitrate>,
    pub alr_start: Option<Instant>,
    pub estimates: Seq<(Bitrate, BandwidthLimitedCause)>,
}

impl View for ReplayProbeControl {
    type V = ReplayProbeControlState;

    open spec fn view(&self) -> ReplayProbeControlState {
        ReplayProbeControlState {
            reply: self.reply,
            timeout: self.timeout,
            enabled: self.enabled,
            desired: self.desired,
            alr_start: self.alr_start,
            estimates: self.estimates@,
        }
    }
}

impl ProbeControl for ReplayProbeControl {
    open spec fn start() -> ReplayProbeControlState {
        ReplayProbeControlState {
            reply: None,
            timeout: never(),
            enabled: false,
            desired: None,
            alr_start: None,
            estimates: Seq::empty(),
        }
    }

    open spec fn on_desired_bitrate(
        state: ReplayProbeControlState,
        desired: Bitrate,
    ) -> ReplayProbeControlState {
        ReplayProbeControlState { desired: Some(desired), ..state }
    }

    open spec fn on_alr_start(
        state: ReplayProbeControlState,
        start: Instant,
    ) -> ReplayProbeControlState {
        ReplayProbeControlState { alr_start: Some(start), ..state }
    }

    open spec fn on_alr_stop(
        state: ReplayProbeControlState,
        now: Instant,
    ) -> ReplayProbeControlState {
        ReplayProbeControlState { alr_start: None, ..state }
    }

    open spec fn on_estimate(
        state: ReplayProbeControlState,
        estimate: Bitrate,
        cause: BandwidthLimitedCause,
    ) -> ReplayProbeControlState {
        ReplayProbeControlState { estimates: state.estimates.push((estimate, cause)), ..state }
    }

    open spec fn on_enable(
        state: ReplayProbeControlState,
        enabled: bool,
    ) -> ReplayProbeControlState {
        ReplayProbeControlState { enabled, ..state }
    }

    open spec fn on_timeout(state: ReplayProbeControlState, now: Instant) -> (
        ReplayProbeControlState,
        Option<ProbeClusterConfig>,
    ) {
        if state.enabled {
            (ReplayProbeControlState { reply: None, ..state }, state.reply)
        } else {
            (state, None)
        }
    }

    open spec fn timeout_of(state: ReplayProbeControlState) -> Instant {
        state.timeout
    }

    fn new() -> (control: Self) {
        ReplayProbeControl {
            reply: None,
            timeout: never(),
            enabled: false,
            desired: None,
            alr_start: None,
            estimates: Vec::new(),
        }
    }

    fn set_desired_bitrate(&mut self, desired: Bitrate) {
        self.desired = Some(desired);
    }

    fn set_alr_start_time(&mut self, start: Instant) {
        self.alr_start = Some(start);
    }

    fn set_alr_stop_time(&mut self, now: Instant) {
        self.alr_start = None;
    }

    fn set_estimated_bitrate(&mut self, estimate: Bitrate, cause: BandwidthLimitedCause) {
        self.estimates.push((estimate, cause));
    }

    fn enable(&mut self, enabled: bool) {
        self.enabled = enabled;
    }

    fn handle_timeout(&mut self, now: Instant) -> (probe: Option<ProbeClusterConfig>) {
        if self.enabled {
            let probe = self.reply;
            self.reply = None;
            probe
        } else {
            None
        }
    }

    fn poll_timeout(&self) -> (at: Instant) {
        self.timeout
    }
}

/// For how long the replaying evaluation of probes looks for a cluster that has been sent, in
/// nanoseconds.
pub const HISTORY_NANOS: u64 = 1_000_000_000;

/// A cluster that is looked for, and when its end was noted.
pub type Watched = (TwccClusterId, Option<Instant>);

/// Replays probe results.
pub struct ReplayProbeEstimator {
    /// What the next report completes.
    pub results: Vec<(ProbeClusterConfig, Bitrate)>,
    /// Whether probes are accepted.
    pub accepts: bool,
    /// When the next timeout is due.
    pub timeout: Instant,
    /// The clusters that are looked for. Of two entries for one cluster the later one counts.
    pub watched: Vec<Watched>,
    /// The acknowledged packets taken in for them.
    pub taken: Vec<TwccSendRecord>,
    /// When the last timeout was handled.
    pub handled: Option<Instant>,
}

/// The state of a [`ReplayProbeEstimator`].
pub struct ReplayProbeEstimatorState {
    pub results: Seq<(ProbeClusterConfig, Bitrate)>,
    pub accepts: bool,
    pub timeout: Instant,
    pub watched: Seq<Watched>,
    pub taken: Seq<TwccSendRecord>,
    pub handled: Option<Instant>,
}

impl View for ReplayProbeEstimator {
    type V = ReplayProbeEstimatorState;

    open spec fn view(&self) -> ReplayProbeEstimatorState {
        ReplayProbeEstimatorState {
            results: self.results@,
            accepts: self.accepts,
            timeout: self.timeout,
            watched: self.watched@,
            taken: self.taken@,
            handled: self.handled,
        }
    }
}

/// Whether a cluster is looked for, by the last entry for it.
pub open spec fn watch_in(watched: Seq<Watched>, cluster: TwccClusterId) -> ProbeWatch
    decreases watched.len(),
{
    if watched.len() == 0 {
        ProbeWatch::Off
    } else if watched.last().0 == cluster {
        match watched.last().1 {
            None => ProbeWatch::Sending,
            Some(at) => ProbeWatch::Ended(at),
        }
    } else {
        watch_in(watched.drop_last(), cluster)
    }
}

/// Whether a record is of an acknowledged packet of a cluster that is looked for.
pub open spec fn is_looked_for(watched: Seq<Watched>, record: TwccSendRecord) -> bool {
    is_acked(record) && match record.cluster {
        Some(cluster) => watch_in(watched, cluster) != ProbeWatch::Off,
        None => false,
    }
}

/// Whether an entry is still within the history.
pub open spec fn is_within_history(entry: Watched, now: Instant) -> bool {
    match entry.1 {
        None => true,
        Some(at) => time_between(at, now).nanos <= HISTORY_NANOS,
    }
}

/// An entry after the end of a cluster.
pub open spec fn ended_entry(entry: Watched, now: Instant, cluster: TwccClusterId) -> Watched {
    if entry.0 == cluster && entry.1 is None {
        (cluster, Some(now))
    } else {
        entry
    }
}

/// The packets of one cluster among those taken in.
pub open spec fn taken_of(taken: Seq<TwccSendRecord>, cluster: TwccClusterId) -> Seq<
    TwccSendRecord,
> {
    taken.filter(|r: TwccSendRecord| r.cluster == Some(cluster))
}

/// Dropping entries keeps the watch of a cluster whose last entry stays.
proof fn lemma_watch_kept(watched: Seq<Watched>, now: Instant, cluster: TwccClusterId)
    requires
        match watch_in(watched, cluster) {
            ProbeWatch::Off => false,
            ProbeWatch::Sending => true,
            ProbeWatch::Ended(at) => time_between(at, now).nanos <= HISTORY_NANOS,
        },
    ensures
        watch_in(watched.filter(|w: Watched| is_within_history(w, now)), cluster) == watch_in(
            watched,
            cluster,
        ),
    decreases watched.len(),
{
    reveal(Seq::filter);
    let pred = |w: Watched| is_within_history(w, now);
    let rest = watched.drop_last();
    let last = watched.last();
    assert(rest.filter(pred).push(last).drop_last() == rest.filter(pred));
    if last.0 != cluster {
        lemma_watch_kept(rest, now, cluster);
    }
}

/// What noting an end does to the watch of each cluster.
proof fn lemma_watch_ended(
    watched: Seq<Watched>,
    now: Instant,
    ended: TwccClusterId,
    cluster: TwccClusterId,
)
    ensures
        watch_in(watched.map_values(|w: Watched| ended_entry(w, now, ended)), cluster) == if cluster
            == ended && watch_in(watched, cluster) == ProbeWatch::Sending {
            ProbeWatch::Ended(now)
        } else {
            watch_in(watched, cluster)
        },
    decreases watched.len(),
{
    let f = |w: Watched| ended_entry(w, now, ended);
    if watched.len() > 0 {
        lemma_watch_ended(watched.drop_last(), now, ended, cluster);
        assert(watched.map_values(f).drop_last() == watched.drop_last().map_values(f));
    }
}

/// Of a cluster that is looked for, every acknowledged packet is taken in.
proof fn lemma_taken(watched: Seq<Watched>, records: Seq<TwccSendRecord>, cluster: TwccClusterId)
    requires
        watch_in(watched, cluster) != ProbeWatch::Off,
    ensures
        taken_of(
            records.filter(|r: TwccSendRecord| is_looked_for(watched, r)),
            cluster,
        ).len() == cluster_feedback(records, cluster),
    decreases records.len(),
{
    reveal(Seq::filter);
    if records.len() > 0 {
        let looked = |r: TwccSendRecord| is_looked_for(watched, r);
        let rest = records.drop_last();
        lemma_taken(watched, rest, cluster);
        assert(rest.filter(looked).push(records.last()).drop_last() == rest.filter(looked));
    }
}

impl ReplayProbeEstimator {
    /// Whether a cluster is looked for at all.
    pub fn watches(&self, cluster: TwccClusterId) -> (watches: bool)
        ensures
            watches == (watch_in(self.watched@, cluster) != ProbeWatch::Off),
    {
        let mut left: usize = self.watched.len();
        assert(self.watched@.take(left as int) == self.watched@);
        while left > 0
            invariant
                left <= self.watched.len(),
                watch_in(self.watched@, cluster) == watch_in(
                    self.watched@.take(left as int),
                    cluster,
                ),
            decreases left,
        {
            assert(self.watched@.take(left as int).drop_last() == self.watched@.take(left - 1));
            if self.watched[left - 1].0 == cluster {
                return true;
            }
            left = left - 1;
        }
        false
    }
}

impl ProbeEstimator for ReplayProbeEstimator {
    open spec fn start() -> ReplayProbeEstimatorState {
        ReplayProbeEstimatorState {
            results: Seq::empty(),
            accepts: true,
            timeout: never(),
            watched: Seq::empty(),
            taken: Seq::empty(),
            handled: None,
        }
    }

    open spec fn on_records(
        state: ReplayProbeEstimatorState,
        records: Seq<TwccSendRecord>,
    ) -> (ReplayProbeEstimatorState, Seq<(ProbeClusterConfig, Bitrate)>) {
        let looked_for = records.filter(|r: TwccSendRecord| is_looked_for(state.watched, r));
        (
            ReplayProbeEstimatorState {
                results: Seq::empty(),
                taken: state.taken + looked_for,
                ..state
            },
            state.results,
        )
    }

    open spec fn on_timeout(
        state: ReplayProbeEstimatorState,
        now: Instant,
    ) -> ReplayProbeEstimatorState {
        ReplayProbeEstimatorState {
            watched: state.watched.filter(|w: Watched| is_within_history(w, now)),
            handled: Some(now),
            ..state
        }
    }

    open spec fn on_clear(state: ReplayProbeEstimatorState) -> ReplayProbeEstimatorState {
        ReplayProbeEstimatorState { watched: Seq::empty(), ..state }
    }

    open spec fn on_probe_start(
        state: ReplayProbeEstimatorState,
        config: ProbeClusterConfig,
        now: Instant,
    ) -> (ReplayProbeEstimatorState, bool) {
        if state.accepts {
            (
                ReplayProbeEstimatorState {
                    watched: state.watched.push((config.cluster, None)),
                    ..state
                },
                true,
            )
        } else {
            (state, false)
        }
    }

    open spec fn on_probe_end(
        state: ReplayProbeEstimatorState,
        now: Instant,
        cluster: TwccClusterId,
    ) -> ReplayProbeEstimatorState {
        ReplayProbeEstimatorState {
            watched: state.watched.map_values(|w: Watched| ended_entry(w, now, cluster)),
            ..state
        }
    }

    open spec fn timeout_of(state: ReplayProbeEstimatorState) -> Instant {
        state.timeout
    }

    open spec fn watch_of(
        state: ReplayProbeEstimatorState,
        cluster: TwccClusterId,
    ) -> ProbeWatch {
        watch_in(state.watched, cluster)
    }

    open spec fn feedback_of(state: ReplayProbeEstimatorState, cluster: TwccClusterId) -> nat {
        taken_of(state.taken, cluster).len()
    }

    open spec fn history() -> Duration {
        Duration { nanos: HISTORY_NANOS as u128 }
    }

    proof fn accepted_is_watched(
        state: ReplayProbeEstimatorState,
        config: ProbeClusterConfig,
        now: Instant,
    ) {
    }

    proof fn start_leaves_the_others(
        state: ReplayProbeEstimatorState,
        config: ProbeClusterConfig,
        now: Instant,
        cluster: TwccClusterId,
    ) {
        assert(state.watched.push((config.cluster, None)).drop_last() == state.watched);
    }

    proof fn end_is_noted(
        state: ReplayProbeEstimatorState,
        now: Instant,
        ended: TwccClusterId,
        cluster: TwccClusterId,
    ) {
        lemma_watch_ended(state.watched, now, ended, cluster);
    }

    proof fn history_is_kept(
        state: ReplayProbeEstimatorState,
        now: Instant,
        cluster: TwccClusterId,
    ) {
        if match watch_in(state.watched, cluster) {
            ProbeWatch::Off => false,
            ProbeWatch::Sending => true,
            ProbeWatch::Ended(at) => time_between(at, now).nanos <= HISTORY_NANOS,
        } {
            lemma_watch_kept(state.watched, now, cluster);
        }
    }

    proof fn report_is_taken_in(
        state: ReplayProbeEstimatorState,
        records: Seq<TwccSendRecord>,
        cluster: TwccClusterId,
    ) {
        if watch_in(state.watched, cluster) != ProbeWatch::Off {
            lemma_taken(state.watched, records, cluster);
            Seq::filter_distributes_over_add(
                state.taken,
                records.filter(|r: TwccSendRecord| is_looked_for(state.watched, r)),
                |r: TwccSendRecord| r.cluster == Some(cluster),
            );
        }
    }

    proof fn clear_leaves_none(state: ReplayProbeEstimatorState, cluster: TwccClusterId) {
    }

    fn new() -> (estimator: Self) {
        ReplayProbeEstimator {
            results: Vec::new(),
            accepts: true,
            timeout: never(),
            watched: Vec::new(),
            taken: Vec::new(),
            handled: None,
        }
    }

    fn update(&mut self, records: &[TwccSendRecord]) -> (results: Vec<
        (ProbeClusterConfig, Bitrate),
    >) {
        let ghost looked = |r: TwccSendRecord| is_looked_for(self.watched@, r);
        let mut i: usize = 0;
        proof {
            reveal(Seq::filter);
            assert(self.taken@ == old(self).taken@ + records@.take(0).filter(looked));
        }
        while i < records.len()
            invariant
                i <= records.len(),
                looked == (|r: TwccSendRecord| is_looked_for(self.watched@, r)),
                self.taken@ == old(self).taken@ + records@.take(i as int).filter(looked),
                self.results@ == old(self).results@,
                self.accepts == old(self).accepts,
                self.timeout == old(self).timeout,
                self.watched@ == old(self).watched@,
                self.handled == old(self).handled,
            decreases records.len() - i,
        {
            let ghost seen = records@.take(i + 1);
            proof {
                reveal(Seq::filter);
                assert(seen.drop_last() == records@.take(i as int));
                assert(seen.last() == records@[i as int]);
            }
            if let (Ok(_), Some(cluster)) = (AckedPacket::try_from(&records[i]), records[i].cluster) {
                if self.watches(cluster) {
                    self.taken.push(records[i]);
                }
            }
            assert(self.taken@ == old(self).taken@ + seen.filter(looked));
            i = i + 1;
        }
        assert(records@.take(i as int) == records@);
        let mut results: Vec<(ProbeClusterConfig, Bitrate)> = Vec::new();
        std::mem::swap(&mut results, &mut self.results);
        results
    }

    fn handle_timeout(&mut self, now: Instant) {
        let ghost pred = |w: Watched| is_within_history(w, now);
        let mut kept: Vec<Watched> = Vec::new();
        let mut i: usize = 0;
        proof {
            reveal(Seq::filter);
            assert(kept@ == self.watched@.take(0).filter(pred));
        }
        while i < self.watched.len()
            invariant
                i <= self.watched.len(),
                *self == *old(self),
                pred == (|w: Watched| is_within_history(w, now)),
                kept@ == self.watched@.take(i as int).filter(pred),
            decreases self.watched.len() - i,
        {
            let ghost seen = self.watched@.take(i + 1);
            proof {
                reveal(Seq::filter);
                assert(seen.drop_last() == self.watched@.take(i as int));
                assert(seen.last() == self.watched@[i as int]);
            }
            let entry = self.watched[i];
            let within = match entry.1 {
                None => true,
                Some(at) => now.duration_since(at).nanos <= HISTORY_NANOS as u128,
            };
            if within {
                kept.push(entry);
            }
            i = i + 1;
        }
        assert(self.watched@.take(i as int) == self.watched@);
        self.watched = kept;
        self.handled = Some(now);
    }

    fn clear_probes(&mut self) {
        self.watched = Vec::new();
    }

    fn probe_start(&mut self, config: ProbeClusterConfig, now: Instant) -> (accepted: bool) {
        if self.accepts {
            self.watched.push((config.cluster, None));
        }
        self.accepts
    }

    fn end_probe(&mut self, now: Instant, cluster: TwccClusterId) {
        let ghost f = |w: Watched| ended_entry(w, now, cluster);
        let mut noted: Vec<Watched> = Vec::new();
        let mut i: usize = 0;
        while i < self.watched.len()
            invariant
                i <= self.watched.len(),
                *self == *old(self),
                f == (|w: Watched| ended_entry(w, now, cluster)),
                noted@ == self.watched@.take(i as int).map_values(f),
            decreases self.watched.len() - i,
        {
            let entry = self.watched[i];
            if entry.0 == cluster && entry.1.is_none() {
                noted.push((cluster, Some(now)));
            } else {
                noted.push(entry);
            }
            i = i + 1;
        }
        assert(self.watched@.take(i as int) == self.watched@);
        self.watched = noted;
    }

    fn poll_timeout(&self) -> (at: Instant) {
        self.timeout
    }
}

/// Reports each estimate as it is, once.
#[derive(Debug, Clone, Copy, PartialEq, Eq, Structural)]
pub struct ReplaySmoother {
    /// The estimate to report.
    pub latest: Option<Bitrate>,
}

impl View for ReplaySmoother {
    type V = ReplaySmoother;

    open spec fn view(&self) -> ReplaySmoother {
        *self
    }
}

impl EstimateSmoother for ReplaySmoother {
    open spec fn start() -> ReplaySmoother {
        ReplaySmoother { latest: None }
    }

    open spec fn on_record(
        state: ReplaySmoother,
        now: Instant,
        estimate: Bitrate,
    ) -> ReplaySmoother {
        ReplaySmoother { latest: Some(estimate) }
    }

    open spec fn on_poll(state: ReplaySmoother) -> (ReplaySmoother, Option<Bitrate>) {
        (ReplaySmoother { latest: None }, state.latest)
    }

    fn new() -> (smoother: Self) {
        ReplaySmoother { latest: None }
    }

    fn record(&mut self, now: Instant, estimate: Bitrate) {
        self.latest = Some(estimate);
    }

    fn poll(&mut self) -> (estimate: Option<Bitrate>) {
        let estimate = self.latest;
        self.latest = None;
        estimate
    }
}

/// The replaying parts, with a working detector of application limits and a working link capacity.
pub struct ReplayParts;

impl Parts for ReplayParts {
    type Delay = ReplayDelayController;

    type Loss = ReplayLossController;

    type Acked = ReplayAckedBitrateEstimator;

    type Probes = ReplayProbeControl;

    type ProbeResults = ReplayProbeEstimator;

    type Alr = BudgetAlrDetector;

    type Capacity = ProvenLinkCapacity;

    type Smoother = ReplaySmoother;
}

} // verus!
