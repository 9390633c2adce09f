use bwe::alr::BudgetAlrDetector;
use bwe::estimator::SendSideBandwidthEstimator;
use bwe::handle::Bwe;
use bwe::parts::{
    AlrDetector, BandwidthLimitedCause, LinkCapacityEstimator, LossBasedResult,
    LossControllerState,
};
use bwe::replay::{never, ReplayParts};
use bwe::timeout::Reason;
use bwe::twcc::{ProbeClusterConfig, TwccClusterId, TwccSendRecord, TwccSeq};
use bwe::units::{Bitrate, DataSize, Duration, Instant};

fn session() -> Bwe<ReplayParts> {
    Bwe::new(Bitrate::mbps(1))
}

fn at_millis(millis: u64) -> Instant {
    Instant::from_nanos(0) + Duration::from_millis(millis)
}

/// A packet that was received at `received`, or that got lost.
fn record(seq: u64, received: Option<u64>) -> TwccSendRecord {
    TwccSendRecord {
        seq: TwccSeq(seq),
        cluster: None,
        size: 1_000,
        local_send_time: at_millis(seq),
        local_recv_time: Some(at_millis(100)),
        remote_recv_time: received.map(at_millis),
    }
}

fn probe(cluster: u64, alr_probe: bool) -> ProbeClusterConfig {
    ProbeClusterConfig {
        cluster: TwccClusterId(cluster),
        target_bitrate: Bitrate::mbps(3),
        alr_probe,
    }
}

fn loss(kbps: u64, state: LossControllerState) -> LossBasedResult {
    LossBasedResult { bandwidth_estimate: Some(Bitrate::kbps(kbps)), state }
}

#[test]
fn all_sent_packets_count_toward_application_usage() {
    let mut bwe: Bwe<ReplayParts> = Bwe::new(Bitrate::mbps(1));
    let started_at = Instant::from_nanos(1_000_000_000);

    bwe.on_packet_sent(DataSize::bytes(813), started_at);
    for tick in 1..=100 {
        bwe.on_packet_sent(
            DataSize::bytes(813),
            started_at + Duration::from_millis(tick * 10),
        );
    }

    assert!(bwe.bwe.alr_detector.alr_start_time().is_none());
}

#[test]
fn too_few_packets_show_an_application_limit() {
    let mut bwe = session();
    bwe.on_packet_sent(DataSize::bytes(400), at_millis(0));
    for tick in 1..=100 {
        bwe.on_packet_sent(DataSize::bytes(400), at_millis(tick * 10));
    }
    assert!(bwe.bwe.alr_detector.alr_start_time().is_some());

    // Sending at the full rate ends it.
    for tick in 101..=200 {
        bwe.on_packet_sent(DataSize::bytes(1_250), at_millis(tick * 10));
    }
    assert!(bwe.bwe.alr_detector.alr_start_time().is_none());
}

#[test]
fn application_limit_starts_at_four_fifths_of_the_window() {
    let mut detector = BudgetAlrDetector::new();
    detector.set_estimated_bitrate(Bitrate::kbps(1_000));
    detector.on_bytes_sent(DataSize::bytes(1), at_millis(0));
    // 81.25 bytes build up in each millisecond, and the budget is full after 500.
    detector.on_bytes_sent(DataSize::bytes(0), at_millis(400));
    assert_eq!(detector.alr_start_time(), None);
    detector.on_bytes_sent(DataSize::bytes(0), at_millis(401));
    assert_eq!(detector.alr_start_time(), Some(at_millis(401)));
    // A long silence fills the budget, and no more than that.
    detector.on_bytes_sent(DataSize::bytes(0), at_millis(1_000_000));
    detector.on_bytes_sent(DataSize::bytes(20_313), at_millis(1_000_000));
    assert_eq!(detector.alr_start_time(), None);
}

#[test]
fn without_an_estimate_there_is_no_application_limit() {
    let mut detector = BudgetAlrDetector::new();
    detector.on_bytes_sent(DataSize::bytes(1), at_millis(0));
    detector.on_bytes_sent(DataSize::bytes(1), at_millis(10_000));
    assert_eq!(detector.alr_start_time(), None);
}

#[test]
fn new_session_has_nothing_allocated() {
    let bwe = session();
    assert_eq!(bwe.current_bitrate(), Bitrate::zero());
    assert_eq!(bwe.desired_bitrate, Bitrate::zero());
    assert_eq!(bwe.last_estimate(), None);
    assert!(!bwe.is_overusing());
    assert_eq!(bwe.bwe.delay_controller.initial, Bitrate::mbps(1));
    assert_eq!(bwe.bwe.loss_controller.result.bandwidth_estimate, Some(Bitrate::mbps(1)));
    assert_eq!(bwe.bwe.acked_bitrate_estimator.initial_window, Duration::from_millis(500));
    assert_eq!(bwe.bwe.acked_bitrate_estimator.window, Duration::from_millis(150));
}

#[test]
fn report_reaches_the_parts_in_receive_order() {
    let mut bwe = session();
    bwe.bwe.acked_bitrate_estimator.estimate = Some(Bitrate::kbps(900));
    let records = vec![record(1, Some(30)), record(2, None), record(3, Some(20))];

    bwe.update(&records, at_millis(100));

    let seqs: Vec<u64> = bwe.bwe.delay_controller.packets.iter().map(|p| p.seq_no.0).collect();
    assert_eq!(seqs, vec![3, 1]);
    assert_eq!(
        bwe.bwe.acked_bitrate_estimator.packets,
        vec![(at_millis(20), DataSize::bytes(1_000)), (at_millis(30), DataSize::bytes(1_000))]
    );
    assert_eq!(bwe.bwe.delay_controller.acked_bitrate, Some(Bitrate::kbps(900)));
    assert_eq!(bwe.bwe.delay_controller.probe_bitrate, None);
    assert_eq!(bwe.bwe.started_at, Some(at_millis(100)));
}

#[test]
fn report_without_delay_estimate_only_measures() {
    let mut bwe = session();
    let before = bwe.bwe.loss_controller;

    bwe.update(&[record(1, None)], at_millis(5_000));

    assert_eq!(bwe.bwe.loss_controller, before);
    assert!(bwe.bwe.probe_control.estimates.is_empty());
    assert_eq!(bwe.bwe.last_updated_estimate, None);
}

#[test]
fn startup_without_loss_uses_the_delay_estimate() {
    let mut bwe = session();
    bwe.bwe.delay_controller.reply = Some(Bitrate::mbps(3));
    bwe.bwe.acked_bitrate_estimator.estimate = Some(Bitrate::mbps(2));

    bwe.update(&[record(1, Some(20))], at_millis(100));

    assert_eq!(bwe.last_estimate(), Some(Bitrate::mbps(3)));
    assert_eq!(bwe.bwe.loss_controller.result.bandwidth_estimate, Some(Bitrate::mbps(3)));
    // The report itself does not count for the loss based controller.
    assert_eq!(bwe.bwe.loss_controller.delay_estimate, None);
    assert_eq!(bwe.bwe.loss_controller.acknowledged, None);
    // Nobody is told yet.
    assert!(bwe.bwe.probe_control.estimates.is_empty());
}

#[test]
fn startup_with_loss_counts_for_the_loss_controller() {
    let mut bwe = session();
    bwe.bwe.delay_controller.reply = Some(Bitrate::mbps(3));

    bwe.update(&[record(1, Some(20)), record(2, None)], at_millis(100));

    assert_eq!(bwe.bwe.loss_controller.delay_estimate, Some(Bitrate::mbps(3)));
    assert_eq!(bwe.bwe.loss_controller.records, 2);
    assert_eq!(
        bwe.bwe.probe_control.estimates,
        vec![(Bitrate::mbps(3), BandwidthLimitedCause::DelayBasedLimited)]
    );
}

#[test]
fn empty_report_is_without_loss() {
    let mut bwe = session();
    bwe.bwe.delay_controller.reply = Some(Bitrate::mbps(3));

    bwe.update(&[], at_millis(100));

    assert_eq!(bwe.bwe.loss_controller.result.bandwidth_estimate, Some(Bitrate::mbps(3)));
    assert_eq!(bwe.bwe.loss_controller.delay_estimate, None);
}

#[test]
fn after_startup_every_report_counts() {
    let mut bwe = session();
    bwe.update(&[], at_millis(100));
    bwe.bwe.delay_controller.reply = Some(Bitrate::mbps(3));
    bwe.bwe.acked_bitrate_estimator.estimate = Some(Bitrate::mbps(2));

    bwe.update(&[record(1, Some(20))], at_millis(2_100));
    assert_eq!(bwe.bwe.loss_controller.delay_estimate, None);

    bwe.update(&[record(2, Some(30))], at_millis(2_101));
    assert_eq!(bwe.bwe.loss_controller.delay_estimate, Some(Bitrate::mbps(3)));
    assert_eq!(bwe.bwe.loss_controller.acknowledged, Some(Bitrate::mbps(2)));
    assert_eq!(bwe.bwe.started_at, Some(at_millis(100)));
    assert_eq!(bwe.bwe.last_updated_estimate, Some(Bitrate::mbps(3)));
}

#[test]
fn loss_estimate_is_capped_by_the_delay_estimate() {
    let mut bwe = session();
    bwe.update(&[], at_millis(0));
    bwe.bwe.delay_controller.reply = Some(Bitrate::kbps(700));
    bwe.bwe.loss_controller.reply = Some(loss(900, LossControllerState::Increasing));

    bwe.update(&[record(1, Some(20))], at_millis(5_000));

    assert_eq!(
        bwe.bwe.loss_controller.result,
        loss(700, LossControllerState::Increasing)
    );
    assert_eq!(bwe.last_estimate(), Some(Bitrate::kbps(700)));
    assert_eq!(
        bwe.bwe.probe_control.estimates,
        vec![(Bitrate::kbps(700), BandwidthLimitedCause::LossLimitedBweIncreasing)]
    );
}

#[test]
fn loss_limits_the_estimate_only_when_it_says_so() {
    let mut bwe = session();
    bwe.bwe.delay_controller.last_estimate = Some(Bitrate::kbps(700));
    bwe.bwe.loss_controller.result = loss(300, LossControllerState::DelayBased);
    assert_eq!(bwe.last_estimate(), Some(Bitrate::kbps(700)));
    bwe.bwe.loss_controller.result = loss(300, LossControllerState::Decreasing);
    assert_eq!(bwe.last_estimate(), Some(Bitrate::kbps(300)));
    bwe.bwe.loss_controller.result = loss(900, LossControllerState::Increasing);
    assert_eq!(bwe.last_estimate(), Some(Bitrate::kbps(700)));
    bwe.bwe.loss_controller.result.bandwidth_estimate = None;
    assert_eq!(bwe.last_estimate(), Some(Bitrate::kbps(700)));
    bwe.bwe.delay_controller.last_estimate = None;
    assert_eq!(bwe.last_estimate(), None);
    bwe.bwe.loss_controller.result = loss(300, LossControllerState::Decreasing);
    assert_eq!(bwe.last_estimate(), Some(Bitrate::kbps(300)));
    bwe.bwe.loss_controller.result = loss(300, LossControllerState::DelayBased);
    assert_eq!(bwe.last_estimate(), None);
}

#[test]
fn overuse_is_the_first_cause() {
    let mut bwe: SendSideBandwidthEstimator<ReplayParts> =
        SendSideBandwidthEstimator::new(Bitrate::mbps(1));
    for (state, cause) in [
        (LossControllerState::DelayBased, BandwidthLimitedCause::DelayBasedLimited),
        (LossControllerState::Increasing, BandwidthLimitedCause::LossLimitedBweIncreasing),
        (LossControllerState::Decreasing, BandwidthLimitedCause::LossLimitedBwe),
    ] {
        bwe.loss_controller.result.state = state;
        bwe.delay_controller.overusing = false;
        assert_eq!(bwe.bandwidth_limited_cause(), cause);
        assert!(!bwe.is_overusing());
        bwe.delay_controller.overusing = true;
        assert_eq!(
            bwe.bandwidth_limited_cause(),
            BandwidthLimitedCause::DelayBasedLimitedDelayIncreased
        );
        assert!(bwe.is_overusing());
    }
}

#[test]
fn parts_are_told_only_of_a_change() {
    let mut bwe = session();
    bwe.handle_timeout(at_millis(0), true);
    assert!(bwe.bwe.probe_control.estimates.is_empty());

    bwe.bwe.delay_controller.last_estimate = Some(Bitrate::kbps(700));
    bwe.handle_timeout(at_millis(1), true);
    bwe.handle_timeout(at_millis(2), true);
    bwe.bwe.propagate_estimate();
    assert_eq!(bwe.bwe.probe_control.estimates.len(), 1);

    bwe.bwe.delay_controller.last_estimate = Some(Bitrate::kbps(800));
    bwe.handle_timeout(at_millis(3), true);
    assert_eq!(
        bwe.bwe.probe_control.estimates,
        vec![
            (Bitrate::kbps(700), BandwidthLimitedCause::DelayBasedLimited),
            (Bitrate::kbps(800), BandwidthLimitedCause::DelayBasedLimited),
        ]
    );
    assert_eq!(bwe.bwe.last_updated_estimate, bwe.last_estimate());
}

#[test]
fn timeout_brings_the_parts_up_to_date() {
    let mut bwe = session();
    bwe.set_desired_bitrate(Bitrate::mbps(5));
    bwe.bwe.acked_bitrate_estimator.estimate = Some(Bitrate::kbps(600));
    bwe.bwe.link_capacity_estimator.update_from_probe(Bitrate::mbps(4), at_millis(0));
    bwe.on_packet_sent(DataSize::bytes(1), at_millis(0));
    bwe.on_packet_sent(DataSize::bytes(1), at_millis(900));

    bwe.handle_timeout(at_millis(1_000), true);

    assert_eq!(bwe.bwe.delay_controller.acked_bitrate, Some(Bitrate::kbps(600)));
    assert_eq!(bwe.bwe.probe_control.desired, Some(Bitrate::mbps(5)));
    assert_eq!(bwe.bwe.probe_control.alr_start, Some(at_millis(900)));
    assert_eq!(bwe.bwe.loss_controller.alr_start, Some(at_millis(900)));
    assert_eq!(bwe.bwe.loss_controller.capacity, Some(Bitrate::mbps(4)));
    assert_eq!(bwe.bwe.probe_estimator.handled, Some(at_millis(1_000)));
    assert!(bwe.bwe.probe_control.enabled);
}

#[test]
fn timeout_without_application_limit_says_so() {
    let mut bwe = session();
    bwe.bwe.probe_control.alr_start = Some(at_millis(1));
    bwe.bwe.loss_controller.alr_start = Some(at_millis(1));

    bwe.handle_timeout(at_millis(10), true);

    assert_eq!(bwe.bwe.probe_control.alr_start, None);
    assert_eq!(bwe.bwe.loss_controller.alr_start, None);
}

#[test]
fn timeout_starts_a_probe() {
    let mut bwe = session();
    bwe.bwe.probe_control.reply = Some(probe(4, true));
    assert_eq!(bwe.handle_timeout(at_millis(0), true), Some(probe(4, true)));
    assert_eq!(bwe.handle_timeout(at_millis(1), true), None);
}

#[test]
fn switching_probes_off_clears_them() {
    let mut bwe = session();
    assert!(bwe.start_probe(probe(4, true), at_millis(0)));
    assert!(bwe.bwe.probe_estimator.watches(TwccClusterId(4)));
    bwe.handle_timeout(at_millis(1), true);
    assert!(bwe.bwe.probe_estimator.watches(TwccClusterId(4)));

    bwe.bwe.probe_control.reply = Some(probe(5, false));
    assert_eq!(bwe.handle_timeout(at_millis(2), false), None);
    assert!(!bwe.bwe.probe_estimator.watches(TwccClusterId(4)));
    assert!(!bwe.bwe.probe_control.enabled);
}

#[test]
fn probe_can_be_rejected_and_ended() {
    let mut bwe = session();
    bwe.bwe.probe_estimator.accepts = false;
    assert!(!bwe.start_probe(probe(4, true), at_millis(0)));
    assert!(bwe.bwe.probe_estimator.watched.is_empty());

    bwe.bwe.probe_estimator.accepts = true;
    assert!(bwe.start_probe(probe(4, true), at_millis(1)));
    bwe.end_probe(at_millis(7), TwccClusterId(4));
    assert_eq!(
        bwe.bwe.probe_estimator.watched,
        vec![(TwccClusterId(4), Some(at_millis(7)))]
    );
}

#[test]
fn ended_probe_takes_late_reports() {
    let mut bwe = session();
    bwe.bwe.delay_controller.last_estimate = Some(Bitrate::mbps(2));
    assert!(bwe.start_probe(probe(4, true), at_millis(0)));
    let mut late = record(1, Some(20));
    late.cluster = Some(TwccClusterId(4));
    let mut lost = record(2, None);
    lost.cluster = Some(TwccClusterId(4));
    let mut other = record(3, Some(25));
    other.cluster = Some(TwccClusterId(5));

    bwe.update(&[late], at_millis(5));
    bwe.end_probe(at_millis(10), TwccClusterId(4));
    assert_eq!(bwe.last_estimate(), Some(Bitrate::mbps(2)));
    bwe.handle_timeout(at_millis(1_010), true);
    bwe.update(&[late, lost, other], at_millis(1_010));
    assert_eq!(bwe.bwe.probe_estimator.taken, vec![late, late]);

    // The history ends.
    bwe.handle_timeout(at_millis(1_011), true);
    bwe.update(&[late], at_millis(1_011));
    assert_eq!(bwe.bwe.probe_estimator.taken, vec![late, late]);
}

#[test]
fn rejected_probe_is_not_watched() {
    let mut bwe = session();
    assert!(bwe.start_probe(probe(1, true), at_millis(0)));
    bwe.bwe.probe_estimator.accepts = false;

    assert!(!bwe.start_probe(probe(2, true), at_millis(1)));

    assert!(bwe.bwe.probe_estimator.watches(TwccClusterId(1)));
    assert!(!bwe.bwe.probe_estimator.watches(TwccClusterId(2)));
}

#[test]
fn late_reports_count_while_another_probe_runs() {
    let mut bwe = session();
    let mut late = record(1, Some(20));
    late.cluster = Some(TwccClusterId(4));
    let mut other = record(2, Some(25));
    other.cluster = Some(TwccClusterId(5));
    assert!(bwe.start_probe(probe(4, true), at_millis(0)));
    bwe.end_probe(at_millis(10), TwccClusterId(4));

    assert!(bwe.start_probe(probe(5, true), at_millis(20)));
    bwe.update(&[late, other], at_millis(30));
    bwe.end_probe(at_millis(40), TwccClusterId(5));
    bwe.handle_timeout(at_millis(1_010), true);
    bwe.update(&[late], at_millis(1_010));

    assert_eq!(bwe.bwe.probe_estimator.taken, vec![late, other, late]);
    assert_eq!(
        bwe.bwe.probe_estimator.watched,
        vec![
            (TwccClusterId(4), Some(at_millis(10))),
            (TwccClusterId(5), Some(at_millis(40))),
        ]
    );
}

#[test]
fn empty_packet_only_moves_the_clock() {
    let mut bwe = session();
    bwe.on_packet_sent(DataSize::bytes(0), at_millis(0));
    bwe.on_packet_sent(DataSize::bytes(0), at_millis(1));
    assert!(bwe.bwe.alr_detector.alr_start_time().is_none());
}

#[test]
fn last_probe_counts_for_delay_and_every_one_for_capacity() {
    let mut bwe = session();
    bwe.bwe.probe_estimator.results = vec![
        (probe(1, true), Bitrate::mbps(4)),
        (probe(2, false), Bitrate::mbps(9)),
        (probe(3, true), Bitrate::mbps(2)),
    ];

    bwe.update(&[record(1, Some(20))], at_millis(100));

    assert_eq!(bwe.bwe.delay_controller.probe_bitrate, Some(Bitrate::mbps(2)));
    assert_eq!(bwe.bwe.link_capacity_estimator.highest, Some(Bitrate::mbps(4)));
    assert_eq!(
        bwe.bwe.link_capacity_estimator.capacity_estimate(at_millis(0)),
        Some(Bitrate::mbps(4))
    );
}

#[test]
fn probe_result_is_limited_by_the_estimate_before_the_report() {
    let mut bwe = session();
    bwe.bwe.probe_estimator.results = vec![(probe(1, false), Bitrate::kbps(100))];
    bwe.bwe.acked_bitrate_estimator.estimate = Some(Bitrate::mbps(1));
    bwe.bwe.delay_controller.last_estimate = Some(Bitrate::kbps(600));
    bwe.bwe.delay_controller.reply = Some(Bitrate::mbps(5));

    bwe.update(&[record(1, Some(20))], at_millis(100));

    assert_eq!(bwe.bwe.delay_controller.probe_bitrate, Some(Bitrate::kbps(600)));
    assert_eq!(bwe.bwe.link_capacity_estimator.highest, None);
}

#[test]
fn probe_result_sets_the_loss_estimate() {
    let mut bwe = session();
    bwe.update(&[], at_millis(0));
    bwe.bwe.delay_controller.reply = Some(Bitrate::mbps(5));
    bwe.update(&[record(1, Some(20))], at_millis(5_000));
    // Without a probe the loss based controller keeps its estimate.
    assert_eq!(bwe.bwe.loss_controller.result.bandwidth_estimate, Some(Bitrate::mbps(1)));

    bwe.bwe.probe_estimator.results = vec![(probe(1, false), Bitrate::mbps(5))];
    bwe.update(&[record(2, Some(30))], at_millis(5_001));
    assert_eq!(bwe.bwe.loss_controller.result.bandwidth_estimate, Some(Bitrate::mbps(5)));
}

#[test]
fn next_timeout_is_the_earliest() {
    let mut bwe = session();
    assert_eq!(bwe.poll_timeout().0, Some(never()));
    bwe.bwe.delay_controller.timeout = at_millis(30);
    assert_eq!(bwe.poll_timeout(), (Some(at_millis(30)), Reason::BweDelayControl));
    bwe.bwe.probe_control.timeout = at_millis(20);
    assert_eq!(bwe.poll_timeout(), (Some(at_millis(20)), Reason::BweProbeControl));
    bwe.bwe.probe_estimator.timeout = at_millis(10);
    assert_eq!(bwe.poll_timeout(), (Some(at_millis(10)), Reason::BweProbeEstimator));
}

#[test]
fn smoother_sees_the_estimate_of_a_timeout() {
    let mut bwe = session();
    bwe.handle_timeout(at_millis(0), true);
    assert_eq!(bwe.poll_estimate(), None);

    bwe.bwe.delay_controller.last_estimate = Some(Bitrate::kbps(700));
    bwe.handle_timeout(at_millis(1), true);
    assert_eq!(bwe.poll_estimate(), Some(Bitrate::kbps(700)));
    assert_eq!(bwe.poll_estimate(), None);
}

#[test]
fn reset_starts_the_estimator_anew() {
    let mut bwe = session();
    bwe.set_current_bitrate(Bitrate::kbps(500));
    bwe.set_desired_bitrate(Bitrate::mbps(2));
    bwe.bwe.delay_controller.reply = Some(Bitrate::mbps(3));
    bwe.update(&[record(1, Some(20))], at_millis(100));
    bwe.handle_timeout(at_millis(101), true);

    bwe.reset(Bitrate::kbps(400));

    assert_eq!(bwe.bwe.started_at, None);
    assert_eq!(bwe.bwe.last_updated_estimate, None);
    assert_eq!(bwe.last_estimate(), None);
    assert_eq!(bwe.bwe.delay_controller.initial, Bitrate::kbps(400));
    assert_eq!(bwe.bwe.loss_controller.result.bandwidth_estimate, Some(Bitrate::kbps(400)));
    assert_eq!(bwe.current_bitrate(), Bitrate::kbps(500));
    assert_eq!(bwe.desired_bitrate, Bitrate::mbps(2));
    assert_eq!(bwe.poll_estimate(), Some(Bitrate::mbps(3)));
}

#[test]
fn start_is_set_once() {
    let mut bwe = session();
    bwe.update(&[], at_millis(100));
    bwe.update(&[], at_millis(200));
    bwe.handle_timeout(at_millis(300), true);
    assert_eq!(bwe.bwe.started_at, Some(at_millis(100)));
}
