use bwe::rules::{
    in_startup_phase, limit_probe_bitrate, loss_is_negligible, startup_phase, PROBE_FLOOR,
};
use bwe::timeout::{soonest, Reason};
use bwe::units::{Bitrate, Duration, Instant};
use bwe::usage::BandwidthUsage;

#[test]
fn low_probe_result_is_limited_by_acknowledged_throughput() {
    assert_eq!(
        limit_probe_bitrate(
            Bitrate::kbps(100),
            Some(Bitrate::mbps(1)),
            Some(Bitrate::mbps(2))
        ),
        Bitrate::kbps(850)
    );
    assert_eq!(
        limit_probe_bitrate(
            Bitrate::kbps(100),
            Some(Bitrate::mbps(2)),
            Some(Bitrate::kbps(700))
        ),
        Bitrate::kbps(700)
    );
    assert_eq!(
        limit_probe_bitrate(
            Bitrate::mbps(2),
            Some(Bitrate::mbps(1)),
            Some(Bitrate::mbps(1))
        ),
        Bitrate::mbps(2)
    );
    assert_eq!(
        limit_probe_bitrate(Bitrate::kbps(500), None, Some(Bitrate::mbps(1))),
        Bitrate::kbps(500)
    );
}

#[test]
fn probe_result_stands_without_delay_estimate() {
    assert_eq!(
        limit_probe_bitrate(Bitrate::kbps(100), Some(Bitrate::mbps(1)), None),
        Bitrate::kbps(100)
    );
    assert_eq!(limit_probe_bitrate(Bitrate::kbps(100), None, None), Bitrate::kbps(100));
}

#[test]
fn probe_floor_is_a_double() {
    assert_eq!(f64::from_bits(PROBE_FLOOR), 0.85);
    let floor = limit_probe_bitrate(
        Bitrate::zero(),
        Some(Bitrate::bps(7)),
        Some(Bitrate::mbps(1)),
    );
    assert_eq!(f64::from_bits(floor.bits), 7.0 * 0.85);
}

#[test]
fn startup_lasts_two_seconds_inclusive() {
    let start = Instant::from_nanos(7);
    let end = start + startup_phase();
    assert_eq!(startup_phase(), Duration::from_secs(2));
    assert!(in_startup_phase(Some(start), start));
    assert!(in_startup_phase(Some(start), end));
    assert!(!in_startup_phase(Some(start), end + Duration { nanos: 1 }));
    // A start that is still to come has not lasted at all.
    assert!(in_startup_phase(Some(end), start));
}

#[test]
fn no_startup_before_the_first_report() {
    assert!(!in_startup_phase(None, Instant::from_nanos(0)));
}

#[test]
fn one_loss_in_a_thousand_is_negligible() {
    assert!(loss_is_negligible(0, 0));
    assert!(loss_is_negligible(0, 10));
    assert!(loss_is_negligible(1, 1_000));
    assert!(!loss_is_negligible(1, 999));
    assert!(!loss_is_negligible(2, 1_000));
    assert!(!loss_is_negligible(usize::MAX, usize::MAX));
}

#[test]
fn soonest_timeout_wins() {
    let early = Some(Instant::from_nanos(1));
    let late = Some(Instant::from_nanos(2));
    assert_eq!(
        soonest((early, Reason::BweDelayControl), (late, Reason::BweProbeControl)),
        (early, Reason::BweDelayControl)
    );
    assert_eq!(
        soonest((late, Reason::BweDelayControl), (early, Reason::BweProbeControl)),
        (early, Reason::BweProbeControl)
    );
    assert_eq!(
        soonest((None, Reason::BweDelayControl), (late, Reason::BweProbeControl)),
        (late, Reason::BweProbeControl)
    );
    assert_eq!(
        soonest((late, Reason::BweDelayControl), (None, Reason::BweProbeControl)),
        (late, Reason::BweDelayControl)
    );
}

#[test]
fn usage_has_a_name() {
    assert_eq!(BandwidthUsage::Overuse.name(), "overuse");
    assert_eq!(BandwidthUsage::Normal.name(), "normal");
    assert_eq!(BandwidthUsage::Underuse.name(), "underuse");
}
