use bwe::pacer::{padding_target, PacerControl, PACING_FACTOR};
use bwe::units::Bitrate;

#[test]
fn padding_enabled_with_active_media() {
    let c = PacerControl::new();

    let r = c.calculate(Bitrate::kbps(500), Bitrate::kbps(1_000), false);

    assert_eq!(r.padding_rate, padding_target());
    assert_eq!(r.padding_rate, Bitrate::bps(50_000));
}

#[test]
fn no_padding_without_active_media() {
    let c = PacerControl::new();

    let r = c.calculate(Bitrate::zero(), Bitrate::kbps(1_000), false);

    assert_eq!(r.padding_rate, Bitrate::zero());
}

/// Padding must not scale with the estimate, or the gap between media and the estimate gets
/// filled with spurious resends.
#[test]
fn control_padding_does_not_scale_with_estimate() {
    let c = PacerControl::new();

    let low = c.calculate(Bitrate::kbps(500), Bitrate::kbps(800), false);
    let high = c.calculate(Bitrate::kbps(500), Bitrate::mbps(10), false);

    assert_eq!(low.padding_rate, padding_target());
    assert_eq!(high.padding_rate, padding_target());
}

#[test]
fn overuse_suppresses_padding() {
    let c = PacerControl::new();

    let r = c.calculate(Bitrate::kbps(500), Bitrate::mbps(40), true);

    assert_eq!(r.padding_rate, Bitrate::zero());
}

#[test]
fn current_bitrate_acts_as_pacing_floor() {
    let c = PacerControl::new();

    let r = c.calculate(Bitrate::kbps(2_000), Bitrate::kbps(500), false);

    assert_eq!(r.pacing_rate, Bitrate::kbps(2_000).times(PACING_FACTOR));
    assert_eq!(r.pacing_rate, Bitrate::kbps(2_200));
}

#[test]
fn estimate_drives_pacing_when_above_allocation() {
    let c = PacerControl::new();

    let r = c.calculate(Bitrate::kbps(500), Bitrate::kbps(2_000), false);

    assert_eq!(r.pacing_rate, Bitrate::kbps(2_000).times(PACING_FACTOR));
    assert_eq!(r.pacing_rate, Bitrate::kbps(2_200));
}

/// A very low estimate caps padding.
#[test]
fn estimate_caps_padding() {
    let c = PacerControl::new();
    let estimate = Bitrate::kbps(20);

    let r = c.calculate(Bitrate::kbps(500), estimate, false);

    assert_eq!(r.padding_rate, estimate);
}

#[test]
fn pacing_does_not_stop_in_overuse() {
    let r = PacerControl::new().calculate(Bitrate::kbps(500), Bitrate::mbps(40), true);

    assert_eq!(r.pacing_rate, Bitrate::mbps(44));
}

#[test]
fn nothing_allocated_and_nothing_estimated_paces_nothing() {
    let r = PacerControl::new().calculate(Bitrate::zero(), Bitrate::zero(), false);

    assert_eq!(r.padding_rate, Bitrate::zero());
    assert_eq!(r.pacing_rate, Bitrate::zero());
}

#[test]
fn pacing_keeps_fractions_of_a_bit() {
    let r = PacerControl::new().calculate(Bitrate::bps(101), Bitrate::bps(1), false);
    assert_eq!(f64::from_bits(r.pacing_rate.bits), 101.0 * 1.1);

    // A millionth of a bit per second.
    let small = Bitrate::from_bits(0.000001f64.to_bits()).unwrap();
    let r = PacerControl::new().calculate(small, Bitrate::zero(), false);
    assert_eq!(f64::from_bits(r.pacing_rate.bits), 0.000001 * 1.1);
}

#[test]
fn pacing_rounds_like_a_double() {
    assert_eq!(f64::from_bits(PACING_FACTOR), 1.1);
    // 3.3 is not a double, and the product is not the nearest one to it.
    let r = PacerControl::new().calculate(Bitrate::bps(3), Bitrate::zero(), true);
    assert_eq!(f64::from_bits(r.pacing_rate.bits), 3.3000000000000003);
}

#[test]
fn higher_estimate_never_lowers_pacing() {
    let c = PacerControl::new();
    let mut last = Bitrate::zero();
    for kbps in 0..200 {
        let r = c.calculate(Bitrate::kbps(100), Bitrate::kbps(kbps), false);
        assert!(r.pacing_rate >= last);
        assert!(r.pacing_rate >= Bitrate::kbps(kbps));
        assert!(r.pacing_rate >= Bitrate::kbps(100));
        last = r.pacing_rate;
    }
}
