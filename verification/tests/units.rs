use bwe::double::millionths;
use bwe::units::{Bitrate, DataSize, Duration, Instant};

#[test]
fn rates_of_different_units_agree() {
    assert_eq!(Bitrate::bps(2_000_000), Bitrate::kbps(2_000));
    assert_eq!(Bitrate::kbps(2_000), Bitrate::mbps(2));
    assert_eq!(Bitrate::bps(0), Bitrate::zero());
    assert!(Bitrate::zero().is_zero());
    assert!(!Bitrate::bps(1).is_zero());
}

#[test]
fn lower_and_higher_rate() {
    assert_eq!(Bitrate::bps(3).min(Bitrate::bps(7)), Bitrate::bps(3));
    assert_eq!(Bitrate::bps(7).min(Bitrate::bps(3)), Bitrate::bps(3));
    assert_eq!(Bitrate::bps(3).max(Bitrate::bps(7)), Bitrate::bps(7));
    assert_eq!(Bitrate::bps(7).max(Bitrate::bps(3)), Bitrate::bps(7));
}

#[test]
fn rates_are_doubles() {
    for bps in [0, 1, 2, 3, 813, 50_000, 1 << 53, (1 << 53) + 1, (1 << 53) + 3, u64::MAX] {
        assert_eq!(f64::from_bits(Bitrate::bps(bps).bits), bps as f64);
    }
    assert_eq!(f64::from_bits(Bitrate::mbps(u64::MAX).bits), u64::MAX as f64 * 1e6);
}

#[test]
fn rates_come_from_their_bits() {
    assert_eq!(Bitrate::from_bits(50_000f64.to_bits()), Some(Bitrate::bps(50_000)));
    assert!(Bitrate::from_bits(f64::INFINITY.to_bits()).is_some());
    assert_eq!(Bitrate::from_bits(f64::NAN.to_bits()), None);
    assert_eq!(Bitrate::from_bits((-1f64).to_bits()), None);
}

/// Doubles of every size, from the smallest to the largest, and what lies between.
fn doubles() -> Vec<f64> {
    let mut numbers = vec![0.0, f64::MIN_POSITIVE, f64::MAX, 1.0, 1e6, 0.1, 5e-324, 1e-310, 1e300];
    let mut x: u64 = 88172645463325252;
    for _ in 0..3_000 {
        x ^= x << 13;
        x ^= x >> 7;
        x ^= x << 17;
        let number = f64::from_bits(x >> 1);
        if number.is_finite() {
            numbers.push(number);
        }
        numbers.push((x >> 20) as f64);
    }
    numbers
}

#[test]
fn products_are_those_of_doubles() {
    for number in doubles() {
        let rate = Bitrate::from_bits(number.to_bits()).unwrap();
        for factor in [0.85, 1.1, 0.5, 1.0, 3.0, 1e-200, 1e200, 5e-324, f64::MAX] {
            assert_eq!(rate.times(factor.to_bits()).bits, (number * factor).to_bits());
        }
    }
}

#[test]
fn infinity_stays_infinite() {
    let infinite = Bitrate::from_bits(f64::INFINITY.to_bits()).unwrap();
    assert_eq!(infinite.times(0.85f64.to_bits()), infinite);
    let largest = Bitrate::from_bits(f64::MAX.to_bits()).unwrap();
    assert_eq!(largest.times(1.1f64.to_bits()), infinite);
}

#[test]
fn rates_compare_like_doubles() {
    let numbers = doubles();
    for pair in numbers.windows(2) {
        let a = Bitrate::from_bits(pair[0].to_bits()).unwrap();
        let b = Bitrate::from_bits(pair[1].to_bits()).unwrap();
        assert_eq!(f64::from_bits(a.min(b).bits), pair[0].min(pair[1]));
        assert_eq!(f64::from_bits(a.max(b).bits), pair[0].max(pair[1]));
        assert_eq!(a < b, pair[0] < pair[1]);
    }
}

#[test]
fn millionths_are_counted_down() {
    assert_eq!(millionths(Bitrate::mbps(1).bits), 1_000_000_000_000);
    assert_eq!(millionths(0.0000019f64.to_bits()), 1);
    assert_eq!(millionths(0.0000001f64.to_bits()), 0);
    assert_eq!(millionths(5e-324f64.to_bits()), 0);
    assert_eq!(millionths(1e13f64.to_bits()), 10_000_000_000_000_000_000);
    assert_eq!(millionths(1e14f64.to_bits()), u64::MAX);
    assert_eq!(millionths(f64::MAX.to_bits()), u64::MAX);
}

#[test]
fn time_passes_forward_only() {
    let start = Instant::from_nanos(5_000);
    let later = start + Duration::from_millis(3);
    assert_eq!(later.duration_since(start), Duration::from_millis(3));
    assert_eq!(start.duration_since(later), Duration::from_millis(0));
    assert_eq!(Duration::from_secs(2), Duration::from_millis(2_000));
}

#[test]
fn size_in_bytes() {
    assert_eq!(DataSize::bytes(813).bytes, 813);
}
