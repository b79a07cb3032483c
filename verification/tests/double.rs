//! Doubles against the machine's own.

use video_sync::double::Double;

fn double(x: f64) -> Double {
    Double::from_bits(x.to_bits())
}

/// Numbers of all sizes and signs, the edges of each range, and the special ones.
fn samples() -> Vec<f64> {
    let mut samples = vec![
        0.0,
        1.0,
        5.0,
        f64::from_bits(1),
        f64::from_bits(2),
        f64::from_bits(0x000F_FFFF_FFFF_FFFF),
        f64::MIN_POSITIVE,
        f64::EPSILON,
        f64::MAX,
        f64::INFINITY,
        f64::NAN,
        0.1,
        0.5,
        0.999_999_999_999_999_9,
        1.000_000_000_000_000_2,
        59.9,
        60.0,
        3599.5,
        4_294_967_294.5,
        4_294_967_295.0,
        4_294_967_295.999,
        4_294_967_296.0,
        9_007_199_254_740_991.0,
        9_007_199_254_740_992.0,
        9_007_199_254_740_993.0,
        1e300,
        1e-300,
    ];
    let mut state: u64 = 0x9E37_79B9_7F4A_7C15;
    for _ in 0..120 {
        state = state.wrapping_mul(6364136223846793005).wrapping_add(1442695040888963407);
        let x = f64::from_bits(state ^ (state >> 29));
        samples.push(x);
        samples.push((state >> 40) as f64 / 1024.0);
        let near = f64::from_bits(x.to_bits() ^ 1);
        samples.push(near);
        samples.push(x * 1.5);
    }
    let negated: Vec<f64> = samples.iter().map(|x| -x).collect();
    samples.extend(negated);
    samples
}

#[test]
fn double_keeps_its_bits() {
    for x in samples() {
        assert_eq!(double(x).to_bits(), x.to_bits());
    }
    assert_eq!(Double::zero().to_bits(), 0.0f64.to_bits());
    assert_eq!(Double::one().to_bits(), 1.0f64.to_bits());
}

#[test]
fn double_is_classified() {
    for x in samples() {
        assert_eq!(double(x).is_nan(), x.is_nan());
        assert_eq!(double(x).is_infinite(), x.is_infinite());
        assert_eq!(double(x).is_negative(), x.is_sign_negative());
    }
}

#[test]
fn double_is_compared() {
    let samples = samples();
    for &x in &samples {
        for &y in &samples {
            assert_eq!(double(x).lt(double(y)), x < y, "{} < {}", x, y);
            assert_eq!(double(x) == double(y), x == y, "{} == {}", x, y);
        }
    }
}

#[test]
fn double_is_subtracted() {
    let samples = samples();
    for &x in &samples {
        for &y in &samples {
            let expected = x - y;
            let difference = double(x).minus(double(y));
            if expected.is_nan() {
                assert!(difference.is_nan(), "{} - {}", x, y);
            } else {
                assert_eq!(difference.to_bits(), expected.to_bits(), "{} - {}", x, y);
            }
        }
    }
}

#[test]
fn double_subtraction_rounds_to_even() {
    // Exactly between two neighbours.
    let x = 9_007_199_254_740_992.0;
    assert_eq!(double(x).minus(double(-1.0)).to_bits(), x.to_bits());
    assert_eq!(double(x).minus(double(-3.0)).to_bits(), 9_007_199_254_740_996.0f64.to_bits());
    // The zeros.
    assert_eq!(double(0.0).minus(double(0.0)).to_bits(), 0.0f64.to_bits());
    assert_eq!(double(-0.0).minus(double(0.0)).to_bits(), (-0.0f64).to_bits());
    assert_eq!(double(7.5).minus(double(7.5)).to_bits(), 0.0f64.to_bits());
    // Too great for a finite double.
    assert_eq!(double(f64::MAX).minus(double(-f64::MAX)).to_bits(), f64::INFINITY.to_bits());
}

#[test]
fn double_is_floored() {
    for x in samples() {
        assert_eq!(double(x).floor_u32(), x.floor() as u32, "{}", x);
    }
    assert_eq!(double(59.99).floor_u32(), 59);
    assert_eq!(double(-0.5).floor_u32(), 0);
    assert_eq!(double(1e10).floor_u32(), u32::MAX);
}

#[test]
fn double_exceeds_by_five() {
    let samples = samples();
    for &x in &samples {
        for &y in &samples {
            assert_eq!(double(x).exceeds_by_five(double(y)), x - y > 5.0, "{} {}", x, y);
        }
    }
    assert!(!double(15.0).exceeds_by_five(double(10.0)));
    assert!(double(15.000_001).exceeds_by_five(double(10.0)));
}

#[test]
fn half_a_step_over_five_is_not_over_five() {
    // The next double after five is one step of 2^-50 further; half of it rounds down.
    let half = f64::from_bits(0x3CC0_0000_0000_0000);
    assert_eq!(half, 2.0f64.powi(-51));
    assert!(!double(5.0).exceeds_by_five(double(-half)));
    assert!(double(5.0).exceeds_by_five(double(-half * 1.5)));
}
