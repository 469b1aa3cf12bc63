use math_perf::binary64::{Binary64, INFINITY_BITS, MAGNITUDE_MASK, ONE_BITS, SIGN_BIT};
use math_perf::cases::{max, min};
use math_perf::constants::{
    BILLIONTH_BITS, HALF_BITS, HALF_PI_BITS, JUST_BELOW_ONE_BITS, MILLIONTH_BITS, MINUS_ONE_BITS,
    NEGATIVE_INFINITY_BITS, NINE_TENTHS_BITS, NINE_TENTHS_OF_A_BILLIONTH_BITS, PI_BITS,
    PI_OVER_100_BITS, QUARTER_PI_BITS, TWO_PI_BITS,
};

fn of(x: f64) -> Binary64 {
    Binary64::from_bits(x.to_bits())
}

fn samples() -> Vec<f64> {
    vec![
        0.0,
        -0.0,
        f64::from_bits(1),
        -f64::from_bits(1),
        f64::MIN_POSITIVE,
        -f64::MIN_POSITIVE,
        0.5,
        -0.5,
        1.0,
        -1.0,
        1.5,
        2.5,
        -2.5,
        std::f64::consts::PI,
        1.0e300,
        -1.0e300,
        f64::MAX,
        f64::MIN,
        f64::INFINITY,
        f64::NEG_INFINITY,
        f64::NAN,
        -f64::NAN,
        f64::from_bits(0x7FF0_0000_0000_0001),
        f64::from_bits(0xFFFF_FFFF_FFFF_FFFF),
    ]
}

#[test]
fn bit_patterns_pass_through() {
    for bits in [0u64, 1, ONE_BITS, SIGN_BIT, MAGNITUDE_MASK, u64::MAX] {
        assert_eq!(Binary64::from_bits(bits).to_bits(), bits);
        assert_eq!(Binary64::from_bits(bits).bits, bits);
    }
}

#[test]
fn masks_are_those_of_the_format() {
    assert_eq!(SIGN_BIT, (-0.0f64).to_bits());
    assert_eq!(INFINITY_BITS, f64::INFINITY.to_bits());
    assert_eq!(ONE_BITS, 1.0f64.to_bits());
    assert_eq!(MAGNITUDE_MASK, !SIGN_BIT);
}

#[test]
fn classification_agrees_with_the_hardware() {
    for x in samples() {
        assert_eq!(of(x).is_nan(), x.is_nan(), "{x:?}");
        assert_eq!(of(x).is_infinite(), x.is_infinite(), "{x:?}");
        assert_eq!(of(x).is_sign_negative(), x.is_sign_negative(), "{x:?}");
    }
}

#[test]
fn abs_clears_the_sign_bit() {
    for x in samples() {
        assert_eq!(of(x).abs().to_bits(), x.abs().to_bits(), "{x:?}");
    }
    assert_eq!(of(-1.0).abs().to_bits(), ONE_BITS);
}

#[test]
fn copysign_takes_the_magnitude_of_one_and_the_sign_of_the_other() {
    for x in samples() {
        for y in samples() {
            assert_eq!(of(x).copysign(of(y)).to_bits(), x.copysign(y).to_bits(), "{x:?} {y:?}");
        }
    }
    assert_eq!(of(3.0).copysign(of(-1.0)).to_bits(), (-3.0f64).to_bits());
}

#[test]
fn ordering_agrees_with_the_hardware() {
    for x in samples() {
        for y in samples() {
            assert_eq!(of(x).lt(of(y)), x < y, "{x:?} < {y:?}");
            assert_eq!(of(x).gt(of(y)), x > y, "{x:?} > {y:?}");
        }
    }
}

#[test]
fn the_zeros_are_equal_in_order() {
    assert!(!of(-0.0).lt(of(0.0)));
    assert!(!of(0.0).lt(of(-0.0)));
    assert!(!of(0.0).gt(of(-0.0)));
}

#[test]
fn nan_is_neither_less_nor_greater() {
    for x in samples() {
        assert!(!of(f64::NAN).lt(of(x)));
        assert!(!of(x).lt(of(f64::NAN)));
        assert!(!of(f64::NAN).gt(of(x)));
        assert!(!of(x).gt(of(f64::NAN)));
    }
}

#[test]
fn min_and_max_pick_as_the_comparison_says() {
    for x in samples() {
        for y in samples() {
            let least = if x < y { x } else { y };
            let most = if x > y { x } else { y };
            assert_eq!(min(of(x), of(y)).to_bits(), least.to_bits(), "{x:?} {y:?}");
            assert_eq!(max(of(x), of(y)).to_bits(), most.to_bits(), "{x:?} {y:?}");
        }
    }
    assert_eq!(min(of(1.0), of(2.0)).to_bits(), 1.0f64.to_bits());
    assert_eq!(max(of(1.0), of(2.0)).to_bits(), 2.0f64.to_bits());
    assert_eq!(min(of(2.0), of(f64::NAN)).to_bits(), f64::NAN.to_bits());
    assert_eq!(min(of(f64::NAN), of(2.0)).to_bits(), 2.0f64.to_bits());
}

#[test]
fn indicate_gives_one_or_zero() {
    assert_eq!(Binary64::indicate(true).to_bits(), 1.0f64.to_bits());
    assert_eq!(Binary64::indicate(false).to_bits(), 0.0f64.to_bits());
}

#[test]
fn constants_encode_the_values_they_are_named_for() {
    let pi = std::f64::consts::PI;
    assert_eq!(PI_BITS, pi.to_bits());
    assert_eq!(PI_OVER_100_BITS, (pi / 100.0).to_bits());
    assert_eq!(HALF_PI_BITS, (pi / 2.0).to_bits());
    assert_eq!(QUARTER_PI_BITS, (pi / 4.0).to_bits());
    assert_eq!(TWO_PI_BITS, (2.0 * pi).to_bits());
    assert_eq!(MILLIONTH_BITS, 0.000001f64.to_bits());
    assert_eq!(BILLIONTH_BITS, 0.000000001f64.to_bits());
    assert_eq!(BILLIONTH_BITS, (1.0f64 / 1000000000.0).to_bits());
    assert_eq!(NINE_TENTHS_OF_A_BILLIONTH_BITS, (0.9f64 / 1000000000.0).to_bits());
    assert_eq!(NINE_TENTHS_BITS, 0.9f64.to_bits());
    assert_eq!(JUST_BELOW_ONE_BITS, 0.999f64.to_bits());
    assert_eq!(HALF_BITS, 0.5f64.to_bits());
    assert_eq!(MINUS_ONE_BITS, (-1.0f64).to_bits());
    assert_eq!(NEGATIVE_INFINITY_BITS, f64::NEG_INFINITY.to_bits());
}
