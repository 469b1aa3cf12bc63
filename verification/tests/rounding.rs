use math_perf::binary64::Binary64;
use math_perf::constants::HALF_BITS;
use math_perf::rounding::WHOLE_FROM_BITS;

fn of(x: f64) -> Binary64 {
    Binary64::from_bits(x.to_bits())
}

fn finite_samples() -> Vec<f64> {
    let mut samples = vec![
        0.0,
        f64::from_bits(1),
        f64::MIN_POSITIVE,
        1.0e-300,
        0.25,
        0.49999999999999994,
        0.5,
        0.5000000000000001,
        0.75,
        0.9999999999999999,
        1.0,
        1.0000000000000002,
        1.5,
        2.0,
        2.5,
        3.5,
        std::f64::consts::PI,
        1023.5,
        1024.0,
        4503599627370495.5,
        4503599627370496.0,
        4503599627370497.0,
        9007199254740991.0,
        9007199254740992.0,
        1.0e300,
        f64::MAX,
    ];
    let mut x = 0.3f64;
    for _ in 0..200 {
        samples.push(x);
        x *= 1.37;
    }
    let negatives: Vec<f64> = samples.iter().map(|x| -x).collect();
    samples.extend(negatives);
    samples
}

#[test]
fn rounding_agrees_with_the_hardware_on_finite_values() {
    for x in finite_samples() {
        assert_eq!(of(x).trunc().to_bits(), x.trunc().to_bits(), "trunc {x:?}");
        assert_eq!(of(x).floor().to_bits(), x.floor().to_bits(), "floor {x:?}");
        assert_eq!(of(x).ceil().to_bits(), x.ceil().to_bits(), "ceil {x:?}");
        assert_eq!(of(x).round().to_bits(), x.round().to_bits(), "round {x:?}");
    }
}

#[test]
fn rounding_agrees_with_the_hardware_around_every_binade() {
    for exponent in 1000u64..1100 {
        for fraction in [0u64, 1, 0x7_FFFF_FFFF_FFFF, 0x8_0000_0000_0000, 0xF_FFFF_FFFF_FFFF] {
            for shift in 0..52 {
                let bits = (exponent << 52) | (fraction >> shift) | (fraction & (1 << shift));
                for x in [f64::from_bits(bits), -f64::from_bits(bits)] {
                    assert_eq!(of(x).trunc().to_bits(), x.trunc().to_bits(), "trunc {x:?}");
                    assert_eq!(of(x).floor().to_bits(), x.floor().to_bits(), "floor {x:?}");
                    assert_eq!(of(x).ceil().to_bits(), x.ceil().to_bits(), "ceil {x:?}");
                    assert_eq!(of(x).round().to_bits(), x.round().to_bits(), "round {x:?}");
                }
            }
        }
    }
}

#[test]
fn rounding_keeps_the_sign_of_zero() {
    assert_eq!(of(-0.0).floor().to_bits(), (-0.0f64).to_bits());
    assert_eq!(of(-0.3).ceil().to_bits(), (-0.0f64).to_bits());
    assert_eq!(of(-0.3).trunc().to_bits(), (-0.0f64).to_bits());
    assert_eq!(of(-0.3).round().to_bits(), (-0.0f64).to_bits());
    assert_eq!(of(0.3).floor().to_bits(), 0.0f64.to_bits());
    assert_eq!(of(-0.3).floor().to_bits(), (-1.0f64).to_bits());
    assert_eq!(of(0.3).ceil().to_bits(), 1.0f64.to_bits());
}

#[test]
fn halves_round_away_from_zero() {
    assert_eq!(of(0.5).round().to_bits(), 1.0f64.to_bits());
    assert_eq!(of(-0.5).round().to_bits(), (-1.0f64).to_bits());
    assert_eq!(of(1.5).round().to_bits(), 2.0f64.to_bits());
    assert_eq!(of(2.5).round().to_bits(), 3.0f64.to_bits());
    assert_eq!(of(-2.5).round().to_bits(), (-3.0f64).to_bits());
    assert_eq!(of(0.49999999999999994).round().to_bits(), 0.0f64.to_bits());
}

#[test]
fn infinities_and_nans_pass_through_rounding() {
    for x in [f64::INFINITY, f64::NEG_INFINITY] {
        assert_eq!(of(x).trunc().to_bits(), x.to_bits());
        assert_eq!(of(x).floor().to_bits(), x.to_bits());
        assert_eq!(of(x).ceil().to_bits(), x.to_bits());
        assert_eq!(of(x).round().to_bits(), x.to_bits());
    }
    for bits in [f64::NAN.to_bits(), 0x7FF0_0000_0000_0001, 0xFFFF_FFFF_FFFF_FFFF] {
        let x = Binary64::from_bits(bits);
        assert_eq!(x.trunc().to_bits(), bits);
        assert_eq!(x.floor().to_bits(), bits);
        assert_eq!(x.ceil().to_bits(), bits);
        assert_eq!(x.round().to_bits(), bits);
    }
}

#[test]
fn thresholds_are_one_half_and_two_to_the_52() {
    assert_eq!(HALF_BITS, 0.5f64.to_bits());
    assert_eq!(WHOLE_FROM_BITS, 4503599627370496.0f64.to_bits());
}
