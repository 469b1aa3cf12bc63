use math_perf::binary64::Binary64;
use math_perf::cases::{
    abs_test, acos_test, asin_test, atan2_test, atan_test, ceil_test, copysign_test, cos_test,
    exp_test, floor_test, hypot_test, identity, isinf_test, isnan_test, log10_test, log2_test,
    log_test, max_of_itself, max_test, min_of_itself, min_test, negated_magnitude,
    overhead_test, round_test, signbit_test, sin_test, sqrt_test, tan_test, trunc_test,
};
use math_perf::harness::accumulate;

fn value(x: f64) -> Binary64 {
    Binary64::from_bits(x.to_bits())
}

fn float(x: Binary64) -> f64 {
    f64::from_bits(x.to_bits())
}

fn plus(a: Binary64, b: Binary64) -> Binary64 {
    value(float(a) + float(b))
}

fn unary(operation: fn(f64) -> f64) -> impl Fn(Binary64) -> Binary64 {
    move |x: Binary64| value(operation(float(x)))
}

fn binary(operation: fn(f64, f64) -> f64) -> impl Fn(Binary64, Binary64) -> Binary64 {
    move |x: Binary64, y: Binary64| value(operation(float(x), float(y)))
}

fn summed(operation: fn(Binary64) -> Binary64, base: f64, step: f64, count: u64) -> u64 {
    accumulate(&operation, &plus, value(base), value(step), count).accumulated.to_bits()
}

fn expected(operation: fn(f64) -> f64, base: f64, step: f64, count: u64) -> u64 {
    let mut accumulated = 0.0f64;
    let mut argument = base;
    for _ in 0..count {
        accumulated += operation(argument);
        argument += step;
    }
    accumulated.to_bits()
}

#[test]
fn cases_on_bit_patterns_without_repetitions_report_nothing() {
    for repetitions in [0i32, -1, i32::MIN] {
        assert!(overhead_test(repetitions, plus).is_empty());
        assert!(isnan_test(repetitions, plus).is_empty());
        assert!(isinf_test(repetitions, plus).is_empty());
        assert!(abs_test(repetitions, plus).is_empty());
        assert!(signbit_test(repetitions, plus).is_empty());
        assert!(min_test(repetitions, plus).is_empty());
        assert!(max_test(repetitions, plus).is_empty());
        assert!(copysign_test(repetitions, plus).is_empty());
        assert!(floor_test(repetitions, plus).is_empty());
        assert!(ceil_test(repetitions, plus).is_empty());
        assert!(trunc_test(repetitions, plus).is_empty());
        assert!(round_test(repetitions, plus).is_empty());
    }
}

#[test]
fn cases_on_given_operations_without_repetitions_report_nothing() {
    for repetitions in [0i32, -1, i32::MIN] {
        assert!(sin_test(repetitions, plus, unary(f64::sin)).is_empty());
        assert!(asin_test(repetitions, plus, unary(f64::asin)).is_empty());
        assert!(cos_test(repetitions, plus, unary(f64::cos)).is_empty());
        assert!(acos_test(repetitions, plus, unary(f64::acos)).is_empty());
        assert!(tan_test(repetitions, plus, unary(f64::tan)).is_empty());
        assert!(atan_test(repetitions, plus, unary(f64::atan)).is_empty());
        assert!(atan2_test(repetitions, plus, binary(f64::atan2)).is_empty());
        assert!(sqrt_test(repetitions, plus, unary(f64::sqrt)).is_empty());
        assert!(exp_test(repetitions, plus, unary(f64::exp)).is_empty());
        assert!(hypot_test(repetitions, plus, binary(f64::hypot)).is_empty());
        assert!(log_test(repetitions, plus, unary(f64::ln)).is_empty());
        assert!(log2_test(repetitions, plus, unary(f64::log2)).is_empty());
        assert!(log10_test(repetitions, plus, unary(f64::log10)).is_empty());
    }
}

#[test]
fn the_overhead_operation_returns_its_argument() {
    for x in [0.0f64, -0.0, 1.5, f64::NAN, f64::INFINITY] {
        assert_eq!(identity(value(x)).to_bits(), x.to_bits());
    }
    let pi = std::f64::consts::PI;
    assert_eq!(summed(identity, pi, 0.000001, 1000), expected(|x| x, pi, 0.000001, 1000));
}

#[test]
fn the_abs_operation_sums_magnitudes() {
    assert_eq!(summed(Binary64::abs, -3.0, 0.5, 20), expected(f64::abs, -3.0, 0.5, 20));
    assert_eq!(
        float(accumulate(&Binary64::abs, &plus, value(-3.0), value(1.0), 1).accumulated),
        3.0
    );
}

#[test]
fn the_copysign_operation_sums_negated_magnitudes() {
    assert_eq!(negated_magnitude(value(2.0)).to_bits(), (-2.0f64).to_bits());
    assert_eq!(negated_magnitude(value(-2.0)).to_bits(), (-2.0f64).to_bits());
    assert_eq!(
        summed(negated_magnitude, -3.0, 0.5, 20),
        expected(|x| x.copysign(-1.0), -3.0, 0.5, 20)
    );
}

#[test]
fn the_min_and_max_operations_return_their_argument() {
    for x in [0.0f64, -0.0, 1.5, -7.25, f64::NAN, f64::INFINITY, f64::NEG_INFINITY] {
        assert_eq!(min_of_itself(value(x)).to_bits(), x.to_bits());
        assert_eq!(max_of_itself(value(x)).to_bits(), x.to_bits());
    }
    let pi = std::f64::consts::PI;
    assert_eq!(summed(min_of_itself, pi, 0.000001, 100), expected(|x| x, pi, 0.000001, 100));
    assert_eq!(summed(max_of_itself, pi, 0.000001, 100), expected(|x| x, pi, 0.000001, 100));
}

#[test]
fn the_rounding_operations_sum_as_the_hardware_does() {
    let pi = std::f64::consts::PI;
    assert_eq!(summed(Binary64::floor, -pi, 0.37, 40), expected(f64::floor, -pi, 0.37, 40));
    assert_eq!(summed(Binary64::ceil, -pi, 0.37, 40), expected(f64::ceil, -pi, 0.37, 40));
    assert_eq!(summed(Binary64::trunc, -pi, 0.37, 40), expected(f64::trunc, -pi, 0.37, 40));
    assert_eq!(summed(Binary64::round, -pi, 0.37, 40), expected(f64::round, -pi, 0.37, 40));
    assert_eq!(summed(Binary64::floor, pi, 0.000001, 1000), expected(f64::floor, pi, 0.000001, 1000));
}
