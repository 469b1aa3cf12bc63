use lerp::Lerp;
use math_perf::binary64::Binary64;
use math_perf::harness::Sample;
use math_perf::split::{accumulate_split, frexp_test, modf_test, run_split_case};
use math_perf::streams::{
    accumulate_pairs, accumulate_pairs_at, accumulate_triples, clamp_test, fmod_test, lerp_test,
    TripleSample,
};
use math_perf::sweep::{
    accumulate_sweeps, scalebn_test, EXPONENT_ITERATION_COUNT, VALUE_ITERATION_COUNT,
};
use math_perf::walk::{accumulate_walk, nextdown_test, nextup_test, run_walk_case};

fn value(x: f64) -> Binary64 {
    Binary64::from_bits(x.to_bits())
}

fn float(x: Binary64) -> f64 {
    f64::from_bits(x.to_bits())
}

fn plus(a: Binary64, b: Binary64) -> Binary64 {
    value(float(a) + float(b))
}

fn frexp(x: Binary64) -> (Binary64, Binary64) {
    let (fraction, exponent) = libm::frexp(float(x));
    (value(fraction), value(f64::from(exponent)))
}

fn modf(x: Binary64) -> (Binary64, Binary64) {
    let (fraction, whole) = libm::modf(float(x));
    (value(fraction), value(whole))
}

fn fmod(x: Binary64, y: Binary64) -> Binary64 {
    value(libm::fmod(float(x), float(y)))
}

fn interpolate(from: Binary64, to: Binary64, t: Binary64) -> Binary64 {
    value(float(from).lerp(float(to), float(t)))
}

fn clamp(x: Binary64, low: Binary64, high: Binary64) -> Binary64 {
    value(float(x).clamp(float(low), float(high)))
}

fn scalbn(x: Binary64, exponent: i32) -> Binary64 {
    value(libm::scalbn(float(x), exponent))
}

fn nextafter(x: Binary64, target: Binary64) -> Binary64 {
    value(libm::nextafter(float(x), float(target)))
}

#[test]
fn frexp_parts_give_the_value_back() {
    for x in [std::f64::consts::PI, 1.0, 0.75, -6.5, 1.0e-310, 1.0e300, 12345.678] {
        let sample = accumulate_split(&frexp, &plus, value(x), value(0.000001), 1);
        let fraction = float(sample.accumulated.first);
        let exponent = float(sample.accumulated.second);
        assert!(0.5 <= fraction.abs() && fraction.abs() < 1.0);
        assert_eq!(libm::scalbn(fraction, exponent as i32), x);
    }
    let sample = accumulate_split(&frexp, &plus, value(8.0), value(0.000001), 1);
    assert_eq!(float(sample.accumulated.first), 0.5);
    assert_eq!(float(sample.accumulated.second), 4.0);
}

#[test]
fn modf_parts_give_the_value_back() {
    for x in [std::f64::consts::PI, 1.0, 0.75, -6.5, 1.0e-310, 1.0e300, 12345.678] {
        let sample = accumulate_split(&modf, &plus, value(x), value(0.000001), 1);
        let fraction = float(sample.accumulated.first);
        let whole = float(sample.accumulated.second);
        assert_eq!(whole, x.trunc());
        assert_eq!(whole + fraction, x);
    }
    let sample = accumulate_split(&modf, &plus, value(2.5), value(0.000001), 1);
    assert_eq!(float(sample.accumulated.first), 0.5);
    assert_eq!(float(sample.accumulated.second), 2.0);
}

#[test]
fn split_sums_follow_the_loop() {
    let base = std::f64::consts::PI;
    let step = 0.000001f64;
    let mut first = 0.0f64;
    let mut second = 0.0f64;
    let mut argument = base;
    for _ in 0..500 {
        let (fraction, exponent) = libm::frexp(argument);
        first += fraction;
        second += f64::from(exponent);
        argument += step;
    }
    let sample = accumulate_split(&frexp, &plus, value(base), value(step), 500);
    assert_eq!(sample.accumulated.first.to_bits(), first.to_bits());
    assert_eq!(sample.accumulated.second.to_bits(), second.to_bits());
    assert_eq!(sample.argument.to_bits(), argument.to_bits());
}

#[test]
fn a_split_run_reports_once_for_each_repetition() {
    let results = run_split_case(3, "ModFTest", modf, plus, value(2.5), value(1.0), 2);
    assert_eq!(results.len(), 3);
    for result in &results {
        assert_eq!(result.name, "ModFTest");
        assert_eq!(float(result.accumulated.first), 1.0);
        assert_eq!(float(result.accumulated.second), 5.0);
    }
    assert!(run_split_case(-1, "ModFTest", modf, plus, value(2.5), value(1.0), 2).is_empty());
}

#[test]
fn pair_sums_follow_the_loop() {
    let step = 0.000001f64;
    let mut accumulated = 0.0f64;
    let mut first = std::f64::consts::PI;
    let mut second = std::f64::consts::PI / 4.0;
    for _ in 0..500 {
        accumulated += libm::fmod(first, second);
        first += step;
        second += step;
    }
    let sample = accumulate_pairs(
        &fmod,
        &plus,
        value(std::f64::consts::PI),
        value(std::f64::consts::PI / 4.0),
        value(step),
        500,
    );
    assert_eq!(sample.accumulated.to_bits(), accumulated.to_bits());
    assert_eq!(sample.first.to_bits(), first.to_bits());
    assert_eq!(sample.second.to_bits(), second.to_bits());
}

#[test]
fn fmod_of_seven_by_two_is_one() {
    let sample = accumulate_pairs(&fmod, &plus, value(7.0), value(2.0), value(1.0), 1);
    assert_eq!(float(sample.accumulated), 1.0);
    assert_eq!(float(sample.first), 8.0);
    assert_eq!(float(sample.second), 3.0);
}

#[test]
fn lerp_at_one_half_is_the_midpoint() {
    let sample =
        accumulate_pairs_at(&interpolate, &plus, value(1.0), value(3.0), value(0.5), value(1.0), 1);
    assert_eq!(float(sample.accumulated), 2.0);
    let sample =
        accumulate_pairs_at(&interpolate, &plus, value(1.0), value(3.0), value(0.5), value(1.0), 2);
    assert_eq!(float(sample.accumulated), 5.0);
    assert_eq!(float(sample.first), 3.0);
    assert_eq!(float(sample.second), 5.0);
}

#[test]
fn lerp_holds_its_parameter() {
    let sample = accumulate_pairs_at(
        &interpolate,
        &plus,
        value(0.0),
        value(8.0),
        value(0.25),
        value(1.0),
        3,
    );
    assert_eq!(float(sample.accumulated), 2.0 + 3.0 + 4.0);
}

#[test]
fn clamp_sums_follow_the_loop() {
    let start = TripleSample {
        accumulated: value(99.0),
        first: value(std::f64::consts::PI),
        second: value(std::f64::consts::PI / 2.0),
        third: value(2.0 * std::f64::consts::PI),
    };
    let step = 0.000001f64;
    let mut accumulated = 0.0f64;
    let mut argument = std::f64::consts::PI;
    let mut low = std::f64::consts::PI / 2.0;
    let mut high = 2.0 * std::f64::consts::PI;
    for _ in 0..500 {
        accumulated += argument.clamp(low, high);
        argument += step;
        low += step;
        high += step;
    }
    let sample = accumulate_triples(&clamp, &plus, start, value(step), 500);
    assert_eq!(sample.accumulated.to_bits(), accumulated.to_bits());
    assert_eq!(sample.first.to_bits(), argument.to_bits());
    assert_eq!(sample.second.to_bits(), low.to_bits());
    assert_eq!(sample.third.to_bits(), high.to_bits());
}

#[test]
fn clamp_takes_value_then_bounds() {
    let start = TripleSample {
        accumulated: value(0.0),
        first: value(10.0),
        second: value(1.0),
        third: value(4.0),
    };
    let sample = accumulate_triples(&clamp, &plus, start, value(1.0), 1);
    assert_eq!(float(sample.accumulated), 4.0);
    let start = TripleSample { first: value(-10.0), ..start };
    let sample = accumulate_triples(&clamp, &plus, start, value(1.0), 1);
    assert_eq!(float(sample.accumulated), 1.0);
}

#[test]
fn sweeps_scale_by_the_exponents_from_one() {
    let sample = accumulate_sweeps(&scalbn, &plus, value(1.0), value(1.0), 3, 1);
    assert_eq!(float(sample.accumulated), 2.0 + 4.0 + 8.0);
    assert_eq!(float(sample.argument), 2.0);
    let sample = accumulate_sweeps(&scalbn, &plus, value(1.0), value(1.0), 3, 2);
    assert_eq!(float(sample.accumulated), 14.0 + 28.0);
    assert_eq!(float(sample.argument), 3.0);
}

#[test]
fn sweeps_without_exponents_only_advance() {
    for exponents in [0i32, -5] {
        let sample = accumulate_sweeps(&scalbn, &plus, value(1.0), value(1.0), exponents, 4);
        assert_eq!(sample.accumulated.to_bits(), 0);
        assert_eq!(float(sample.argument), 5.0);
    }
}

#[test]
fn sweep_sums_follow_the_loop() {
    let step = 0.000001f64;
    let mut accumulated = 0.0f64;
    let mut argument = std::f64::consts::PI / 2.0;
    for _ in 0..50 {
        for j in 0..EXPONENT_ITERATION_COUNT {
            accumulated += libm::scalbn(argument, j + 1);
        }
        argument += step;
    }
    let sample = accumulate_sweeps(
        &scalbn,
        &plus,
        value(std::f64::consts::PI / 2.0),
        value(step),
        EXPONENT_ITERATION_COUNT,
        50,
    );
    assert_eq!(sample.accumulated.to_bits(), accumulated.to_bits());
    assert_eq!(sample.argument.to_bits(), argument.to_bits());
    assert_eq!(EXPONENT_ITERATION_COUNT, 100);
    assert_eq!(VALUE_ITERATION_COUNT, 10_000_000);
}

#[test]
fn a_walk_up_from_zero_passes_the_smallest_values() {
    let Sample { accumulated, argument } =
        accumulate_walk(&nextafter, &plus, value(0.0), value(f64::INFINITY), 3);
    assert_eq!(argument.to_bits(), 3);
    assert_eq!(accumulated.to_bits(), 6);
}

#[test]
fn a_walk_down_from_zero_passes_the_smallest_negative_values() {
    let Sample { accumulated, argument } =
        accumulate_walk(&nextafter, &plus, value(0.0), value(f64::NEG_INFINITY), 3);
    assert_eq!(argument.to_bits(), 0x8000_0000_0000_0003);
    assert_eq!(accumulated.to_bits(), 0x8000_0000_0000_0006);
}

#[test]
fn a_walk_run_reports_once_for_each_repetition() {
    let results =
        run_walk_case(4, "NextUpTest", nextafter, plus, value(1.0), value(f64::INFINITY), 1);
    assert_eq!(results.len(), 4);
    for result in &results {
        assert_eq!(result.name, "NextUpTest");
        assert_eq!(result.accumulated.to_bits(), 1.0f64.to_bits() + 1);
    }
}

#[test]
fn variant_cases_without_repetitions_report_nothing() {
    for repetitions in [0i32, -1, i32::MIN] {
        assert!(frexp_test(repetitions, plus, frexp).is_empty());
        assert!(modf_test(repetitions, plus, modf).is_empty());
        assert!(clamp_test(repetitions, plus, clamp).is_empty());
        assert!(lerp_test(repetitions, plus, interpolate).is_empty());
        assert!(scalebn_test(repetitions, plus, scalbn).is_empty());
        assert!(nextup_test(repetitions, plus, nextafter).is_empty());
        assert!(nextdown_test(repetitions, plus, nextafter).is_empty());
        assert!(fmod_test(repetitions, plus, fmod).is_empty());
    }
}

#[test]
fn the_whole_part_of_modf_is_the_truncation() {
    for x in [std::f64::consts::PI, 1.0, 0.75, -6.5, -0.25, 1.0e-310, 1.0e300, 12345.678, 0.0] {
        let (fraction, whole) = modf(value(x));
        assert_eq!(value(x).trunc().to_bits(), whole.to_bits(), "{x:?}");
        assert_eq!(fraction.is_sign_negative(), value(x).is_sign_negative());
        assert!(float(fraction).abs() < 1.0);
        assert_eq!(float(value(x).trunc()) + float(fraction), x);
    }
}

#[test]
fn walks_in_both_directions_report_under_their_own_names() {
    let up = run_walk_case(1, "NextUpTest", nextafter, plus, value(0.0), value(f64::INFINITY), 2);
    let down =
        run_walk_case(1, "NextDownTest", nextafter, plus, value(0.0), value(f64::NEG_INFINITY), 2);
    assert_eq!(up[0].name, "NextUpTest");
    assert_eq!(down[0].name, "NextDownTest");
    assert_ne!(up[0].name, down[0].name);
    assert_eq!(up[0].accumulated.to_bits(), 3);
    assert_eq!(down[0].accumulated.to_bits(), 0x8000_0000_0000_0003);
}
