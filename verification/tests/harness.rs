use math_perf::binary64::Binary64;
use math_perf::cases::{identity, is_infinite_flag, is_nan_flag, sign_bit_flag};
use math_perf::harness::{accumulate, repeat_timed, run_case, run_test, INNER_ITERATION_COUNT};

fn value(x: f64) -> Binary64 {
    Binary64::from_bits(x.to_bits())
}

fn float(x: Binary64) -> f64 {
    f64::from_bits(x.to_bits())
}

fn plus(a: Binary64, b: Binary64) -> Binary64 {
    value(float(a) + float(b))
}

fn once(operation: fn(Binary64) -> Binary64, argument: f64) -> f64 {
    float(accumulate(&operation, &plus, value(argument), value(0.000001), 1).accumulated)
}

#[test]
fn identity_over_five_iterations_sums_the_arguments() {
    let sample = accumulate(&identity, &plus, value(0.0), value(1.0), 5);
    assert_eq!(float(sample.accumulated), 10.0);
    assert_eq!(float(sample.argument), 5.0);
}

#[test]
fn identity_sum_follows_the_order_of_the_additions() {
    let base = 0.1f64;
    let step = 0.2f64;
    let mut expected = 0.0f64;
    let mut argument = base;
    for _ in 0..1000 {
        expected += argument;
        argument += step;
    }
    let sample = accumulate(&identity, &plus, value(base), value(step), 1000);
    assert_eq!(sample.accumulated.to_bits(), expected.to_bits());
    assert_eq!(sample.argument.to_bits(), argument.to_bits());
}

#[test]
fn no_iterations_leave_zero_and_the_base() {
    let sample = accumulate(&identity, &plus, value(3.5), value(1.0), 0);
    assert_eq!(sample.accumulated.to_bits(), 0);
    assert_eq!(float(sample.argument), 3.5);
}

#[test]
fn a_run_reports_once_for_each_repetition() {
    for repetitions in [0i32, 1, 3, 7] {
        let results =
            run_case(repetitions, "Identity", identity, plus, value(0.0), value(1.0), 5);
        assert_eq!(results.len(), repetitions as usize);
        for result in &results {
            assert_eq!(result.name, "Identity");
            assert_eq!(float(result.accumulated), 10.0);
        }
    }
}

#[test]
fn a_negative_repeat_count_reports_nothing() {
    let results = run_case(-4, "Identity", identity, plus, value(0.0), value(1.0), 5);
    assert!(results.is_empty());
    let results = run_case(i32::MIN, "Identity", identity, plus, value(0.0), value(1.0), 5);
    assert!(results.is_empty());
}

#[test]
fn the_timed_run_without_repetitions_reports_nothing() {
    assert_eq!(INNER_ITERATION_COUNT, 1_000_000_000);
    let results = run_test(0, "Identity", identity, plus, value(0.0), value(1.0));
    assert!(results.is_empty());
}

#[test]
fn the_elapsed_time_of_a_short_run_is_short() {
    let results = run_case(2, "Identity", identity, plus, value(0.0), value(1.0), 5);
    for result in &results {
        assert!(result.elapsed >= chrono::TimeDelta::zero());
        assert!(result.elapsed < chrono::TimeDelta::seconds(60));
    }
}

#[test]
fn nan_counts_as_nan() {
    assert_eq!(once(is_nan_flag, f64::NAN), 1.0);
    assert_eq!(once(is_nan_flag, 1.0), 0.0);
}

#[test]
fn infinity_counts_as_infinite() {
    assert_eq!(once(is_infinite_flag, f64::INFINITY), 1.0);
    assert_eq!(once(is_infinite_flag, f64::NEG_INFINITY), 1.0);
    assert_eq!(once(is_infinite_flag, 1.0), 0.0);
}

#[test]
fn minus_one_has_its_sign_bit_set() {
    assert_eq!(once(sign_bit_flag, -1.0), 1.0);
    assert_eq!(once(sign_bit_flag, 1.0), 0.0);
}

#[test]
fn rounding_two_and_a_half() {
    assert_eq!(once(Binary64::floor, 2.5), 2.0);
    assert_eq!(once(Binary64::ceil, 2.5), 3.0);
    assert_eq!(once(Binary64::trunc, 2.5), 2.0);
    assert_eq!(once(Binary64::round, 2.5), 3.0);
}

#[test]
fn rounding_minus_two_and_a_half() {
    assert_eq!(once(Binary64::floor, -2.5), -3.0);
    assert_eq!(once(Binary64::ceil, -2.5), -2.0);
    assert_eq!(once(Binary64::trunc, -2.5), -2.0);
    assert_eq!(once(Binary64::round, -2.5), -3.0);
}

#[test]
fn the_same_case_twice_gives_the_same_bits() {
    let sine = |x: Binary64| value(float(x).sin());
    let first = accumulate(&sine, &plus, value(0.031415926535897934), value(0.000001), 10_000);
    let second = accumulate(&sine, &plus, value(0.031415926535897934), value(0.000001), 10_000);
    assert_eq!(first.accumulated.to_bits(), second.accumulated.to_bits());
    assert_eq!(first.argument.to_bits(), second.argument.to_bits());
    let one = run_case(2, "SinTest", sine, plus, value(0.5), value(0.25), 100);
    let other = run_case(2, "SinTest", sine, plus, value(0.5), value(0.25), 100);
    for (a, b) in one.iter().zip(other.iter()) {
        assert_eq!(a.accumulated.to_bits(), b.accumulated.to_bits());
    }
    assert_eq!(one[0].accumulated.to_bits(), one[1].accumulated.to_bits());
}

#[test]
fn nan_flows_into_the_sum() {
    let root = |x: Binary64| value(float(x).sqrt());
    let sample = accumulate(&root, &plus, value(-1.0), value(1.0), 3);
    assert!(float(sample.accumulated).is_nan());
    assert_eq!(float(sample.argument), 2.0);
}

fn instant(seconds: i64, nanoseconds: u32) -> chrono::NaiveDateTime {
    chrono::DateTime::from_timestamp(seconds, nanoseconds).unwrap().naive_utc()
}

#[test]
fn a_report_carries_the_time_from_the_first_reading_to_the_second() {
    let start = instant(1_700_000_000, 250_000_000);
    let end = instant(1_700_000_002, 0);
    let result = math_perf::harness::report("SqrtTest", start, value(4.5), end);
    assert_eq!(result.name, "SqrtTest");
    assert_eq!(result.elapsed, chrono::TimeDelta::milliseconds(1750));
    assert_eq!(result.elapsed, end - start);
    assert_eq!(float(result.accumulated), 4.5);
}

#[test]
fn a_report_of_readings_out_of_order_is_negative() {
    let start = instant(10, 0);
    let end = instant(7, 500_000_000);
    let result = math_perf::harness::report("Backwards", start, 7u8, end);
    assert_eq!(result.elapsed, chrono::TimeDelta::milliseconds(-2500));
    assert_eq!(result.accumulated, 7);
}

#[test]
fn a_report_spans_instants_on_both_sides_of_1970() {
    let start = instant(-5, 0);
    let end = instant(5, 0);
    let result = math_perf::harness::report("Epoch", start, (), end);
    assert_eq!(result.elapsed, chrono::TimeDelta::seconds(10));
    let same = math_perf::harness::report("Epoch", start, (), start);
    assert_eq!(same.elapsed, chrono::TimeDelta::zero());
}

#[test]
fn a_run_that_takes_time_reports_a_positive_duration() {
    let root = |x: Binary64| value(float(x).sqrt());
    let results = run_case(3, "SqrtTest", root, plus, value(1.0), value(0.5), 2_000_000);
    assert_eq!(results.len(), 3);
    for result in &results {
        assert!(result.elapsed > chrono::TimeDelta::zero(), "{:?}", result.elapsed);
        assert!(result.elapsed < chrono::TimeDelta::seconds(60), "{:?}", result.elapsed);
    }
}

#[test]
fn each_repetition_measures_a_state_set_up_afresh() {
    let results = repeat_timed(4, "Doubling", || 21u32, |state: u32| state * 2);
    assert_eq!(results.len(), 4);
    for result in &results {
        assert_eq!(result.name, "Doubling");
        assert_eq!(result.accumulated, 42);
    }
    assert!(repeat_timed(-2, "Doubling", || 21u32, |state: u32| state * 2).is_empty());
}

#[test]
fn the_set_up_is_not_part_of_the_duration() {
    let slow_set_up = || {
        let began = std::time::Instant::now();
        while began.elapsed() < std::time::Duration::from_millis(300) {
            std::hint::black_box(began);
        }
        7u32
    };
    let results = repeat_timed(1, "SetUp", slow_set_up, |state: u32| state + 1);
    assert_eq!(results[0].accumulated, 8);
    assert!(results[0].elapsed >= chrono::TimeDelta::zero());
    assert!(results[0].elapsed < chrono::TimeDelta::milliseconds(200), "{:?}", results[0].elapsed);
}
