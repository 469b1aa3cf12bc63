//! The cases of the benchmark that apply one operation to one argument.
//!
//! Each case fixes a name, a starting value and an increment, and runs the
//! harness on an operation. Classification, sign handling, `min`, `max` and
//! the roundings to whole numbers are computed here, on the bit pattern. Every
//! other operation is handed in by the caller, and so is the addition.

use vstd::prelude::*;
use crate::binary64::Binary64;
use crate::constants::{
    BILLIONTH_BITS, JUST_BELOW_ONE_BITS, MILLIONTH_BITS, MINUS_ONE_BITS,
    NINE_TENTHS_BITS, NINE_TENTHS_OF_A_BILLIONTH_BITS, PI_BITS, PI_OVER_100_BITS,
};
use crate::harness::{
    accumulated_by, outcomes, outcomes2, reports, run_test, total, total2, Binary, RunResult,
    Unary, INNER_ITERATION_COUNT,
};
use crate::laws::{computes, lemma_run_within};
use crate::magnitude::lemma_order_is_numeric;
use crate::rounding::{ceils, floors, rounds_to_nearest, truncates};

verus! {

/// `results` is what a run of `INNER_ITERATION_COUNT` inner iterations
/// reports, for an operation and an addition with these relations, from the
/// starting value and with the increment that the two bit patterns encode.
pub open spec fn measures(
    results: Seq<RunResult<Binary64>>,
    outer_iteration_count: i32,
    name: Seq<char>,
    value_of: Unary,
    sum_of: Binary,
    base_bits: u64,
    increment_bits: u64,
) -> bool {
    reports(
        results,
        outer_iteration_count,
        name,
        accumulated_by(
            value_of,
            sum_of,
            Binary64::encoded(base_bits),
            Binary64::encoded(increment_bits),
            INNER_ITERATION_COUNT as nat,
        ),
    )
}

/// The relation of an operation of two arguments, applied to a value and
/// itself.
pub open spec fn on_diagonal(result_of: Binary) -> Unary {
    |x: Binary64, y: Binary64| result_of(x, x, y)
}

/// The first value where it is less than the second, else the second. Where
/// either is NaN this is the second.
pub open spec fn lesser(first: Binary64, second: Binary64) -> Binary64 {
    if first.less_than(second) {
        first
    } else {
        second
    }
}

/// The first value where it is greater than the second, else the second.
/// Where either is NaN this is the second.
pub open spec fn greater(first: Binary64, second: Binary64) -> Binary64 {
    if second.less_than(first) {
        first
    } else {
        second
    }
}

/// Of two values that are not NaN, `lesser` is one of the two and is not
/// above either, and `greater` is one of the two and is not below either.
pub proof fn lemma_lesser_and_greater_bound(first: Binary64, second: Binary64)
    requires
        !first.nan(),
        !second.nan(),
    ensures
        lesser(first, second) == first || lesser(first, second) == second,
        lesser(first, second).value() <= first.value(),
        lesser(first, second).value() <= second.value(),
        greater(first, second) == first || greater(first, second) == second,
        greater(first, second).value() >= first.value(),
        greater(first, second).value() >= second.value(),
{
    lemma_order_is_numeric(first, second);
    lemma_order_is_numeric(second, first);
}

/// The lesser of two values as `<` orders them: the first where it is less
/// than the second, else the second.
pub fn min(first: Binary64, second: Binary64) -> (least: Binary64)
    ensures
        least == lesser(first, second),
{
    if first.lt(second) {
        first
    } else {
        second
    }
}

/// The greater of two values as `>` orders them: the first where it is
/// greater than the second, else the second.
pub fn max(first: Binary64, second: Binary64) -> (most: Binary64)
    ensures
        most == greater(first, second),
{
    if first.gt(second) {
        first
    } else {
        second
    }
}

/// The operation of the overhead case: the argument itself.
pub fn identity(x: Binary64) -> (y: Binary64)
    ensures
        y == x,
{
    x
}

/// One where the argument is NaN, else zero.
pub fn is_nan_flag(x: Binary64) -> (y: Binary64)
    ensures
        y == Binary64::indicator(x.nan()),
{
    Binary64::indicate(x.is_nan())
}

/// One where the argument is an infinity, else zero.
pub fn is_infinite_flag(x: Binary64) -> (y: Binary64)
    ensures
        y == Binary64::indicator(x.infinite()),
{
    Binary64::indicate(x.is_infinite())
}

/// One where the sign bit of the argument is set, else zero.
pub fn sign_bit_flag(x: Binary64) -> (y: Binary64)
    ensures
        y == Binary64::indicator(x.negative()),
{
    Binary64::indicate(x.is_sign_negative())
}

/// The argument with its sign bit set.
pub fn negated_magnitude(x: Binary64) -> (y: Binary64)
    ensures
        y == x.with_sign_of(Binary64::encoded(MINUS_ONE_BITS)),
{
    x.copysign(Binary64::from_bits(MINUS_ONE_BITS))
}

/// The lesser of the argument and itself, which is the argument.
pub fn min_of_itself(x: Binary64) -> (y: Binary64)
    ensures
        y == lesser(x, x),
        y == x,
{
    min(x, x)
}

/// The greater of the argument and itself, which is the argument.
pub fn max_of_itself(x: Binary64) -> (y: Binary64)
    ensures
        y == greater(x, x),
        y == x,
{
    max(x, x)
}

/// Measures the harness itself: the operation returns its argument.
pub fn overhead_test<A>(outer_iteration_count: i32, sum: A) -> (results: Vec<RunResult<Binary64>>) where
    A: Fn(Binary64, Binary64) -> Binary64,

    requires
        total2(sum),
    ensures
        measures(
            results@,
            outer_iteration_count,
            "OverheadTest"@,
            computes(|x: Binary64| x),
            outcomes2(sum),
            PI_BITS,
            MILLIONTH_BITS,
        ),
{
    let ghost sum_of = outcomes2(sum);
    let results = run_test(
        outer_iteration_count,
        "OverheadTest",
        identity,
        sum,
        Binary64::from_bits(PI_BITS),
        Binary64::from_bits(MILLIONTH_BITS),
    );
    proof {
        lemma_run_within(
            results@,
            outer_iteration_count,
            "OverheadTest"@,
            outcomes(identity),
            computes(|x: Binary64| x),
            sum_of,
            Binary64::encoded(PI_BITS),
            Binary64::encoded(MILLIONTH_BITS),
            INNER_ITERATION_COUNT as nat,
        );
    }
    results
}

/// Measures the test for NaN: the operation gives one for a NaN and zero for
/// every other value.
pub fn isnan_test<A>(outer_iteration_count: i32, sum: A) -> (results: Vec<RunResult<Binary64>>) where
    A: Fn(Binary64, Binary64) -> Binary64,

    requires
        total2(sum),
    ensures
        measures(
            results@,
            outer_iteration_count,
            "IsNaNTest"@,
            computes(|x: Binary64| Binary64::indicator(x.nan())),
            outcomes2(sum),
            PI_BITS,
            MILLIONTH_BITS,
        ),
{
    let ghost sum_of = outcomes2(sum);
    let results = run_test(
        outer_iteration_count,
        "IsNaNTest",
        is_nan_flag,
        sum,
        Binary64::from_bits(PI_BITS),
        Binary64::from_bits(MILLIONTH_BITS),
    );
    proof {
        lemma_run_within(
            results@,
            outer_iteration_count,
            "IsNaNTest"@,
            outcomes(is_nan_flag),
            computes(|x: Binary64| Binary64::indicator(x.nan())),
            sum_of,
            Binary64::encoded(PI_BITS),
            Binary64::encoded(MILLIONTH_BITS),
            INNER_ITERATION_COUNT as nat,
        );
    }
    results
}

/// Measures the test for infinity: the operation gives one for an infinity and
/// zero for every other value.
pub fn isinf_test<A>(outer_iteration_count: i32, sum: A) -> (results: Vec<RunResult<Binary64>>) where
    A: Fn(Binary64, Binary64) -> Binary64,

    requires
        total2(sum),
    ensures
        measures(
            results@,
            outer_iteration_count,
            "IsInfTest"@,
            computes(|x: Binary64| Binary64::indicator(x.infinite())),
            outcomes2(sum),
            PI_BITS,
            MILLIONTH_BITS,
        ),
{
    let ghost sum_of = outcomes2(sum);
    let results = run_test(
        outer_iteration_count,
        "IsInfTest",
        is_infinite_flag,
        sum,
        Binary64::from_bits(PI_BITS),
        Binary64::from_bits(MILLIONTH_BITS),
    );
    proof {
        lemma_run_within(
            results@,
            outer_iteration_count,
            "IsInfTest"@,
            outcomes(is_infinite_flag),
            computes(|x: Binary64| Binary64::indicator(x.infinite())),
            sum_of,
            Binary64::encoded(PI_BITS),
            Binary64::encoded(MILLIONTH_BITS),
            INNER_ITERATION_COUNT as nat,
        );
    }
    results
}

/// Measures the absolute value.
pub fn abs_test<A>(outer_iteration_count: i32, sum: A) -> (results: Vec<RunResult<Binary64>>) where
    A: Fn(Binary64, Binary64) -> Binary64,

    requires
        total2(sum),
    ensures
        measures(
            results@,
            outer_iteration_count,
            "AbsTest"@,
            computes(|x: Binary64| Binary64::encoded(x.magnitude_bits())),
            outcomes2(sum),
            PI_BITS,
            MILLIONTH_BITS,
        ),
{
    let ghost sum_of = outcomes2(sum);
    let results = run_test(
        outer_iteration_count,
        "AbsTest",
        Binary64::abs,
        sum,
        Binary64::from_bits(PI_BITS),
        Binary64::from_bits(MILLIONTH_BITS),
    );
    proof {
        lemma_run_within(
            results@,
            outer_iteration_count,
            "AbsTest"@,
            outcomes(Binary64::abs),
            computes(|x: Binary64| Binary64::encoded(x.magnitude_bits())),
            sum_of,
            Binary64::encoded(PI_BITS),
            Binary64::encoded(MILLIONTH_BITS),
            INNER_ITERATION_COUNT as nat,
        );
    }
    results
}

/// Measures the test of the sign bit: the operation gives one where it is set
/// and zero where it is clear.
pub fn signbit_test<A>(outer_iteration_count: i32, sum: A) -> (results: Vec<RunResult<Binary64>>) where
    A: Fn(Binary64, Binary64) -> Binary64,

    requires
        total2(sum),
    ensures
        measures(
            results@,
            outer_iteration_count,
            "SignBitTest"@,
            computes(|x: Binary64| Binary64::indicator(x.negative())),
            outcomes2(sum),
            PI_BITS,
            MILLIONTH_BITS,
        ),
{
    let ghost sum_of = outcomes2(sum);
    let results = run_test(
        outer_iteration_count,
        "SignBitTest",
        sign_bit_flag,
        sum,
        Binary64::from_bits(PI_BITS),
        Binary64::from_bits(MILLIONTH_BITS),
    );
    proof {
        lemma_run_within(
            results@,
            outer_iteration_count,
            "SignBitTest"@,
            outcomes(sign_bit_flag),
            computes(|x: Binary64| Binary64::indicator(x.negative())),
            sum_of,
            Binary64::encoded(PI_BITS),
            Binary64::encoded(MILLIONTH_BITS),
            INNER_ITERATION_COUNT as nat,
        );
    }
    results
}

/// Measures `min`, applied to the argument and itself.
pub fn min_test<A>(outer_iteration_count: i32, sum: A) -> (results: Vec<RunResult<Binary64>>) where
    A: Fn(Binary64, Binary64) -> Binary64,

    requires
        total2(sum),
    ensures
        measures(
            results@,
            outer_iteration_count,
            "MinTest"@,
            computes(|x: Binary64| lesser(x, x)),
            outcomes2(sum),
            PI_BITS,
            MILLIONTH_BITS,
        ),
{
    let ghost sum_of = outcomes2(sum);
    let results = run_test(
        outer_iteration_count,
        "MinTest",
        min_of_itself,
        sum,
        Binary64::from_bits(PI_BITS),
        Binary64::from_bits(MILLIONTH_BITS),
    );
    proof {
        lemma_run_within(
            results@,
            outer_iteration_count,
            "MinTest"@,
            outcomes(min_of_itself),
            computes(|x: Binary64| lesser(x, x)),
            sum_of,
            Binary64::encoded(PI_BITS),
            Binary64::encoded(MILLIONTH_BITS),
            INNER_ITERATION_COUNT as nat,
        );
    }
    results
}

/// Measures `max`, applied to the argument and itself.
pub fn max_test<A>(outer_iteration_count: i32, sum: A) -> (results: Vec<RunResult<Binary64>>) where
    A: Fn(Binary64, Binary64) -> Binary64,

    requires
        total2(sum),
    ensures
        measures(
            results@,
            outer_iteration_count,
            "MaxTest"@,
            computes(|x: Binary64| greater(x, x)),
            outcomes2(sum),
            PI_BITS,
            MILLIONTH_BITS,
        ),
{
    let ghost sum_of = outcomes2(sum);
    let results = run_test(
        outer_iteration_count,
        "MaxTest",
        max_of_itself,
        sum,
        Binary64::from_bits(PI_BITS),
        Binary64::from_bits(MILLIONTH_BITS),
    );
    proof {
        lemma_run_within(
            results@,
            outer_iteration_count,
            "MaxTest"@,
            outcomes(max_of_itself),
            computes(|x: Binary64| greater(x, x)),
            sum_of,
            Binary64::encoded(PI_BITS),
            Binary64::encoded(MILLIONTH_BITS),
            INNER_ITERATION_COUNT as nat,
        );
    }
    results
}

/// Measures `floor`, the rounding towards negative infinity.
pub fn floor_test<A>(outer_iteration_count: i32, sum: A) -> (results: Vec<RunResult<Binary64>>) where
    A: Fn(Binary64, Binary64) -> Binary64,

    requires
        total2(sum),
    ensures
        measures(
            results@,
            outer_iteration_count,
            "FloorTest"@,
            floors(),
            outcomes2(sum),
            PI_BITS,
            MILLIONTH_BITS,
        ),
{
    let ghost sum_of = outcomes2(sum);
    let results = run_test(
        outer_iteration_count,
        "FloorTest",
        Binary64::floor,
        sum,
        Binary64::from_bits(PI_BITS),
        Binary64::from_bits(MILLIONTH_BITS),
    );
    proof {
        lemma_run_within(
            results@,
            outer_iteration_count,
            "FloorTest"@,
            outcomes(Binary64::floor),
            floors(),
            sum_of,
            Binary64::encoded(PI_BITS),
            Binary64::encoded(MILLIONTH_BITS),
            INNER_ITERATION_COUNT as nat,
        );
    }
    results
}

/// Measures `ceil`, the rounding towards positive infinity.
pub fn ceil_test<A>(outer_iteration_count: i32, sum: A) -> (results: Vec<RunResult<Binary64>>) where
    A: Fn(Binary64, Binary64) -> Binary64,

    requires
        total2(sum),
    ensures
        measures(
            results@,
            outer_iteration_count,
            "CeilTest"@,
            ceils(),
            outcomes2(sum),
            PI_BITS,
            MILLIONTH_BITS,
        ),
{
    let ghost sum_of = outcomes2(sum);
    let results = run_test(
        outer_iteration_count,
        "CeilTest",
        Binary64::ceil,
        sum,
        Binary64::from_bits(PI_BITS),
        Binary64::from_bits(MILLIONTH_BITS),
    );
    proof {
        lemma_run_within(
            results@,
            outer_iteration_count,
            "CeilTest"@,
            outcomes(Binary64::ceil),
            ceils(),
            sum_of,
            Binary64::encoded(PI_BITS),
            Binary64::encoded(MILLIONTH_BITS),
            INNER_ITERATION_COUNT as nat,
        );
    }
    results
}

/// Measures `trunc`, the rounding towards zero.
pub fn trunc_test<A>(outer_iteration_count: i32, sum: A) -> (results: Vec<RunResult<Binary64>>) where
    A: Fn(Binary64, Binary64) -> Binary64,

    requires
        total2(sum),
    ensures
        measures(
            results@,
            outer_iteration_count,
            "TruncTest"@,
            truncates(),
            outcomes2(sum),
            PI_BITS,
            MILLIONTH_BITS,
        ),
{
    let ghost sum_of = outcomes2(sum);
    let results = run_test(
        outer_iteration_count,
        "TruncTest",
        Binary64::trunc,
        sum,
        Binary64::from_bits(PI_BITS),
        Binary64::from_bits(MILLIONTH_BITS),
    );
    proof {
        lemma_run_within(
            results@,
            outer_iteration_count,
            "TruncTest"@,
            outcomes(Binary64::trunc),
            truncates(),
            sum_of,
            Binary64::encoded(PI_BITS),
            Binary64::encoded(MILLIONTH_BITS),
            INNER_ITERATION_COUNT as nat,
        );
    }
    results
}

/// Measures `round`, the rounding to the nearest whole number, with a value
/// halfway between two of them rounded away from zero.
pub fn round_test<A>(outer_iteration_count: i32, sum: A) -> (results: Vec<RunResult<Binary64>>) where
    A: Fn(Binary64, Binary64) -> Binary64,

    requires
        total2(sum),
    ensures
        measures(
            results@,
            outer_iteration_count,
            "RoundTest"@,
            rounds_to_nearest(),
            outcomes2(sum),
            PI_BITS,
            MILLIONTH_BITS,
        ),
{
    let ghost sum_of = outcomes2(sum);
    let results = run_test(
        outer_iteration_count,
        "RoundTest",
        Binary64::round,
        sum,
        Binary64::from_bits(PI_BITS),
        Binary64::from_bits(MILLIONTH_BITS),
    );
    proof {
        lemma_run_within(
            results@,
            outer_iteration_count,
            "RoundTest"@,
            outcomes(Binary64::round),
            rounds_to_nearest(),
            sum_of,
            Binary64::encoded(PI_BITS),
            Binary64::encoded(MILLIONTH_BITS),
            INNER_ITERATION_COUNT as nat,
        );
    }
    results
}

/// Measures the copying of a sign: the operation gives its argument the sign of
/// minus one.
pub fn copysign_test<A>(outer_iteration_count: i32, sum: A) -> (results: Vec<RunResult<Binary64>>) where
    A: Fn(Binary64, Binary64) -> Binary64,

    requires
        total2(sum),
    ensures
        measures(
            results@,
            outer_iteration_count,
            "CopySignTest"@,
            computes(|x: Binary64| x.with_sign_of(Binary64::encoded(MINUS_ONE_BITS))),
            outcomes2(sum),
            PI_BITS,
            MILLIONTH_BITS,
        ),
{
    let ghost sum_of = outcomes2(sum);
    let results = run_test(
        outer_iteration_count,
        "CopySignTest",
        negated_magnitude,
        sum,
        Binary64::from_bits(PI_BITS),
        Binary64::from_bits(MILLIONTH_BITS),
    );
    proof {
        lemma_run_within(
            results@,
            outer_iteration_count,
            "CopySignTest"@,
            outcomes(negated_magnitude),
            computes(|x: Binary64| x.with_sign_of(Binary64::encoded(MINUS_ONE_BITS))),
            sum_of,
            Binary64::encoded(PI_BITS),
            Binary64::encoded(MILLIONTH_BITS),
            INNER_ITERATION_COUNT as nat,
        );
    }
    results
}

/// Measures `sin`.
pub fn sin_test<A, F>(outer_iteration_count: i32, sum: A, sin: F) -> (results: Vec<
    RunResult<Binary64>,
>) where A: Fn(Binary64, Binary64) -> Binary64, F: Fn(Binary64) -> Binary64
    requires
        total2(sum),
        total(sin),
    ensures
        measures(
            results@,
            outer_iteration_count,
            "SinTest"@,
            outcomes(sin),
            outcomes2(sum),
            PI_OVER_100_BITS,
            MILLIONTH_BITS,
        ),
{
    run_test(
        outer_iteration_count,
        "SinTest",
        sin,
        sum,
        Binary64::from_bits(PI_OVER_100_BITS),
        Binary64::from_bits(MILLIONTH_BITS),
    )
}

/// Measures `asin`. The argument stays within the domain: it ends near one.
pub fn asin_test<A, F>(outer_iteration_count: i32, sum: A, asin: F) -> (results: Vec<
    RunResult<Binary64>,
>) where A: Fn(Binary64, Binary64) -> Binary64, F: Fn(Binary64) -> Binary64
    requires
        total2(sum),
        total(asin),
    ensures
        measures(
            results@,
            outer_iteration_count,
            "ASinTest"@,
            outcomes(asin),
            outcomes2(sum),
            NINE_TENTHS_OF_A_BILLIONTH_BITS,
            BILLIONTH_BITS,
        ),
{
    run_test(
        outer_iteration_count,
        "ASinTest",
        asin,
        sum,
        Binary64::from_bits(NINE_TENTHS_OF_A_BILLIONTH_BITS),
        Binary64::from_bits(BILLIONTH_BITS),
    )
}

/// Measures `cos`.
pub fn cos_test<A, F>(outer_iteration_count: i32, sum: A, cos: F) -> (results: Vec<
    RunResult<Binary64>,
>) where A: Fn(Binary64, Binary64) -> Binary64, F: Fn(Binary64) -> Binary64
    requires
        total2(sum),
        total(cos),
    ensures
        measures(
            results@,
            outer_iteration_count,
            "CosTest"@,
            outcomes(cos),
            outcomes2(sum),
            PI_OVER_100_BITS,
            MILLIONTH_BITS,
        ),
{
    run_test(
        outer_iteration_count,
        "CosTest",
        cos,
        sum,
        Binary64::from_bits(PI_OVER_100_BITS),
        Binary64::from_bits(MILLIONTH_BITS),
    )
}

/// Measures `acos`. The argument stays within the domain: it ends near one.
pub fn acos_test<A, F>(outer_iteration_count: i32, sum: A, acos: F) -> (results: Vec<
    RunResult<Binary64>,
>) where A: Fn(Binary64, Binary64) -> Binary64, F: Fn(Binary64) -> Binary64
    requires
        total2(sum),
        total(acos),
    ensures
        measures(
            results@,
            outer_iteration_count,
            "ACosTest"@,
            outcomes(acos),
            outcomes2(sum),
            NINE_TENTHS_OF_A_BILLIONTH_BITS,
            BILLIONTH_BITS,
        ),
{
    run_test(
        outer_iteration_count,
        "ACosTest",
        acos,
        sum,
        Binary64::from_bits(NINE_TENTHS_OF_A_BILLIONTH_BITS),
        Binary64::from_bits(BILLIONTH_BITS),
    )
}

/// Measures `tan`.
pub fn tan_test<A, F>(outer_iteration_count: i32, sum: A, tan: F) -> (results: Vec<
    RunResult<Binary64>,
>) where A: Fn(Binary64, Binary64) -> Binary64, F: Fn(Binary64) -> Binary64
    requires
        total2(sum),
        total(tan),
    ensures
        measures(
            results@,
            outer_iteration_count,
            "TanTest"@,
            outcomes(tan),
            outcomes2(sum),
            PI_OVER_100_BITS,
            MILLIONTH_BITS,
        ),
{
    run_test(
        outer_iteration_count,
        "TanTest",
        tan,
        sum,
        Binary64::from_bits(PI_OVER_100_BITS),
        Binary64::from_bits(MILLIONTH_BITS),
    )
}

/// Measures `atan`.
pub fn atan_test<A, F>(outer_iteration_count: i32, sum: A, atan: F) -> (results: Vec<
    RunResult<Binary64>,
>) where A: Fn(Binary64, Binary64) -> Binary64, F: Fn(Binary64) -> Binary64
    requires
        total2(sum),
        total(atan),
    ensures
        measures(
            results@,
            outer_iteration_count,
            "ATanTest"@,
            outcomes(atan),
            outcomes2(sum),
            NINE_TENTHS_OF_A_BILLIONTH_BITS,
            BILLIONTH_BITS,
        ),
{
    run_test(
        outer_iteration_count,
        "ATanTest",
        atan,
        sum,
        Binary64::from_bits(NINE_TENTHS_OF_A_BILLIONTH_BITS),
        Binary64::from_bits(BILLIONTH_BITS),
    )
}

/// Measures `atan2`, applied to the argument and itself.
pub fn atan2_test<A, G>(outer_iteration_count: i32, sum: A, atan2: G) -> (results: Vec<
    RunResult<Binary64>,
>) where A: Fn(Binary64, Binary64) -> Binary64, G: Fn(Binary64, Binary64) -> Binary64
    requires
        total2(sum),
        total2(atan2),
    ensures
        measures(
            results@,
            outer_iteration_count,
            "ATan2Test"@,
            on_diagonal(outcomes2(atan2)),
            outcomes2(sum),
            NINE_TENTHS_OF_A_BILLIONTH_BITS,
            BILLIONTH_BITS,
        ),
{
    let ghost sum_of = outcomes2(sum);
    let operation = &atan2;
    let of_itself = |x: Binary64| -> (y: Binary64)
        ensures
            call_ensures(*operation, (x, x), y),
        { operation(x, x) };
    let results = run_test(
        outer_iteration_count,
        "ATan2Test",
        of_itself,
        sum,
        Binary64::from_bits(NINE_TENTHS_OF_A_BILLIONTH_BITS),
        Binary64::from_bits(BILLIONTH_BITS),
    );
    proof {
        lemma_run_within(
            results@,
            outer_iteration_count,
            "ATan2Test"@,
            outcomes(of_itself),
            on_diagonal(outcomes2(atan2)),
            sum_of,
            Binary64::encoded(NINE_TENTHS_OF_A_BILLIONTH_BITS),
            Binary64::encoded(BILLIONTH_BITS),
            INNER_ITERATION_COUNT as nat,
        );
    }
    results
}

/// Measures `sqrt`.
pub fn sqrt_test<A, F>(outer_iteration_count: i32, sum: A, sqrt: F) -> (results: Vec<
    RunResult<Binary64>,
>) where A: Fn(Binary64, Binary64) -> Binary64, F: Fn(Binary64) -> Binary64
    requires
        total2(sum),
        total(sqrt),
    ensures
        measures(
            results@,
            outer_iteration_count,
            "SqrtTest"@,
            outcomes(sqrt),
            outcomes2(sum),
            PI_BITS,
            MILLIONTH_BITS,
        ),
{
    run_test(
        outer_iteration_count,
        "SqrtTest",
        sqrt,
        sum,
        Binary64::from_bits(PI_BITS),
        Binary64::from_bits(MILLIONTH_BITS),
    )
}

/// Measures `exp`.
pub fn exp_test<A, F>(outer_iteration_count: i32, sum: A, exp: F) -> (results: Vec<
    RunResult<Binary64>,
>) where A: Fn(Binary64, Binary64) -> Binary64, F: Fn(Binary64) -> Binary64
    requires
        total2(sum),
        total(exp),
    ensures
        measures(
            results@,
            outer_iteration_count,
            "ExpTest"@,
            outcomes(exp),
            outcomes2(sum),
            NINE_TENTHS_BITS,
            BILLIONTH_BITS,
        ),
{
    run_test(
        outer_iteration_count,
        "ExpTest",
        exp,
        sum,
        Binary64::from_bits(NINE_TENTHS_BITS),
        Binary64::from_bits(BILLIONTH_BITS),
    )
}

/// Measures `hypot`, applied to the argument and itself.
pub fn hypot_test<A, G>(outer_iteration_count: i32, sum: A, hypot: G) -> (results: Vec<
    RunResult<Binary64>,
>) where A: Fn(Binary64, Binary64) -> Binary64, G: Fn(Binary64, Binary64) -> Binary64
    requires
        total2(sum),
        total2(hypot),
    ensures
        measures(
            results@,
            outer_iteration_count,
            "HypotTest"@,
            on_diagonal(outcomes2(hypot)),
            outcomes2(sum),
            JUST_BELOW_ONE_BITS,
            BILLIONTH_BITS,
        ),
{
    let ghost sum_of = outcomes2(sum);
    let operation = &hypot;
    let of_itself = |x: Binary64| -> (y: Binary64)
        ensures
            call_ensures(*operation, (x, x), y),
        { operation(x, x) };
    let results = run_test(
        outer_iteration_count,
        "HypotTest",
        of_itself,
        sum,
        Binary64::from_bits(JUST_BELOW_ONE_BITS),
        Binary64::from_bits(BILLIONTH_BITS),
    );
    proof {
        lemma_run_within(
            results@,
            outer_iteration_count,
            "HypotTest"@,
            outcomes(of_itself),
            on_diagonal(outcomes2(hypot)),
            sum_of,
            Binary64::encoded(JUST_BELOW_ONE_BITS),
            Binary64::encoded(BILLIONTH_BITS),
            INNER_ITERATION_COUNT as nat,
        );
    }
    results
}

/// Measures the natural logarithm.
pub fn log_test<A, F>(outer_iteration_count: i32, sum: A, ln: F) -> (results: Vec<
    RunResult<Binary64>,
>) where A: Fn(Binary64, Binary64) -> Binary64, F: Fn(Binary64) -> Binary64
    requires
        total2(sum),
        total(ln),
    ensures
        measures(
            results@,
            outer_iteration_count,
            "LogTest"@,
            outcomes(ln),
            outcomes2(sum),
            NINE_TENTHS_BITS,
            BILLIONTH_BITS,
        ),
{
    run_test(
        outer_iteration_count,
        "LogTest",
        ln,
        sum,
        Binary64::from_bits(NINE_TENTHS_BITS),
        Binary64::from_bits(BILLIONTH_BITS),
    )
}

/// Measures the logarithm to base two.
pub fn log2_test<A, F>(outer_iteration_count: i32, sum: A, log2: F) -> (results: Vec<
    RunResult<Binary64>,
>) where A: Fn(Binary64, Binary64) -> Binary64, F: Fn(Binary64) -> Binary64
    requires
        total2(sum),
        total(log2),
    ensures
        measures(
            results@,
            outer_iteration_count,
            "Log2Test"@,
            outcomes(log2),
            outcomes2(sum),
            NINE_TENTHS_BITS,
            BILLIONTH_BITS,
        ),
{
    run_test(
        outer_iteration_count,
        "Log2Test",
        log2,
        sum,
        Binary64::from_bits(NINE_TENTHS_BITS),
        Binary64::from_bits(BILLIONTH_BITS),
    )
}

/// Measures the logarithm to base ten.
pub fn log10_test<A, F>(outer_iteration_count: i32, sum: A, log10: F) -> (results: Vec<
    RunResult<Binary64>,
>) where A: Fn(Binary64, Binary64) -> Binary64, F: Fn(Binary64) -> Binary64
    requires
        total2(sum),
        total(log10),
    ensures
        measures(
            results@,
            outer_iteration_count,
            "Log10Test"@,
            outcomes(log10),
            outcomes2(sum),
            NINE_TENTHS_BITS,
            BILLIONTH_BITS,
        ),
{
    run_test(
        outer_iteration_count,
        "Log10Test",
        log10,
        sum,
        Binary64::from_bits(NINE_TENTHS_BITS),
        Binary64::from_bits(BILLIONTH_BITS),
    )
}

} // verus!
