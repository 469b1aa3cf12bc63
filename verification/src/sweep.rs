//! The case that scales each argument by a range of powers of two.

use vstd::prelude::*;
use crate::binary64::Binary64;
use crate::constants::{HALF_PI_BITS, MILLIONTH_BITS};
use crate::harness::{
    outcomes2, repeat_timed, repetitions, reports, total2, Binary, RunResult, Sample,
};
use crate::laws::deterministic2;

verus! {

/// How many arguments one measurement scales.
pub const VALUE_ITERATION_COUNT: u64 = 10_000_000;

/// How many powers of two each argument is scaled by: the exponents run from
/// one to this number.
pub const EXPONENT_ITERATION_COUNT: i32 = 100;

/// Which results a scaling may give for a value and an exponent.
pub type Scaling = spec_fn(Binary64, i32, Binary64) -> bool;

/// The results that `scale` may return, as a relation.
pub open spec fn scaling_outcomes<S: Fn(Binary64, i32) -> Binary64>(scale: S) -> Scaling {
    |x: Binary64, exponent: i32, y: Binary64| call_ensures(scale, (x, exponent), y)
}

/// `scale` may be called on every value with every exponent.
pub open spec fn total_scaling<S: Fn(Binary64, i32) -> Binary64>(scale: S) -> bool {
    forall|x: Binary64, exponent: i32| call_requires(scale, (x, exponent))
}

/// One step of a sweep: the sum grows by `value` scaled by `exponent`.
pub open spec fn sweep_advances(
    scaled_by: Scaling,
    sum_of: Binary,
    value: Binary64,
    exponent: i32,
    before: Binary64,
    scaled: Binary64,
    after: Binary64,
) -> bool {
    scaled_by(value, exponent, scaled) && sum_of(before, scaled, after)
}

/// `after` is a sum that can be reached from `start` by adding `value` scaled
/// by the exponents from one to `exponents`, in this order.
pub open spec fn sweeps(
    scaled_by: Scaling,
    sum_of: Binary,
    value: Binary64,
    exponents: nat,
    start: Binary64,
    after: Binary64,
) -> bool
    decreases exponents,
{
    if exponents == 0 {
        after == start
    } else {
        exists|before: Binary64, scaled: Binary64|
            sweeps(scaled_by, sum_of, value, (exponents - 1) as nat, start, before)
                && #[trigger] sweep_advances(
                scaled_by,
                sum_of,
                value,
                exponents as i32,
                before,
                scaled,
                after,
            )
    }
}

/// One iteration over the arguments: a sweep of the argument, after which the
/// argument advances by the increment.
pub open spec fn sweep_accumulates_step(
    scaled_by: Scaling,
    sum_of: Binary,
    increment: Binary64,
    exponents: nat,
    before: Sample,
    after: Sample,
) -> bool {
    &&& sweeps(scaled_by, sum_of, before.argument, exponents, before.accumulated, after.accumulated)
    &&& sum_of(before.argument, increment, after.argument)
}

/// `sample` is a state that sweeps of `count` arguments can reach from a sum
/// of zero and the argument `base`.
pub open spec fn sweep_accumulates(
    scaled_by: Scaling,
    sum_of: Binary,
    base: Binary64,
    increment: Binary64,
    exponents: nat,
    count: nat,
    sample: Sample,
) -> bool
    decreases count,
{
    if count == 0 {
        sample.accumulated == Binary64::encoded(0) && sample.argument == base
    } else {
        exists|before: Sample|
            sweep_accumulates(
                scaled_by,
                sum_of,
                base,
                increment,
                exponents,
                (count - 1) as nat,
                before,
            ) && #[trigger] sweep_accumulates_step(
                scaled_by,
                sum_of,
                increment,
                exponents,
                before,
                sample,
            )
    }
}

/// The sums that sweeps of `count` arguments can end on.
pub open spec fn sweep_accumulated_by(
    scaled_by: Scaling,
    sum_of: Binary,
    base: Binary64,
    increment: Binary64,
    exponents: nat,
    count: nat,
) -> spec_fn(Binary64) -> bool {
    |accumulated: Binary64|
        exists|sample: Sample|
            sample.accumulated == accumulated && #[trigger] sweep_accumulates(
                scaled_by,
                sum_of,
                base,
                increment,
                exponents,
                count,
                sample,
            )
}

/// Sets the sum to zero and the argument to `base`, then runs the nested
/// loop: for each of `count` arguments, adds the argument scaled by each
/// exponent from one to `exponent_count` to the sum, then advances the
/// argument by `increment`. An `exponent_count` below one leaves the sum at
/// zero.
pub fn accumulate_sweeps<S, A>(
    scale: &S,
    sum: &A,
    base: Binary64,
    increment: Binary64,
    exponent_count: i32,
    count: u64,
) -> (sample: Sample) where S: Fn(Binary64, i32) -> Binary64, A: Fn(Binary64, Binary64) -> Binary64
    requires
        total_scaling(*scale),
        total2(*sum),
    ensures
        sweep_accumulates(
            scaling_outcomes(*scale),
            outcomes2(*sum),
            base,
            increment,
            repetitions(exponent_count),
            count as nat,
            sample,
        ),
{
    let start = Sample { accumulated: Binary64::from_bits(0), argument: base };
    accumulate_sweeps_from(scale, sum, start, increment, exponent_count, count)
}

/// Runs the nested loop from a state that was set up before.
fn accumulate_sweeps_from<S, A>(
    scale: &S,
    sum: &A,
    start: Sample,
    increment: Binary64,
    exponent_count: i32,
    count: u64,
) -> (sample: Sample) where S: Fn(Binary64, i32) -> Binary64, A: Fn(Binary64, Binary64) -> Binary64
    requires
        total_scaling(*scale),
        total2(*sum),
        start.accumulated == Binary64::encoded(0),
    ensures
        sweep_accumulates(
            scaling_outcomes(*scale),
            outcomes2(*sum),
            start.argument,
            increment,
            repetitions(exponent_count),
            count as nat,
            sample,
        ),
{
    let mut sample = start;
    let mut done: u64 = 0;
    while done < count
        invariant
            done <= count,
            total_scaling(*scale),
            total2(*sum),
            sweep_accumulates(
                scaling_outcomes(*scale),
                outcomes2(*sum),
                start.argument,
                increment,
                repetitions(exponent_count),
                done as nat,
                sample,
            ),
        decreases count - done,
    {
        let mut accumulated = sample.accumulated;
        let mut exponent: i32 = 0;
        while exponent < exponent_count
            invariant
                0 <= exponent <= repetitions(exponent_count),
                total_scaling(*scale),
                total2(*sum),
                sweeps(
                    scaling_outcomes(*scale),
                    outcomes2(*sum),
                    sample.argument,
                    exponent as nat,
                    sample.accumulated,
                    accumulated,
                ),
            decreases exponent_count - exponent,
        {
            let scaled = scale(sample.argument, exponent + 1);
            let grown = sum(accumulated, scaled);
            assert(sweep_advances(
                scaling_outcomes(*scale),
                outcomes2(*sum),
                sample.argument,
                (exponent + 1) as i32,
                accumulated,
                scaled,
                grown,
            ));
            accumulated = grown;
            exponent = exponent + 1;
        }
        let next = Sample { accumulated, argument: sum(sample.argument, increment) };
        assert(sweep_accumulates_step(
            scaling_outcomes(*scale),
            outcomes2(*sum),
            increment,
            repetitions(exponent_count),
            sample,
            next,
        ));
        sample = next;
        done = done + 1;
    }
    sample
}

/// Measures `scalbn`, the scaling of a value by a power of two. Each of
/// `VALUE_ITERATION_COUNT` arguments, from half of pi on, is scaled by two to
/// the powers one to `EXPONENT_ITERATION_COUNT`.
pub fn scalebn_test<A, S>(outer_iteration_count: i32, sum: A, scalbn: S) -> (results: Vec<
    RunResult<Binary64>,
>) where A: Fn(Binary64, Binary64) -> Binary64, S: Fn(Binary64, i32) -> Binary64
    requires
        total2(sum),
        total_scaling(scalbn),
    ensures
        reports(
            results@,
            outer_iteration_count,
            "ScaleBNTest"@,
            sweep_accumulated_by(
                scaling_outcomes(scalbn),
                outcomes2(sum),
                Binary64::encoded(HALF_PI_BITS),
                Binary64::encoded(MILLIONTH_BITS),
                EXPONENT_ITERATION_COUNT as nat,
                VALUE_ITERATION_COUNT as nat,
            ),
        ),
{
    let base = Binary64::from_bits(HALF_PI_BITS);
    let increment = Binary64::from_bits(MILLIONTH_BITS);
    let scalbn = &scalbn;
    let sum = &sum;
    let prepare = || -> (state: Sample)
        ensures
            state.accumulated == Binary64::encoded(0),
            state.argument == base,
        { Sample { accumulated: Binary64::from_bits(0), argument: base } };
    let measure = |state: Sample| -> (accumulated: Binary64)
        requires
            state.accumulated == Binary64::encoded(0),
            state.argument == base,
        ensures
            sweep_accumulated_by(
                scaling_outcomes(*scalbn),
                outcomes2(*sum),
                base,
                increment,
                EXPONENT_ITERATION_COUNT as nat,
                VALUE_ITERATION_COUNT as nat,
            )(accumulated),
        {
            accumulate_sweeps_from(
                scalbn,
                sum,
                state,
                increment,
                EXPONENT_ITERATION_COUNT,
                VALUE_ITERATION_COUNT,
            ).accumulated
        };
    repeat_timed(outer_iteration_count, "ScaleBNTest", prepare, measure)
}

/// The relation admits at most one result for each value and exponent.
pub open spec fn deterministic_scaling(scaled_by: Scaling) -> bool {
    forall|x: Binary64, exponent: i32, y: Binary64, z: Binary64|
        #[trigger] scaled_by(x, exponent, y) && #[trigger] scaled_by(x, exponent, z) ==> y == z
}

/// With a scaling and an addition that each give one result for given
/// arguments, a sweep has one outcome.
pub proof fn lemma_sweep_is_deterministic(
    scaled_by: Scaling,
    sum_of: Binary,
    value: Binary64,
    exponents: nat,
    start: Binary64,
    one: Binary64,
    other: Binary64,
)
    requires
        deterministic_scaling(scaled_by),
        deterministic2(sum_of),
        sweeps(scaled_by, sum_of, value, exponents, start, one),
        sweeps(scaled_by, sum_of, value, exponents, start, other),
    ensures
        one == other,
    decreases exponents,
{
    if exponents > 0 {
        let (before1, scaled1) = choose|before: Binary64, scaled: Binary64|
            sweeps(scaled_by, sum_of, value, (exponents - 1) as nat, start, before)
                && #[trigger] sweep_advances(
                scaled_by,
                sum_of,
                value,
                exponents as i32,
                before,
                scaled,
                one,
            );
        let (before2, scaled2) = choose|before: Binary64, scaled: Binary64|
            sweeps(scaled_by, sum_of, value, (exponents - 1) as nat, start, before)
                && #[trigger] sweep_advances(
                scaled_by,
                sum_of,
                value,
                exponents as i32,
                before,
                scaled,
                other,
            );
        lemma_sweep_is_deterministic(
            scaled_by,
            sum_of,
            value,
            (exponents - 1) as nat,
            start,
            before1,
            before2,
        );
    }
}

/// With a scaling and an addition that each give one result for given
/// arguments, the nested loop has one outcome.
pub proof fn lemma_sweep_accumulation_is_deterministic(
    scaled_by: Scaling,
    sum_of: Binary,
    base: Binary64,
    increment: Binary64,
    exponents: nat,
    count: nat,
    one: Sample,
    other: Sample,
)
    requires
        deterministic_scaling(scaled_by),
        deterministic2(sum_of),
        sweep_accumulates(scaled_by, sum_of, base, increment, exponents, count, one),
        sweep_accumulates(scaled_by, sum_of, base, increment, exponents, count, other),
    ensures
        one == other,
    decreases count,
{
    if count > 0 {
        let before1 = choose|before: Sample|
            sweep_accumulates(
                scaled_by,
                sum_of,
                base,
                increment,
                exponents,
                (count - 1) as nat,
                before,
            ) && #[trigger] sweep_accumulates_step(
                scaled_by,
                sum_of,
                increment,
                exponents,
                before,
                one,
            );
        let before2 = choose|before: Sample|
            sweep_accumulates(
                scaled_by,
                sum_of,
                base,
                increment,
                exponents,
                (count - 1) as nat,
                before,
            ) && #[trigger] sweep_accumulates_step(
                scaled_by,
                sum_of,
                increment,
                exponents,
                before,
                other,
            );
        lemma_sweep_accumulation_is_deterministic(
            scaled_by,
            sum_of,
            base,
            increment,
            exponents,
            (count - 1) as nat,
            before1,
            before2,
        );
        lemma_sweep_is_deterministic(
            scaled_by,
            sum_of,
            before1.argument,
            exponents,
            before1.accumulated,
            one.accumulated,
            other.accumulated,
        );
    }
}

/// Two runs of the same sweep, with a scaling and an addition that each give
/// one result for given arguments, report the same sum in every repetition.
pub proof fn lemma_sweep_runs_agree(
    first: Seq<RunResult<Binary64>>,
    second: Seq<RunResult<Binary64>>,
    outer_iteration_count: i32,
    name: Seq<char>,
    scaled_by: Scaling,
    sum_of: Binary,
    base: Binary64,
    increment: Binary64,
    exponents: nat,
    count: nat,
)
    requires
        deterministic_scaling(scaled_by),
        deterministic2(sum_of),
        reports(
            first,
            outer_iteration_count,
            name,
            sweep_accumulated_by(
                scaled_by,
                sum_of,
                base,
                increment,
                exponents,
                count,
            ),
        ),
        reports(
            second,
            outer_iteration_count,
            name,
            sweep_accumulated_by(
                scaled_by,
                sum_of,
                base,
                increment,
                exponents,
                count,
            ),
        ),
    ensures
        first.len() == second.len(),
        forall|j: int, k: int|
            0 <= j < first.len() && 0 <= k < second.len() ==> (#[trigger] first[j]).accumulated
                == (#[trigger] second[k]).accumulated,
{
    let admitted = sweep_accumulated_by(scaled_by, sum_of, base, increment, exponents, count);
    assert forall|j: int, k: int| 0 <= j < first.len() && 0 <= k < second.len() implies (
    #[trigger] first[j]).accumulated == (#[trigger] second[k]).accumulated by {
        assert(admitted(first[j].accumulated));
        assert(admitted(second[k].accumulated));
        let one = choose|sample: Sample|
            sample.accumulated == first[j].accumulated && #[trigger] sweep_accumulates(
                scaled_by,
                sum_of,
                base,
                increment,
                exponents,
                count,
                sample,
            );
        let other = choose|sample: Sample|
            sample.accumulated == second[k].accumulated && #[trigger] sweep_accumulates(
                scaled_by,
                sum_of,
                base,
                increment,
                exponents,
                count,
                sample,
            );
        lemma_sweep_accumulation_is_deterministic(scaled_by, sum_of, base, increment, exponents, count, one, other);
    }
}

} // verus!
