//! The timing harness.
//!
//! A run repeats a measurement a number of times. One measurement sets the
//! sum to zero and the argument to its starting value, reads the clock,
//! applies an operation a fixed number of times to the argument, which
//! advances by a fixed increment, sums what the operation returns, and reads
//! the clock again. The set-up is not part of what is timed.
//!
//! The arithmetic is the caller's: the addition, and every operation that the
//! library does not compute on the bit pattern, come in as functions on
//! [`Binary64`]. Contracts therefore speak of relations between arguments and
//! results: what a caller's function may return for an argument is what its
//! own postcondition admits.

use vstd::prelude::*;
use crate::binary64::Binary64;
use crate::clock::{elapsed_between, now, span_between};

verus! {

/// Inner iterations of one measurement.
pub const INNER_ITERATION_COUNT: u64 = 1_000_000_000;

/// Which results an operation of one argument may give: `relation(x, y)`
/// holds when `y` may come back for `x`.
pub type Unary = spec_fn(Binary64, Binary64) -> bool;

/// Which results an operation of two arguments may give.
pub type Binary = spec_fn(Binary64, Binary64, Binary64) -> bool;

/// The state of the inner loop: the running sum and the next argument.
#[derive(Clone, Copy, Debug)]
pub struct Sample {
    pub accumulated: Binary64,
    pub argument: Binary64,
}

/// What one measurement reports: the name of the case, the time between the
/// two readings of the clock, and what was accumulated between them.
#[derive(Debug)]
pub struct RunResult<T> {
    pub name: String,
    pub elapsed: chrono::TimeDelta,
    pub accumulated: T,
}

/// The results that `func` may return, as a relation.
pub open spec fn outcomes<F: Fn(Binary64) -> Binary64>(func: F) -> Unary {
    |x: Binary64, y: Binary64| call_ensures(func, (x,), y)
}

/// The results that `sum` may return, as a relation.
pub open spec fn outcomes2<A: Fn(Binary64, Binary64) -> Binary64>(sum: A) -> Binary {
    |x: Binary64, y: Binary64, z: Binary64| call_ensures(sum, (x, y), z)
}

/// `func` may be called on every value.
pub open spec fn total<F: Fn(Binary64) -> Binary64>(func: F) -> bool {
    forall|x: Binary64| call_requires(func, (x,))
}

/// `sum` may be called on every pair of values.
pub open spec fn total2<A: Fn(Binary64, Binary64) -> Binary64>(sum: A) -> bool {
    forall|x: Binary64, y: Binary64| call_requires(sum, (x, y))
}

/// One inner iteration: `value` is what the operation gave for the argument,
/// the sum grows by it, and the argument advances by the increment.
pub open spec fn advances(
    value_of: Unary,
    sum_of: Binary,
    increment: Binary64,
    before: Sample,
    value: Binary64,
    after: Sample,
) -> bool {
    &&& value_of(before.argument, value)
    &&& sum_of(before.accumulated, value, after.accumulated)
    &&& sum_of(before.argument, increment, after.argument)
}

/// `sample` is a state that `count` inner iterations can reach from a sum of
/// zero and the argument `base`.
pub open spec fn accumulates(
    value_of: Unary,
    sum_of: Binary,
    base: Binary64,
    increment: Binary64,
    count: nat,
    sample: Sample,
) -> bool
    decreases count,
{
    if count == 0 {
        sample.accumulated == Binary64::encoded(0) && sample.argument == base
    } else {
        exists|before: Sample, value: Binary64|
            accumulates(value_of, sum_of, base, increment, (count - 1) as nat, before)
                && #[trigger] advances(value_of, sum_of, increment, before, value, sample)
    }
}

/// Runs the inner loop from a state that was set up before: `count` times,
/// adds what `func` gives for the argument to the sum and advances the
/// argument by `increment`.
fn accumulate_from<F, A>(
    func: &F,
    sum: &A,
    start: Sample,
    increment: Binary64,
    count: u64,
) -> (sample: Sample) where F: Fn(Binary64) -> Binary64, A: Fn(Binary64, Binary64) -> Binary64
    requires
        total(*func),
        total2(*sum),
        start.accumulated == Binary64::encoded(0),
    ensures
        accumulates(
            outcomes(*func),
            outcomes2(*sum),
            start.argument,
            increment,
            count as nat,
            sample,
        ),
{
    let mut sample = start;
    let mut done: u64 = 0;
    while done < count
        invariant
            done <= count,
            total(*func),
            total2(*sum),
            accumulates(
                outcomes(*func),
                outcomes2(*sum),
                start.argument,
                increment,
                done as nat,
                sample,
            ),
        decreases count - done,
    {
        let value = func(sample.argument);
        let next = Sample {
            accumulated: sum(sample.accumulated, value),
            argument: sum(sample.argument, increment),
        };
        assert(advances(outcomes(*func), outcomes2(*sum), increment, sample, value, next));
        sample = next;
        done = done + 1;
    }
    sample
}

/// Sets the sum to zero and the argument to `base`, then runs the inner loop:
/// `count` times, adds what `func` gives for the argument to the sum and
/// advances the argument by `increment`.
pub fn accumulate<F, A>(
    func: &F,
    sum: &A,
    base: Binary64,
    increment: Binary64,
    count: u64,
) -> (sample: Sample) where F: Fn(Binary64) -> Binary64, A: Fn(Binary64, Binary64) -> Binary64
    requires
        total(*func),
        total2(*sum),
    ensures
        accumulates(outcomes(*func), outcomes2(*sum), base, increment, count as nat, sample),
{
    let start = Sample { accumulated: Binary64::from_bits(0), argument: base };
    accumulate_from(func, sum, start, increment, count)
}

/// How many measurements a run with this repeat count makes.
pub open spec fn repetitions(outer_iteration_count: i32) -> nat {
    if outer_iteration_count > 0 {
        outer_iteration_count as nat
    } else {
        0
    }
}

/// `elapsed` is the duration from one instant to another.
pub open spec fn is_span(elapsed: chrono::TimeDelta) -> bool {
    exists|start: chrono::NaiveDateTime, end: chrono::NaiveDateTime|
        elapsed == #[trigger] span_between(start, end)
}

/// The result of one measurement: the name of the case, the duration from the
/// reading of the clock before the measurement to the reading after it, and
/// what the measurement accumulated.
pub fn report<T>(
    test_name: &str,
    start: chrono::NaiveDateTime,
    accumulated: T,
    end: chrono::NaiveDateTime,
) -> (result: RunResult<T>)
    ensures
        result.name@ == test_name@,
        result.elapsed == span_between(start, end),
        result.accumulated == accumulated,
{
    RunResult { name: test_name.to_owned(), elapsed: elapsed_between(start, end), accumulated }
}

/// `results` is what a run reports: one result for each repetition, each under
/// the run's name, with the duration from one instant to another and with an
/// accumulated value that `admitted` holds of.
pub open spec fn reports<T>(
    results: Seq<RunResult<T>>,
    outer_iteration_count: i32,
    name: Seq<char>,
    admitted: spec_fn(T) -> bool,
) -> bool {
    &&& results.len() == repetitions(outer_iteration_count)
    &&& forall|k: int|
        0 <= k < results.len() ==> (#[trigger] results[k]).name@ == name && is_span(
            results[k].elapsed,
        ) && admitted(results[k].accumulated)
}

/// What a measurement may return after a set-up: what `measure` may give for
/// a state that `prepare` may give.
pub open spec fn measured<S, T, P: Fn() -> S, M: Fn(S) -> T>(prepare: P, measure: M) -> spec_fn(
    T,
) -> bool {
    |accumulated: T|
        exists|state: S|
            call_ensures(prepare, (), state) && #[trigger] call_ensures(
                measure,
                (state,),
                accumulated,
            )
}

/// Repeats a measurement. Each repetition sets up the state with `prepare`,
/// reads the clock, runs `measure` on the state, reads the clock again and
/// reports, through `report`, the duration from the first reading to the
/// second with what `measure` returned. The set-up is over before the first
/// reading, and nothing but the call of `measure` stands between the two.
pub fn repeat_timed<S, T, P, M>(
    outer_iteration_count: i32,
    test_name: &str,
    prepare: P,
    measure: M,
) -> (results: Vec<RunResult<T>>) where P: Fn() -> S, M: Fn(S) -> T
    requires
        call_requires(prepare, ()),
        forall|state: S| call_ensures(prepare, (), state) ==> call_requires(measure, (state,)),
    ensures
        reports(results@, outer_iteration_count, test_name@, measured(prepare, measure)),
{
    let mut results: Vec<RunResult<T>> = Vec::new();
    let mut done: i32 = 0;
    while done < outer_iteration_count
        invariant
            call_requires(prepare, ()),
            forall|state: S| call_ensures(prepare, (), state) ==> call_requires(measure, (state,)),
            0 <= done <= repetitions(outer_iteration_count),
            results.len() == done,
            forall|k: int|
                0 <= k < results.len() ==> (#[trigger] results[k]).name@ == test_name@
                    && is_span(results[k].elapsed) && measured(prepare, measure)(
                    results[k].accumulated,
                ),
        decreases outer_iteration_count - done,
    {
        let state = prepare();
        let start_time = now();
        let accumulated = measure(state);
        let end_time = now();
        results.push(report(test_name, start_time, accumulated, end_time));
        done = done + 1;
    }
    results
}

/// The sums that `count` inner iterations can end on.
pub open spec fn accumulated_by(
    value_of: Unary,
    sum_of: Binary,
    base: Binary64,
    increment: Binary64,
    count: nat,
) -> spec_fn(Binary64) -> bool {
    |accumulated: Binary64|
        exists|sample: Sample|
            sample.accumulated == accumulated && #[trigger] accumulates(
                value_of,
                sum_of,
                base,
                increment,
                count,
                sample,
            )
}

/// A run of a case with a chosen number of inner iterations.
pub fn run_case<F, A>(
    outer_iteration_count: i32,
    test_name: &str,
    func: F,
    sum: A,
    base_value: Binary64,
    increment: Binary64,
    inner_iteration_count: u64,
) -> (results: Vec<RunResult<Binary64>>) where
    F: Fn(Binary64) -> Binary64,
    A: Fn(Binary64, Binary64) -> Binary64,

    requires
        total(func),
        total2(sum),
    ensures
        reports(
            results@,
            outer_iteration_count,
            test_name@,
            accumulated_by(
                outcomes(func),
                outcomes2(sum),
                base_value,
                increment,
                inner_iteration_count as nat,
            ),
        ),
{
    let func = &func;
    let sum = &sum;
    let prepare = || -> (state: Sample)
        ensures
            state.accumulated == Binary64::encoded(0),
            state.argument == base_value,
        { Sample { accumulated: Binary64::from_bits(0), argument: base_value } };
    let measure = |state: Sample| -> (accumulated: Binary64)
        requires
            state.accumulated == Binary64::encoded(0),
            state.argument == base_value,
        ensures
            accumulated_by(
                outcomes(*func),
                outcomes2(*sum),
                base_value,
                increment,
                inner_iteration_count as nat,
            )(accumulated),
        { accumulate_from(func, sum, state, increment, inner_iteration_count).accumulated };
    repeat_timed(outer_iteration_count, test_name, prepare, measure)
}

/// A run of a case as the harness times it: `INNER_ITERATION_COUNT` inner
/// iterations in each repetition.
pub fn run_test<F, A>(
    outer_iteration_count: i32,
    test_name: &str,
    func: F,
    sum: A,
    base_value: Binary64,
    increment: Binary64,
) -> (results: Vec<RunResult<Binary64>>) where
    F: Fn(Binary64) -> Binary64,
    A: Fn(Binary64, Binary64) -> Binary64,

    requires
        total(func),
        total2(sum),
    ensures
        reports(
            results@,
            outer_iteration_count,
            test_name@,
            accumulated_by(
                outcomes(func),
                outcomes2(sum),
                base_value,
                increment,
                INNER_ITERATION_COUNT as nat,
            ),
        ),
{
    run_case(
        outer_iteration_count,
        test_name,
        func,
        sum,
        base_value,
        increment,
        INNER_ITERATION_COUNT,
    )
}

} // verus!
