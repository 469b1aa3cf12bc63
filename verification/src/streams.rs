//! Cases whose operation takes two or three arguments, each advancing by the
//! same increment from a starting value of its own.

use vstd::prelude::*;
use crate::binary64::Binary64;
use crate::constants::{
    HALF_BITS, HALF_PI_BITS, MILLIONTH_BITS, PI_BITS, QUARTER_PI_BITS, TWO_PI_BITS,
};
use crate::harness::{
    outcomes2, repeat_timed, reports, total2, Binary, RunResult, INNER_ITERATION_COUNT,
};
use crate::laws::{deterministic2, within2};

verus! {

/// Which results an operation of three arguments may give.
pub type Ternary = spec_fn(Binary64, Binary64, Binary64, Binary64) -> bool;

/// The results that `operation` may return, as a relation.
pub open spec fn outcomes3<G: Fn(Binary64, Binary64, Binary64) -> Binary64>(
    operation: G,
) -> Ternary {
    |x: Binary64, y: Binary64, z: Binary64, w: Binary64| call_ensures(operation, (x, y, z), w)
}

/// `operation` may be called on every three values.
pub open spec fn total3<G: Fn(Binary64, Binary64, Binary64) -> Binary64>(operation: G) -> bool {
    forall|x: Binary64, y: Binary64, z: Binary64| call_requires(operation, (x, y, z))
}

/// The relation of an operation of three arguments with its third argument
/// held at `parameter`.
pub open spec fn at_parameter(result_of: Ternary, parameter: Binary64) -> Binary {
    |x: Binary64, y: Binary64, w: Binary64| result_of(x, y, parameter, w)
}

/// The state of an inner loop over two arguments.
#[derive(Clone, Copy, Debug)]
pub struct PairSample {
    pub accumulated: Binary64,
    pub first: Binary64,
    pub second: Binary64,
}

/// The state of an inner loop over three arguments.
#[derive(Clone, Copy, Debug)]
pub struct TripleSample {
    pub accumulated: Binary64,
    pub first: Binary64,
    pub second: Binary64,
    pub third: Binary64,
}

/// One inner iteration over two arguments: the sum grows by what the operation
/// gave for them, and each advances by the increment.
pub open spec fn pair_advances(
    result_of: Binary,
    sum_of: Binary,
    increment: Binary64,
    before: PairSample,
    value: Binary64,
    after: PairSample,
) -> bool {
    &&& result_of(before.first, before.second, value)
    &&& sum_of(before.accumulated, value, after.accumulated)
    &&& sum_of(before.first, increment, after.first)
    &&& sum_of(before.second, increment, after.second)
}

/// `sample` is a state that `count` inner iterations can reach from a sum of
/// zero and the arguments `first` and `second`.
pub open spec fn pair_accumulates(
    result_of: Binary,
    sum_of: Binary,
    first: Binary64,
    second: Binary64,
    increment: Binary64,
    count: nat,
    sample: PairSample,
) -> bool
    decreases count,
{
    if count == 0 {
        &&& sample.accumulated == Binary64::encoded(0)
        &&& sample.first == first
        &&& sample.second == second
    } else {
        exists|before: PairSample, value: Binary64|
            pair_accumulates(result_of, sum_of, first, second, increment, (count - 1) as nat, before)
                && #[trigger] pair_advances(result_of, sum_of, increment, before, value, sample)
    }
}

/// The sums that `count` inner iterations over two arguments can end on.
pub open spec fn pair_accumulated_by(
    result_of: Binary,
    sum_of: Binary,
    first: Binary64,
    second: Binary64,
    increment: Binary64,
    count: nat,
) -> spec_fn(Binary64) -> bool {
    |accumulated: Binary64|
        exists|sample: PairSample|
            sample.accumulated == accumulated && #[trigger] pair_accumulates(
                result_of,
                sum_of,
                first,
                second,
                increment,
                count,
                sample,
            )
}

/// Sets the sum to zero and the arguments to `first` and `second`, then runs
/// the inner loop over two arguments: `count` times, adds what `operation`
/// gives for the two to the sum and advances each by `increment`.
pub fn accumulate_pairs<G, A>(
    operation: &G,
    sum: &A,
    first: Binary64,
    second: Binary64,
    increment: Binary64,
    count: u64,
) -> (sample: PairSample) where
    G: Fn(Binary64, Binary64) -> Binary64,
    A: Fn(Binary64, Binary64) -> Binary64,

    requires
        total2(*operation),
        total2(*sum),
    ensures
        pair_accumulates(
            outcomes2(*operation),
            outcomes2(*sum),
            first,
            second,
            increment,
            count as nat,
            sample,
        ),
{
    let start = PairSample { accumulated: Binary64::from_bits(0), first, second };
    accumulate_pairs_from(operation, sum, start, increment, count)
}

/// Runs the inner loop over two arguments from a state that was set up
/// before.
fn accumulate_pairs_from<G, A>(
    operation: &G,
    sum: &A,
    start: PairSample,
    increment: Binary64,
    count: u64,
) -> (sample: PairSample) where
    G: Fn(Binary64, Binary64) -> Binary64,
    A: Fn(Binary64, Binary64) -> Binary64,

    requires
        total2(*operation),
        total2(*sum),
        start.accumulated == Binary64::encoded(0),
    ensures
        pair_accumulates(
            outcomes2(*operation),
            outcomes2(*sum),
            start.first,
            start.second,
            increment,
            count as nat,
            sample,
        ),
{
    let mut sample = start;
    let mut done: u64 = 0;
    while done < count
        invariant
            done <= count,
            total2(*operation),
            total2(*sum),
            pair_accumulates(
                outcomes2(*operation),
                outcomes2(*sum),
                start.first,
                start.second,
                increment,
                done as nat,
                sample,
            ),
        decreases count - done,
    {
        let value = operation(sample.first, sample.second);
        let next = PairSample {
            accumulated: sum(sample.accumulated, value),
            first: sum(sample.first, increment),
            second: sum(sample.second, increment),
        };
        assert(pair_advances(
            outcomes2(*operation),
            outcomes2(*sum),
            increment,
            sample,
            value,
            next,
        ));
        sample = next;
        done = done + 1;
    }
    sample
}

/// Sets the sum to zero and the arguments to `first` and `second`, then runs
/// the inner loop over two arguments for an operation of three, whose third
/// argument stays at `parameter`.
pub fn accumulate_pairs_at<G, A>(
    operation: &G,
    sum: &A,
    first: Binary64,
    second: Binary64,
    parameter: Binary64,
    increment: Binary64,
    count: u64,
) -> (sample: PairSample) where
    G: Fn(Binary64, Binary64, Binary64) -> Binary64,
    A: Fn(Binary64, Binary64) -> Binary64,

    requires
        total3(*operation),
        total2(*sum),
    ensures
        pair_accumulates(
            at_parameter(outcomes3(*operation), parameter),
            outcomes2(*sum),
            first,
            second,
            increment,
            count as nat,
            sample,
        ),
{
    let start = PairSample { accumulated: Binary64::from_bits(0), first, second };
    accumulate_pairs_at_from(operation, sum, start, parameter, increment, count)
}

/// Runs the inner loop over two arguments, for an operation of three with its
/// third argument held, from a state that was set up before.
fn accumulate_pairs_at_from<G, A>(
    operation: &G,
    sum: &A,
    start: PairSample,
    parameter: Binary64,
    increment: Binary64,
    count: u64,
) -> (sample: PairSample) where
    G: Fn(Binary64, Binary64, Binary64) -> Binary64,
    A: Fn(Binary64, Binary64) -> Binary64,

    requires
        total3(*operation),
        total2(*sum),
        start.accumulated == Binary64::encoded(0),
    ensures
        pair_accumulates(
            at_parameter(outcomes3(*operation), parameter),
            outcomes2(*sum),
            start.first,
            start.second,
            increment,
            count as nat,
            sample,
        ),
{
    let held = |x: Binary64, y: Binary64| -> (value: Binary64)
        ensures
            call_ensures(*operation, (x, y, parameter), value),
        { operation(x, y, parameter) };
    let sample = accumulate_pairs_from(&held, sum, start, increment, count);
    proof {
        lemma_pair_accumulates_within(
            outcomes2(held),
            at_parameter(outcomes3(*operation), parameter),
            outcomes2(*sum),
            start.first,
            start.second,
            increment,
            count as nat,
            sample,
        );
    }
    sample
}

/// One inner iteration over three arguments.
pub open spec fn triple_advances(
    result_of: Ternary,
    sum_of: Binary,
    increment: Binary64,
    before: TripleSample,
    value: Binary64,
    after: TripleSample,
) -> bool {
    &&& result_of(before.first, before.second, before.third, value)
    &&& sum_of(before.accumulated, value, after.accumulated)
    &&& sum_of(before.first, increment, after.first)
    &&& sum_of(before.second, increment, after.second)
    &&& sum_of(before.third, increment, after.third)
}

/// `sample` is a state that `count` inner iterations can reach from a sum of
/// zero and the arguments of `start`.
pub open spec fn triple_accumulates(
    result_of: Ternary,
    sum_of: Binary,
    start: TripleSample,
    increment: Binary64,
    count: nat,
    sample: TripleSample,
) -> bool
    decreases count,
{
    if count == 0 {
        &&& sample.accumulated == Binary64::encoded(0)
        &&& sample.first == start.first
        &&& sample.second == start.second
        &&& sample.third == start.third
    } else {
        exists|before: TripleSample, value: Binary64|
            triple_accumulates(result_of, sum_of, start, increment, (count - 1) as nat, before)
                && #[trigger] triple_advances(result_of, sum_of, increment, before, value, sample)
    }
}

/// The sums that `count` inner iterations over three arguments can end on.
pub open spec fn triple_accumulated_by(
    result_of: Ternary,
    sum_of: Binary,
    start: TripleSample,
    increment: Binary64,
    count: nat,
) -> spec_fn(Binary64) -> bool {
    |accumulated: Binary64|
        exists|sample: TripleSample|
            sample.accumulated == accumulated && #[trigger] triple_accumulates(
                result_of,
                sum_of,
                start,
                increment,
                count,
                sample,
            )
}

/// Sets the sum to zero and the arguments to those of `start`, then runs the
/// inner loop over three arguments: `count` times, adds what `operation`
/// gives for the three to the sum and advances each by `increment`. The sum
/// in `start` is not read: the loop starts from zero.
pub fn accumulate_triples<G, A>(
    operation: &G,
    sum: &A,
    start: TripleSample,
    increment: Binary64,
    count: u64,
) -> (sample: TripleSample) where
    G: Fn(Binary64, Binary64, Binary64) -> Binary64,
    A: Fn(Binary64, Binary64) -> Binary64,

    requires
        total3(*operation),
        total2(*sum),
    ensures
        triple_accumulates(
            outcomes3(*operation),
            outcomes2(*sum),
            start,
            increment,
            count as nat,
            sample,
        ),
{
    let zeroed = TripleSample {
        accumulated: Binary64::from_bits(0),
        first: start.first,
        second: start.second,
        third: start.third,
    };
    let sample = accumulate_triples_from(operation, sum, zeroed, increment, count);
    proof {
        lemma_triple_start_sum_is_not_read(
            outcomes3(*operation),
            outcomes2(*sum),
            zeroed,
            start,
            increment,
            count as nat,
            sample,
        );
    }
    sample
}

/// What the loop over three arguments can reach does not depend on the sum in
/// the starting state.
proof fn lemma_triple_start_sum_is_not_read(
    result_of: Ternary,
    sum_of: Binary,
    one: TripleSample,
    other: TripleSample,
    increment: Binary64,
    count: nat,
    sample: TripleSample,
)
    requires
        one.first == other.first,
        one.second == other.second,
        one.third == other.third,
        triple_accumulates(result_of, sum_of, one, increment, count, sample),
    ensures
        triple_accumulates(result_of, sum_of, other, increment, count, sample),
    decreases count,
{
    if count > 0 {
        let (before, value) = choose|before: TripleSample, value: Binary64|
            triple_accumulates(result_of, sum_of, one, increment, (count - 1) as nat, before)
                && #[trigger] triple_advances(result_of, sum_of, increment, before, value, sample);
        lemma_triple_start_sum_is_not_read(
            result_of,
            sum_of,
            one,
            other,
            increment,
            (count - 1) as nat,
            before,
        );
    }
}

/// Runs the inner loop over three arguments from a state that was set up
/// before.
fn accumulate_triples_from<G, A>(
    operation: &G,
    sum: &A,
    start: TripleSample,
    increment: Binary64,
    count: u64,
) -> (sample: TripleSample) where
    G: Fn(Binary64, Binary64, Binary64) -> Binary64,
    A: Fn(Binary64, Binary64) -> Binary64,

    requires
        total3(*operation),
        total2(*sum),
        start.accumulated == Binary64::encoded(0),
    ensures
        triple_accumulates(
            outcomes3(*operation),
            outcomes2(*sum),
            start,
            increment,
            count as nat,
            sample,
        ),
{
    let mut sample = start;
    let mut done: u64 = 0;
    while done < count
        invariant
            done <= count,
            total3(*operation),
            total2(*sum),
            triple_accumulates(
                outcomes3(*operation),
                outcomes2(*sum),
                start,
                increment,
                done as nat,
                sample,
            ),
        decreases count - done,
    {
        let value = operation(sample.first, sample.second, sample.third);
        let next = TripleSample {
            accumulated: sum(sample.accumulated, value),
            first: sum(sample.first, increment),
            second: sum(sample.second, increment),
            third: sum(sample.third, increment),
        };
        assert(triple_advances(
            outcomes3(*operation),
            outcomes2(*sum),
            increment,
            sample,
            value,
            next,
        ));
        sample = next;
        done = done + 1;
    }
    sample
}

/// Where the clamp case starts: the value at pi, the lower bound at half of
/// it, the upper bound at twice it.
pub open spec fn clamp_start() -> TripleSample {
    TripleSample {
        accumulated: Binary64::encoded(0),
        first: Binary64::encoded(PI_BITS),
        second: Binary64::encoded(HALF_PI_BITS),
        third: Binary64::encoded(TWO_PI_BITS),
    }
}

/// Measures `clamp`. Its arguments are the value, the lower bound and the
/// upper bound, in this order, and all three advance together. The operation
/// is the caller's because a clamp is defined only between bounds that are in
/// order, and whether they stay in order is up to the caller's addition.
pub fn clamp_test<A, G>(outer_iteration_count: i32, sum: A, clamp: G) -> (results: Vec<
    RunResult<Binary64>,
>) where A: Fn(Binary64, Binary64) -> Binary64, G: Fn(Binary64, Binary64, Binary64) -> Binary64
    requires
        total2(sum),
        total3(clamp),
    ensures
        reports(
            results@,
            outer_iteration_count,
            "ClampTest"@,
            triple_accumulated_by(
                outcomes3(clamp),
                outcomes2(sum),
                clamp_start(),
                Binary64::encoded(MILLIONTH_BITS),
                INNER_ITERATION_COUNT as nat,
            ),
        ),
{
    let increment = Binary64::from_bits(MILLIONTH_BITS);
    let clamp = &clamp;
    let sum = &sum;
    let prepare = || -> (state: TripleSample)
        ensures
            state == clamp_start(),
        {
            TripleSample {
                accumulated: Binary64::from_bits(0),
                first: Binary64::from_bits(PI_BITS),
                second: Binary64::from_bits(HALF_PI_BITS),
                third: Binary64::from_bits(TWO_PI_BITS),
            }
        };
    let measure = |state: TripleSample| -> (accumulated: Binary64)
        requires
            state == clamp_start(),
        ensures
            triple_accumulated_by(
                outcomes3(*clamp),
                outcomes2(*sum),
                clamp_start(),
                increment,
                INNER_ITERATION_COUNT as nat,
            )(accumulated),
        {
            accumulate_triples_from(
                clamp,
                sum,
                state,
                increment,
                INNER_ITERATION_COUNT,
            ).accumulated
        };
    repeat_timed(outer_iteration_count, "ClampTest", prepare, measure)
}

/// Measures `lerp`, the interpolation between two values. Its arguments are
/// the value to start from, the value to end on and the parameter, in this
/// order. The two values advance together, from half of pi and from twice pi,
/// and the parameter stays at one half.
pub fn lerp_test<A, G>(outer_iteration_count: i32, sum: A, lerp: G) -> (results: Vec<
    RunResult<Binary64>,
>) where A: Fn(Binary64, Binary64) -> Binary64, G: Fn(Binary64, Binary64, Binary64) -> Binary64
    requires
        total2(sum),
        total3(lerp),
    ensures
        reports(
            results@,
            outer_iteration_count,
            "LerpTest"@,
            pair_accumulated_by(
                at_parameter(outcomes3(lerp), Binary64::encoded(HALF_BITS)),
                outcomes2(sum),
                Binary64::encoded(HALF_PI_BITS),
                Binary64::encoded(TWO_PI_BITS),
                Binary64::encoded(MILLIONTH_BITS),
                INNER_ITERATION_COUNT as nat,
            ),
        ),
{
    let first = Binary64::from_bits(HALF_PI_BITS);
    let second = Binary64::from_bits(TWO_PI_BITS);
    let increment = Binary64::from_bits(MILLIONTH_BITS);
    let half = Binary64::from_bits(HALF_BITS);
    let lerp = &lerp;
    let sum = &sum;
    let prepare = || -> (state: PairSample)
        ensures
            state.accumulated == Binary64::encoded(0),
            state.first == first,
            state.second == second,
        { PairSample { accumulated: Binary64::from_bits(0), first, second } };
    let measure = |state: PairSample| -> (accumulated: Binary64)
        requires
            state.accumulated == Binary64::encoded(0),
            state.first == first,
            state.second == second,
        ensures
            pair_accumulated_by(
                at_parameter(outcomes3(*lerp), half),
                outcomes2(*sum),
                first,
                second,
                increment,
                INNER_ITERATION_COUNT as nat,
            )(accumulated),
        {
            accumulate_pairs_at_from(
                lerp,
                sum,
                state,
                half,
                increment,
                INNER_ITERATION_COUNT,
            ).accumulated
        };
    repeat_timed(outer_iteration_count, "LerpTest", prepare, measure)
}

/// Measures `fmod`, the remainder of a division. The dividend advances from
/// pi and the divisor from a quarter of it.
pub fn fmod_test<A, G>(outer_iteration_count: i32, sum: A, fmod: G) -> (results: Vec<
    RunResult<Binary64>,
>) where A: Fn(Binary64, Binary64) -> Binary64, G: Fn(Binary64, Binary64) -> Binary64
    requires
        total2(sum),
        total2(fmod),
    ensures
        reports(
            results@,
            outer_iteration_count,
            "FModTest"@,
            pair_accumulated_by(
                outcomes2(fmod),
                outcomes2(sum),
                Binary64::encoded(PI_BITS),
                Binary64::encoded(QUARTER_PI_BITS),
                Binary64::encoded(MILLIONTH_BITS),
                INNER_ITERATION_COUNT as nat,
            ),
        ),
{
    let first = Binary64::from_bits(PI_BITS);
    let second = Binary64::from_bits(QUARTER_PI_BITS);
    let increment = Binary64::from_bits(MILLIONTH_BITS);
    let fmod = &fmod;
    let sum = &sum;
    let prepare = || -> (state: PairSample)
        ensures
            state.accumulated == Binary64::encoded(0),
            state.first == first,
            state.second == second,
        { PairSample { accumulated: Binary64::from_bits(0), first, second } };
    let measure = |state: PairSample| -> (accumulated: Binary64)
        requires
            state.accumulated == Binary64::encoded(0),
            state.first == first,
            state.second == second,
        ensures
            pair_accumulated_by(
                outcomes2(*fmod),
                outcomes2(*sum),
                first,
                second,
                increment,
                INNER_ITERATION_COUNT as nat,
            )(accumulated),
        {
            accumulate_pairs_from(
                fmod,
                sum,
                state,
                increment,
                INNER_ITERATION_COUNT,
            ).accumulated
        };
    repeat_timed(outer_iteration_count, "FModTest", prepare, measure)
}

/// A state that can be reached with an operation that admits fewer results
/// can be reached with one that admits more.
pub proof fn lemma_pair_accumulates_within(
    narrow: Binary,
    wide: Binary,
    sum_of: Binary,
    first: Binary64,
    second: Binary64,
    increment: Binary64,
    count: nat,
    sample: PairSample,
)
    requires
        within2(narrow, wide),
        pair_accumulates(narrow, sum_of, first, second, increment, count, sample),
    ensures
        pair_accumulates(wide, sum_of, first, second, increment, count, sample),
    decreases count,
{
    if count > 0 {
        let (before, value) = choose|before: PairSample, value: Binary64|
            pair_accumulates(narrow, sum_of, first, second, increment, (count - 1) as nat, before)
                && #[trigger] pair_advances(narrow, sum_of, increment, before, value, sample);
        lemma_pair_accumulates_within(
            narrow,
            wide,
            sum_of,
            first,
            second,
            increment,
            (count - 1) as nat,
            before,
        );
        assert(pair_advances(wide, sum_of, increment, before, value, sample));
    }
}

/// The relation admits at most one result for each three arguments.
pub open spec fn deterministic3(result_of: Ternary) -> bool {
    forall|x: Binary64, y: Binary64, z: Binary64, v: Binary64, w: Binary64|
        #[trigger] result_of(x, y, z, v) && #[trigger] result_of(x, y, z, w) ==> v == w
}

/// With an operation and an addition that each give one result for given
/// arguments, the inner loop over two arguments has one outcome.
pub proof fn lemma_pair_accumulation_is_deterministic(
    result_of: Binary,
    sum_of: Binary,
    first: Binary64,
    second: Binary64,
    increment: Binary64,
    count: nat,
    one: PairSample,
    other: PairSample,
)
    requires
        deterministic2(result_of),
        deterministic2(sum_of),
        pair_accumulates(result_of, sum_of, first, second, increment, count, one),
        pair_accumulates(result_of, sum_of, first, second, increment, count, other),
    ensures
        one == other,
    decreases count,
{
    if count > 0 {
        let (before1, value1) = choose|before: PairSample, value: Binary64|
            pair_accumulates(result_of, sum_of, first, second, increment, (count - 1) as nat, before)
                && #[trigger] pair_advances(result_of, sum_of, increment, before, value, one);
        let (before2, value2) = choose|before: PairSample, value: Binary64|
            pair_accumulates(result_of, sum_of, first, second, increment, (count - 1) as nat, before)
                && #[trigger] pair_advances(result_of, sum_of, increment, before, value, other);
        lemma_pair_accumulation_is_deterministic(
            result_of,
            sum_of,
            first,
            second,
            increment,
            (count - 1) as nat,
            before1,
            before2,
        );
    }
}

/// With an operation and an addition that each give one result for given
/// arguments, the inner loop over three arguments has one outcome.
pub proof fn lemma_triple_accumulation_is_deterministic(
    result_of: Ternary,
    sum_of: Binary,
    start: TripleSample,
    increment: Binary64,
    count: nat,
    one: TripleSample,
    other: TripleSample,
)
    requires
        deterministic3(result_of),
        deterministic2(sum_of),
        triple_accumulates(result_of, sum_of, start, increment, count, one),
        triple_accumulates(result_of, sum_of, start, increment, count, other),
    ensures
        one == other,
    decreases count,
{
    if count > 0 {
        let (before1, value1) = choose|before: TripleSample, value: Binary64|
            triple_accumulates(result_of, sum_of, start, increment, (count - 1) as nat, before)
                && #[trigger] triple_advances(result_of, sum_of, increment, before, value, one);
        let (before2, value2) = choose|before: TripleSample, value: Binary64|
            triple_accumulates(result_of, sum_of, start, increment, (count - 1) as nat, before)
                && #[trigger] triple_advances(result_of, sum_of, increment, before, value, other);
        lemma_triple_accumulation_is_deterministic(
            result_of,
            sum_of,
            start,
            increment,
            (count - 1) as nat,
            before1,
            before2,
        );
    }
}

/// Two runs of the same case over two arguments, with an operation and an
/// addition that each give one result for given arguments, report the same
/// sum in every repetition.
pub proof fn lemma_pair_runs_agree(
    first: Seq<RunResult<Binary64>>,
    second: Seq<RunResult<Binary64>>,
    outer_iteration_count: i32,
    name: Seq<char>,
    result_of: Binary,
    sum_of: Binary,
    first_base: Binary64,
    second_base: Binary64,
    increment: Binary64,
    count: nat,
)
    requires
        deterministic2(result_of),
        deterministic2(sum_of),
        reports(
            first,
            outer_iteration_count,
            name,
            pair_accumulated_by(
                result_of,
                sum_of,
                first_base,
                second_base,
                increment,
                count,
            ),
        ),
        reports(
            second,
            outer_iteration_count,
            name,
            pair_accumulated_by(
                result_of,
                sum_of,
                first_base,
                second_base,
                increment,
                count,
            ),
        ),
    ensures
        first.len() == second.len(),
        forall|j: int, k: int|
            0 <= j < first.len() && 0 <= k < second.len() ==> (#[trigger] first[j]).accumulated
                == (#[trigger] second[k]).accumulated,
{
    let admitted = pair_accumulated_by(result_of, sum_of, first_base, second_base, increment, count);
    assert forall|j: int, k: int| 0 <= j < first.len() && 0 <= k < second.len() implies (
    #[trigger] first[j]).accumulated == (#[trigger] second[k]).accumulated by {
        assert(admitted(first[j].accumulated));
        assert(admitted(second[k].accumulated));
        let one = choose|sample: PairSample|
            sample.accumulated == first[j].accumulated && #[trigger] pair_accumulates(
                result_of,
                sum_of,
                first_base,
                second_base,
                increment,
                count,
                sample,
            );
        let other = choose|sample: PairSample|
            sample.accumulated == second[k].accumulated && #[trigger] pair_accumulates(
                result_of,
                sum_of,
                first_base,
                second_base,
                increment,
                count,
                sample,
            );
        lemma_pair_accumulation_is_deterministic(result_of, sum_of, first_base, second_base, increment, count, one, other);
    }
}

/// Two runs of the same case over three arguments, with an operation and an
/// addition that each give one result for given arguments, report the same
/// sum in every repetition.
pub proof fn lemma_triple_runs_agree(
    first: Seq<RunResult<Binary64>>,
    second: Seq<RunResult<Binary64>>,
    outer_iteration_count: i32,
    name: Seq<char>,
    result_of: Ternary,
    sum_of: Binary,
    start: TripleSample,
    increment: Binary64,
    count: nat,
)
    requires
        deterministic3(result_of),
        deterministic2(sum_of),
        reports(
            first,
            outer_iteration_count,
            name,
            triple_accumulated_by(
                result_of,
                sum_of,
                start,
                increment,
                count,
            ),
        ),
        reports(
            second,
            outer_iteration_count,
            name,
            triple_accumulated_by(
                result_of,
                sum_of,
                start,
                increment,
                count,
            ),
        ),
    ensures
        first.len() == second.len(),
        forall|j: int, k: int|
            0 <= j < first.len() && 0 <= k < second.len() ==> (#[trigger] first[j]).accumulated
                == (#[trigger] second[k]).accumulated,
{
    let admitted = triple_accumulated_by(result_of, sum_of, start, increment, count);
    assert forall|j: int, k: int| 0 <= j < first.len() && 0 <= k < second.len() implies (
    #[trigger] first[j]).accumulated == (#[trigger] second[k]).accumulated by {
        assert(admitted(first[j].accumulated));
        assert(admitted(second[k].accumulated));
        let one = choose|sample: TripleSample|
            sample.accumulated == first[j].accumulated && #[trigger] triple_accumulates(
                result_of,
                sum_of,
                start,
                increment,
                count,
                sample,
            );
        let other = choose|sample: TripleSample|
            sample.accumulated == second[k].accumulated && #[trigger] triple_accumulates(
                result_of,
                sum_of,
                start,
                increment,
                count,
                sample,
            );
        lemma_triple_accumulation_is_deterministic(result_of, sum_of, start, increment, count, one, other);
    }
}

} // verus!
