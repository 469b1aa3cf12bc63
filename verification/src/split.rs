//! Cases whose operation gives two results, each with a sum of its own.

use vstd::prelude::*;
use crate::binary64::Binary64;
use crate::constants::{MILLIONTH_BITS, PI_BITS};
use crate::harness::{
    outcomes2, repeat_timed, reports, total2, Binary, RunResult, INNER_ITERATION_COUNT,
};
use crate::laws::deterministic2;

verus! {

/// The two results of such an operation, or the two sums of them.
#[derive(Clone, Copy, Debug)]
pub struct Parts {
    pub first: Binary64,
    pub second: Binary64,
}

/// The state of the inner loop: the two running sums and the next argument.
#[derive(Clone, Copy, Debug)]
pub struct SplitSample {
    pub accumulated: Parts,
    pub argument: Binary64,
}

/// Which pairs of results an operation may give for an argument.
pub type Splitting = spec_fn(Binary64, Parts) -> bool;

/// The pairs that `split` may return, as a relation.
pub open spec fn split_outcomes<P: Fn(Binary64) -> (Binary64, Binary64)>(split: P) -> Splitting {
    |x: Binary64, parts: Parts| call_ensures(split, (x,), (parts.first, parts.second))
}

/// `split` may be called on every value.
pub open spec fn total_split<P: Fn(Binary64) -> (Binary64, Binary64)>(split: P) -> bool {
    forall|x: Binary64| call_requires(split, (x,))
}

/// One inner iteration: each sum grows by its part of what the operation gave
/// for the argument, and the argument advances by the increment.
pub open spec fn split_advances(
    parts_of: Splitting,
    sum_of: Binary,
    increment: Binary64,
    before: SplitSample,
    parts: Parts,
    after: SplitSample,
) -> bool {
    &&& parts_of(before.argument, parts)
    &&& sum_of(before.accumulated.first, parts.first, after.accumulated.first)
    &&& sum_of(before.accumulated.second, parts.second, after.accumulated.second)
    &&& sum_of(before.argument, increment, after.argument)
}

/// `sample` is a state that `count` inner iterations can reach from two sums
/// of zero and the argument `base`.
pub open spec fn split_accumulates(
    parts_of: Splitting,
    sum_of: Binary,
    base: Binary64,
    increment: Binary64,
    count: nat,
    sample: SplitSample,
) -> bool
    decreases count,
{
    if count == 0 {
        &&& sample.accumulated.first == Binary64::encoded(0)
        &&& sample.accumulated.second == Binary64::encoded(0)
        &&& sample.argument == base
    } else {
        exists|before: SplitSample, parts: Parts|
            split_accumulates(parts_of, sum_of, base, increment, (count - 1) as nat, before)
                && #[trigger] split_advances(parts_of, sum_of, increment, before, parts, sample)
    }
}

/// The pairs of sums that `count` inner iterations can end on.
pub open spec fn split_accumulated_by(
    parts_of: Splitting,
    sum_of: Binary,
    base: Binary64,
    increment: Binary64,
    count: nat,
) -> spec_fn(Parts) -> bool {
    |accumulated: Parts|
        exists|sample: SplitSample|
            sample.accumulated == accumulated && #[trigger] split_accumulates(
                parts_of,
                sum_of,
                base,
                increment,
                count,
                sample,
            )
}

/// Sets both sums to zero and the argument to `base`, then runs the inner
/// loop: `count` times, adds the first result of `split` for the argument to
/// the first sum and the second to the second, and advances the argument by
/// `increment`.
pub fn accumulate_split<P, A>(
    split: &P,
    sum: &A,
    base: Binary64,
    increment: Binary64,
    count: u64,
) -> (sample: SplitSample) where
    P: Fn(Binary64) -> (Binary64, Binary64),
    A: Fn(Binary64, Binary64) -> Binary64,

    requires
        total_split(*split),
        total2(*sum),
    ensures
        split_accumulates(
            split_outcomes(*split),
            outcomes2(*sum),
            base,
            increment,
            count as nat,
            sample,
        ),
{
    let zero = Binary64::from_bits(0);
    let start = SplitSample { accumulated: Parts { first: zero, second: zero }, argument: base };
    accumulate_split_from(split, sum, start, increment, count)
}

/// Runs the inner loop with two sums from a state that was set up before.
fn accumulate_split_from<P, A>(
    split: &P,
    sum: &A,
    start: SplitSample,
    increment: Binary64,
    count: u64,
) -> (sample: SplitSample) where
    P: Fn(Binary64) -> (Binary64, Binary64),
    A: Fn(Binary64, Binary64) -> Binary64,

    requires
        total_split(*split),
        total2(*sum),
        start.accumulated.first == Binary64::encoded(0),
        start.accumulated.second == Binary64::encoded(0),
    ensures
        split_accumulates(
            split_outcomes(*split),
            outcomes2(*sum),
            start.argument,
            increment,
            count as nat,
            sample,
        ),
{
    let mut sample = start;
    let mut done: u64 = 0;
    while done < count
        invariant
            done <= count,
            total_split(*split),
            total2(*sum),
            split_accumulates(
                split_outcomes(*split),
                outcomes2(*sum),
                start.argument,
                increment,
                done as nat,
                sample,
            ),
        decreases count - done,
    {
        let (first, second) = split(sample.argument);
        let next = SplitSample {
            accumulated: Parts {
                first: sum(sample.accumulated.first, first),
                second: sum(sample.accumulated.second, second),
            },
            argument: sum(sample.argument, increment),
        };
        assert(split_advances(
            split_outcomes(*split),
            outcomes2(*sum),
            increment,
            sample,
            Parts { first, second },
            next,
        ));
        sample = next;
        done = done + 1;
    }
    sample
}

/// A run of a case with two sums and a chosen number of inner iterations.
pub fn run_split_case<P, A>(
    outer_iteration_count: i32,
    test_name: &str,
    split: P,
    sum: A,
    base_value: Binary64,
    increment: Binary64,
    inner_iteration_count: u64,
) -> (results: Vec<RunResult<Parts>>) where
    P: Fn(Binary64) -> (Binary64, Binary64),
    A: Fn(Binary64, Binary64) -> Binary64,

    requires
        total_split(split),
        total2(sum),
    ensures
        reports(
            results@,
            outer_iteration_count,
            test_name@,
            split_accumulated_by(
                split_outcomes(split),
                outcomes2(sum),
                base_value,
                increment,
                inner_iteration_count as nat,
            ),
        ),
{
    let split = &split;
    let sum = &sum;
    let prepare = || -> (state: SplitSample)
        ensures
            state.accumulated.first == Binary64::encoded(0),
            state.accumulated.second == Binary64::encoded(0),
            state.argument == base_value,
        {
            let zero = Binary64::from_bits(0);
            SplitSample { accumulated: Parts { first: zero, second: zero }, argument: base_value }
        };
    let measure = |state: SplitSample| -> (accumulated: Parts)
        requires
            state.accumulated.first == Binary64::encoded(0),
            state.accumulated.second == Binary64::encoded(0),
            state.argument == base_value,
        ensures
            split_accumulated_by(
                split_outcomes(*split),
                outcomes2(*sum),
                base_value,
                increment,
                inner_iteration_count as nat,
            )(accumulated),
        { accumulate_split_from(split, sum, state, increment, inner_iteration_count).accumulated };
    repeat_timed(outer_iteration_count, test_name, prepare, measure)
}

/// Measures `frexp`, the split of a value into a fraction and a power of two.
/// `frexp` hands back the fraction and, as a binary64 value, the exponent.
pub fn frexp_test<A, P>(outer_iteration_count: i32, sum: A, frexp: P) -> (results: Vec<
    RunResult<Parts>,
>) where A: Fn(Binary64, Binary64) -> Binary64, P: Fn(Binary64) -> (Binary64, Binary64)
    requires
        total2(sum),
        total_split(frexp),
    ensures
        reports(
            results@,
            outer_iteration_count,
            "FRexpTest"@,
            split_accumulated_by(
                split_outcomes(frexp),
                outcomes2(sum),
                Binary64::encoded(PI_BITS),
                Binary64::encoded(MILLIONTH_BITS),
                INNER_ITERATION_COUNT as nat,
            ),
        ),
{
    run_split_case(
        outer_iteration_count,
        "FRexpTest",
        frexp,
        sum,
        Binary64::from_bits(PI_BITS),
        Binary64::from_bits(MILLIONTH_BITS),
        INNER_ITERATION_COUNT,
    )
}

/// Measures `modf`, the split of a value into its fractional and its integral
/// part.
pub fn modf_test<A, P>(outer_iteration_count: i32, sum: A, modf: P) -> (results: Vec<
    RunResult<Parts>,
>) where A: Fn(Binary64, Binary64) -> Binary64, P: Fn(Binary64) -> (Binary64, Binary64)
    requires
        total2(sum),
        total_split(modf),
    ensures
        reports(
            results@,
            outer_iteration_count,
            "ModFTest"@,
            split_accumulated_by(
                split_outcomes(modf),
                outcomes2(sum),
                Binary64::encoded(PI_BITS),
                Binary64::encoded(MILLIONTH_BITS),
                INNER_ITERATION_COUNT as nat,
            ),
        ),
{
    run_split_case(
        outer_iteration_count,
        "ModFTest",
        modf,
        sum,
        Binary64::from_bits(PI_BITS),
        Binary64::from_bits(MILLIONTH_BITS),
        INNER_ITERATION_COUNT,
    )
}

/// The relation admits at most one pair of results for each argument.
pub open spec fn deterministic_split(parts_of: Splitting) -> bool {
    forall|x: Binary64, first: Parts, second: Parts|
        #[trigger] parts_of(x, first) && #[trigger] parts_of(x, second) ==> first == second
}

/// With an operation and an addition that each give one result for given
/// arguments, the inner loop with two sums has one outcome.
pub proof fn lemma_split_accumulation_is_deterministic(
    parts_of: Splitting,
    sum_of: Binary,
    base: Binary64,
    increment: Binary64,
    count: nat,
    first: SplitSample,
    second: SplitSample,
)
    requires
        deterministic_split(parts_of),
        deterministic2(sum_of),
        split_accumulates(parts_of, sum_of, base, increment, count, first),
        split_accumulates(parts_of, sum_of, base, increment, count, second),
    ensures
        first == second,
    decreases count,
{
    if count > 0 {
        let (before1, parts1) = choose|before: SplitSample, parts: Parts|
            split_accumulates(parts_of, sum_of, base, increment, (count - 1) as nat, before)
                && #[trigger] split_advances(parts_of, sum_of, increment, before, parts, first);
        let (before2, parts2) = choose|before: SplitSample, parts: Parts|
            split_accumulates(parts_of, sum_of, base, increment, (count - 1) as nat, before)
                && #[trigger] split_advances(parts_of, sum_of, increment, before, parts, second);
        lemma_split_accumulation_is_deterministic(
            parts_of,
            sum_of,
            base,
            increment,
            (count - 1) as nat,
            before1,
            before2,
        );
    }
}

/// Two runs of the same case with two sums, with an operation and an addition
/// that each give one result for given arguments, report the same pair of
/// sums in every repetition.
pub proof fn lemma_split_runs_agree(
    first: Seq<RunResult<Parts>>,
    second: Seq<RunResult<Parts>>,
    outer_iteration_count: i32,
    name: Seq<char>,
    parts_of: Splitting,
    sum_of: Binary,
    base: Binary64,
    increment: Binary64,
    count: nat,
)
    requires
        deterministic_split(parts_of),
        deterministic2(sum_of),
        reports(
            first,
            outer_iteration_count,
            name,
            split_accumulated_by(
                parts_of,
                sum_of,
                base,
                increment,
                count,
            ),
        ),
        reports(
            second,
            outer_iteration_count,
            name,
            split_accumulated_by(
                parts_of,
                sum_of,
                base,
                increment,
                count,
            ),
        ),
    ensures
        first.len() == second.len(),
        forall|j: int, k: int|
            0 <= j < first.len() && 0 <= k < second.len() ==> (#[trigger] first[j]).accumulated
                == (#[trigger] second[k]).accumulated,
{
    let admitted = split_accumulated_by(parts_of, sum_of, base, increment, count);
    assert forall|j: int, k: int| 0 <= j < first.len() && 0 <= k < second.len() implies (
    #[trigger] first[j]).accumulated == (#[trigger] second[k]).accumulated by {
        assert(admitted(first[j].accumulated));
        assert(admitted(second[k].accumulated));
        let one = choose|sample: SplitSample|
            sample.accumulated == first[j].accumulated && #[trigger] split_accumulates(
                parts_of,
                sum_of,
                base,
                increment,
                count,
                sample,
            );
        let other = choose|sample: SplitSample|
            sample.accumulated == second[k].accumulated && #[trigger] split_accumulates(
                parts_of,
                sum_of,
                base,
                increment,
                count,
                sample,
            );
        lemma_split_accumulation_is_deterministic(parts_of, sum_of, base, increment, count, one, other);
    }
}

} // verus!
