//! The cases that walk from a value towards a target, one representable value
//! at a time, and sum the values they pass.

use vstd::prelude::*;
use crate::binary64::{Binary64, INFINITY_BITS};
use crate::constants::NEGATIVE_INFINITY_BITS;
use crate::harness::{
    outcomes2, repeat_timed, reports, total2, Binary, RunResult, Sample, INNER_ITERATION_COUNT,
};
use crate::laws::deterministic2;

verus! {

/// One step of a walk: the argument moves to what `next_of` gives for it and
/// the target, and the sum grows by the new argument.
pub open spec fn walk_advances(
    next_of: Binary,
    sum_of: Binary,
    target: Binary64,
    before: Sample,
    after: Sample,
) -> bool {
    &&& next_of(before.argument, target, after.argument)
    &&& sum_of(before.accumulated, after.argument, after.accumulated)
}

/// `sample` is a state that `count` steps towards `target` can reach from a
/// sum of zero and the argument `start`.
pub open spec fn walks(
    next_of: Binary,
    sum_of: Binary,
    start: Binary64,
    target: Binary64,
    count: nat,
    sample: Sample,
) -> bool
    decreases count,
{
    if count == 0 {
        sample.accumulated == Binary64::encoded(0) && sample.argument == start
    } else {
        exists|before: Sample|
            walks(next_of, sum_of, start, target, (count - 1) as nat, before)
                && #[trigger] walk_advances(next_of, sum_of, target, before, sample)
    }
}

/// The sums that `count` steps can end on.
pub open spec fn walked_by(
    next_of: Binary,
    sum_of: Binary,
    start: Binary64,
    target: Binary64,
    count: nat,
) -> spec_fn(Binary64) -> bool {
    |accumulated: Binary64|
        exists|sample: Sample|
            sample.accumulated == accumulated && #[trigger] walks(
                next_of,
                sum_of,
                start,
                target,
                count,
                sample,
            )
}

/// Sets the sum to zero and the argument to `start`, then runs the inner
/// loop: `count` times, moves the argument to what `next` gives for it and
/// `target`, and adds the new argument to the sum.
pub fn accumulate_walk<N, A>(
    next: &N,
    sum: &A,
    start: Binary64,
    target: Binary64,
    count: u64,
) -> (sample: Sample) where
    N: Fn(Binary64, Binary64) -> Binary64,
    A: Fn(Binary64, Binary64) -> Binary64,

    requires
        total2(*next),
        total2(*sum),
    ensures
        walks(outcomes2(*next), outcomes2(*sum), start, target, count as nat, sample),
{
    let state = Sample { accumulated: Binary64::from_bits(0), argument: start };
    accumulate_walk_from(next, sum, state, target, count)
}

/// Runs the inner loop of a walk from a state that was set up before.
fn accumulate_walk_from<N, A>(
    next: &N,
    sum: &A,
    state: Sample,
    target: Binary64,
    count: u64,
) -> (sample: Sample) where
    N: Fn(Binary64, Binary64) -> Binary64,
    A: Fn(Binary64, Binary64) -> Binary64,

    requires
        total2(*next),
        total2(*sum),
        state.accumulated == Binary64::encoded(0),
    ensures
        walks(outcomes2(*next), outcomes2(*sum), state.argument, target, count as nat, sample),
{
    let mut sample = state;
    let mut done: u64 = 0;
    while done < count
        invariant
            done <= count,
            total2(*next),
            total2(*sum),
            walks(
                outcomes2(*next),
                outcomes2(*sum),
                state.argument,
                target,
                done as nat,
                sample,
            ),
        decreases count - done,
    {
        let argument = next(sample.argument, target);
        let moved = Sample { accumulated: sum(sample.accumulated, argument), argument };
        assert(walk_advances(outcomes2(*next), outcomes2(*sum), target, sample, moved));
        sample = moved;
        done = done + 1;
    }
    sample
}

/// A run of a walk with a chosen number of steps.
pub fn run_walk_case<N, A>(
    outer_iteration_count: i32,
    test_name: &str,
    next: N,
    sum: A,
    start: Binary64,
    target: Binary64,
    inner_iteration_count: u64,
) -> (results: Vec<RunResult<Binary64>>) where
    N: Fn(Binary64, Binary64) -> Binary64,
    A: Fn(Binary64, Binary64) -> Binary64,

    requires
        total2(next),
        total2(sum),
    ensures
        reports(
            results@,
            outer_iteration_count,
            test_name@,
            walked_by(
                outcomes2(next),
                outcomes2(sum),
                start,
                target,
                inner_iteration_count as nat,
            ),
        ),
{
    let next = &next;
    let sum = &sum;
    let prepare = || -> (state: Sample)
        ensures
            state.accumulated == Binary64::encoded(0),
            state.argument == start,
        { Sample { accumulated: Binary64::from_bits(0), argument: start } };
    let measure = |state: Sample| -> (accumulated: Binary64)
        requires
            state.accumulated == Binary64::encoded(0),
            state.argument == start,
        ensures
            walked_by(
                outcomes2(*next),
                outcomes2(*sum),
                start,
                target,
                inner_iteration_count as nat,
            )(accumulated),
        { accumulate_walk_from(next, sum, state, target, inner_iteration_count).accumulated };
    repeat_timed(outer_iteration_count, test_name, prepare, measure)
}

/// Measures `nextafter` on a walk from zero towards positive infinity.
pub fn nextup_test<A, N>(outer_iteration_count: i32, sum: A, nextafter: N) -> (results: Vec<
    RunResult<Binary64>,
>) where A: Fn(Binary64, Binary64) -> Binary64, N: Fn(Binary64, Binary64) -> Binary64
    requires
        total2(sum),
        total2(nextafter),
    ensures
        reports(
            results@,
            outer_iteration_count,
            "NextUpTest"@,
            walked_by(
                outcomes2(nextafter),
                outcomes2(sum),
                Binary64::encoded(0),
                Binary64::encoded(INFINITY_BITS),
                INNER_ITERATION_COUNT as nat,
            ),
        ),
{
    run_walk_case(
        outer_iteration_count,
        "NextUpTest",
        nextafter,
        sum,
        Binary64::from_bits(0),
        Binary64::from_bits(INFINITY_BITS),
        INNER_ITERATION_COUNT,
    )
}

/// Measures `nextafter` on a walk from zero towards negative infinity.
pub fn nextdown_test<A, N>(outer_iteration_count: i32, sum: A, nextafter: N) -> (results: Vec<
    RunResult<Binary64>,
>) where A: Fn(Binary64, Binary64) -> Binary64, N: Fn(Binary64, Binary64) -> Binary64
    requires
        total2(sum),
        total2(nextafter),
    ensures
        reports(
            results@,
            outer_iteration_count,
            "NextDownTest"@,
            walked_by(
                outcomes2(nextafter),
                outcomes2(sum),
                Binary64::encoded(0),
                Binary64::encoded(NEGATIVE_INFINITY_BITS),
                INNER_ITERATION_COUNT as nat,
            ),
        ),
{
    run_walk_case(
        outer_iteration_count,
        "NextDownTest",
        nextafter,
        sum,
        Binary64::from_bits(0),
        Binary64::from_bits(NEGATIVE_INFINITY_BITS),
        INNER_ITERATION_COUNT,
    )
}

/// With a step and an addition that each give one result for given
/// arguments, a walk has one outcome.
pub proof fn lemma_walk_is_deterministic(
    next_of: Binary,
    sum_of: Binary,
    start: Binary64,
    target: Binary64,
    count: nat,
    one: Sample,
    other: Sample,
)
    requires
        deterministic2(next_of),
        deterministic2(sum_of),
        walks(next_of, sum_of, start, target, count, one),
        walks(next_of, sum_of, start, target, count, other),
    ensures
        one == other,
    decreases count,
{
    if count > 0 {
        let before1 = choose|before: Sample|
            walks(next_of, sum_of, start, target, (count - 1) as nat, before)
                && #[trigger] walk_advances(next_of, sum_of, target, before, one);
        let before2 = choose|before: Sample|
            walks(next_of, sum_of, start, target, (count - 1) as nat, before)
                && #[trigger] walk_advances(next_of, sum_of, target, before, other);
        lemma_walk_is_deterministic(
            next_of,
            sum_of,
            start,
            target,
            (count - 1) as nat,
            before1,
            before2,
        );
    }
}

/// Two runs of the same walk, with a step and an addition that each give one
/// result for given arguments, report the same sum in every repetition.
pub proof fn lemma_walk_runs_agree(
    first: Seq<RunResult<Binary64>>,
    second: Seq<RunResult<Binary64>>,
    outer_iteration_count: i32,
    name: Seq<char>,
    next_of: Binary,
    sum_of: Binary,
    start: Binary64,
    target: Binary64,
    count: nat,
)
    requires
        deterministic2(next_of),
        deterministic2(sum_of),
        reports(
            first,
            outer_iteration_count,
            name,
            walked_by(
                next_of,
                sum_of,
                start,
                target,
                count,
            ),
        ),
        reports(
            second,
            outer_iteration_count,
            name,
            walked_by(
                next_of,
                sum_of,
                start,
                target,
                count,
            ),
        ),
    ensures
        first.len() == second.len(),
        forall|j: int, k: int|
            0 <= j < first.len() && 0 <= k < second.len() ==> (#[trigger] first[j]).accumulated
                == (#[trigger] second[k]).accumulated,
{
    let admitted = walked_by(next_of, sum_of, start, target, count);
    assert forall|j: int, k: int| 0 <= j < first.len() && 0 <= k < second.len() implies (
    #[trigger] first[j]).accumulated == (#[trigger] second[k]).accumulated by {
        assert(admitted(first[j].accumulated));
        assert(admitted(second[k].accumulated));
        let one = choose|sample: Sample|
            sample.accumulated == first[j].accumulated && #[trigger] walks(
                next_of,
                sum_of,
                start,
                target,
                count,
                sample,
            );
        let other = choose|sample: Sample|
            sample.accumulated == second[k].accumulated && #[trigger] walks(
                next_of,
                sum_of,
                start,
                target,
                count,
                sample,
            );
        lemma_walk_is_deterministic(next_of, sum_of, start, target, count, one, other);
    }
}

} // verus!
