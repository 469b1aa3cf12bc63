//! What holds of every run of the harness, whatever the operations are.

use vstd::prelude::*;
use crate::binary64::Binary64;
use crate::harness::{
    accumulated_by, accumulates, advances, reports, Binary, RunResult, Sample, Unary,
};

verus! {

/// The relation of an operation that computes the function `g`.
pub open spec fn computes(g: spec_fn(Binary64) -> Binary64) -> Unary {
    |x: Binary64, y: Binary64| y == g(x)
}

/// The relation of an addition that computes the function `plus`.
pub open spec fn computes2(plus: spec_fn(Binary64, Binary64) -> Binary64) -> Binary {
    |x: Binary64, y: Binary64, z: Binary64| z == plus(x, y)
}

/// Every result that `narrow` admits, `wide` admits too.
pub open spec fn within(narrow: Unary, wide: Unary) -> bool {
    forall|x: Binary64, y: Binary64| #[trigger] narrow(x, y) ==> wide(x, y)
}

/// Every sum that `narrow` admits, `wide` admits too.
pub open spec fn within2(narrow: Binary, wide: Binary) -> bool {
    forall|x: Binary64, y: Binary64, z: Binary64| #[trigger] narrow(x, y, z) ==> wide(x, y, z)
}

/// The relation admits at most one result for each argument.
pub open spec fn deterministic(value_of: Unary) -> bool {
    forall|x: Binary64, y: Binary64, z: Binary64|
        #[trigger] value_of(x, y) && #[trigger] value_of(x, z) ==> y == z
}

/// The relation admits at most one sum for each pair of arguments.
pub open spec fn deterministic2(sum_of: Binary) -> bool {
    forall|a: Binary64, b: Binary64, y: Binary64, z: Binary64|
        #[trigger] sum_of(a, b, y) && #[trigger] sum_of(a, b, z) ==> y == z
}

/// The state after `count` inner iterations when the operation computes `g`
/// and the addition computes `plus`: the sum is
/// `g(v) + g(v + d) + g(v + d + d) + ...` with `count` terms, added from the
/// left to a zero, and the argument is `v + d + ... + d`.
pub open spec fn series(
    g: spec_fn(Binary64) -> Binary64,
    plus: spec_fn(Binary64, Binary64) -> Binary64,
    base: Binary64,
    increment: Binary64,
    count: nat,
) -> Sample
    decreases count,
{
    if count == 0 {
        Sample { accumulated: Binary64::encoded(0), argument: base }
    } else {
        let before = series(g, plus, base, increment, (count - 1) as nat);
        Sample {
            accumulated: plus(before.accumulated, g(before.argument)),
            argument: plus(before.argument, increment),
        }
    }
}

/// A state that can be reached with operations that admit fewer results can be
/// reached with operations that admit more.
pub proof fn lemma_accumulates_within(
    narrow: Unary,
    wide: Unary,
    narrow_sum: Binary,
    wide_sum: Binary,
    base: Binary64,
    increment: Binary64,
    count: nat,
    sample: Sample,
)
    requires
        within(narrow, wide),
        within2(narrow_sum, wide_sum),
        accumulates(narrow, narrow_sum, base, increment, count, sample),
    ensures
        accumulates(wide, wide_sum, base, increment, count, sample),
    decreases count,
{
    if count > 0 {
        let (before, value) = choose|before: Sample, value: Binary64|
            accumulates(narrow, narrow_sum, base, increment, (count - 1) as nat, before)
                && #[trigger] advances(narrow, narrow_sum, increment, before, value, sample);
        lemma_accumulates_within(
            narrow,
            wide,
            narrow_sum,
            wide_sum,
            base,
            increment,
            (count - 1) as nat,
            before,
        );
        assert(advances(wide, wide_sum, increment, before, value, sample));
    }
}

/// A report that holds with a stronger claim on the accumulated values holds
/// with a weaker one.
pub proof fn lemma_reports_within<T>(
    results: Seq<RunResult<T>>,
    outer_iteration_count: i32,
    name: Seq<char>,
    narrow: spec_fn(T) -> bool,
    wide: spec_fn(T) -> bool,
)
    requires
        reports(results, outer_iteration_count, name, narrow),
        forall|accumulated: T| #[trigger] narrow(accumulated) ==> wide(accumulated),
    ensures
        reports(results, outer_iteration_count, name, wide),
{
}

/// A run measured with operations that admit fewer results is a run measured
/// with operations that admit more.
pub proof fn lemma_run_within(
    results: Seq<RunResult<Binary64>>,
    outer_iteration_count: i32,
    name: Seq<char>,
    narrow: Unary,
    wide: Unary,
    sum_of: Binary,
    base: Binary64,
    increment: Binary64,
    count: nat,
)
    requires
        within(narrow, wide),
        reports(
            results,
            outer_iteration_count,
            name,
            accumulated_by(narrow, sum_of, base, increment, count),
        ),
    ensures
        reports(
            results,
            outer_iteration_count,
            name,
            accumulated_by(wide, sum_of, base, increment, count),
        ),
{
    let before = accumulated_by(narrow, sum_of, base, increment, count);
    let after = accumulated_by(wide, sum_of, base, increment, count);
    assert forall|accumulated: Binary64| #[trigger]
        before(accumulated) implies after(accumulated) by {
        let sample = choose|sample: Sample|
            sample.accumulated == accumulated && #[trigger] accumulates(
                narrow,
                sum_of,
                base,
                increment,
                count,
                sample,
            );
        lemma_accumulates_within(narrow, wide, sum_of, sum_of, base, increment, count, sample);
    }
    lemma_reports_within(results, outer_iteration_count, name, before, after);
}

/// With an operation and an addition that each give one result for given
/// arguments, the inner loop has one outcome: two states reached from the same
/// starting value with the same increment and the same number of iterations
/// are the same, bit for bit.
pub proof fn lemma_accumulation_is_deterministic(
    value_of: Unary,
    sum_of: Binary,
    base: Binary64,
    increment: Binary64,
    count: nat,
    first: Sample,
    second: Sample,
)
    requires
        deterministic(value_of),
        deterministic2(sum_of),
        accumulates(value_of, sum_of, base, increment, count, first),
        accumulates(value_of, sum_of, base, increment, count, second),
    ensures
        first == second,
    decreases count,
{
    if count > 0 {
        let (before1, value1) = choose|before: Sample, value: Binary64|
            accumulates(value_of, sum_of, base, increment, (count - 1) as nat, before)
                && #[trigger] advances(value_of, sum_of, increment, before, value, first);
        let (before2, value2) = choose|before: Sample, value: Binary64|
            accumulates(value_of, sum_of, base, increment, (count - 1) as nat, before)
                && #[trigger] advances(value_of, sum_of, increment, before, value, second);
        lemma_accumulation_is_deterministic(
            value_of,
            sum_of,
            base,
            increment,
            (count - 1) as nat,
            before1,
            before2,
        );
    }
}

/// Two runs of the same case, with an operation and an addition that each
/// give one result for given arguments, report the same accumulated value in
/// every repetition.
pub proof fn lemma_runs_agree(
    first: Seq<RunResult<Binary64>>,
    second: Seq<RunResult<Binary64>>,
    outer_iteration_count: i32,
    name: Seq<char>,
    value_of: Unary,
    sum_of: Binary,
    base: Binary64,
    increment: Binary64,
    count: nat,
)
    requires
        deterministic(value_of),
        deterministic2(sum_of),
        reports(
            first,
            outer_iteration_count,
            name,
            accumulated_by(value_of, sum_of, base, increment, count),
        ),
        reports(
            second,
            outer_iteration_count,
            name,
            accumulated_by(value_of, sum_of, base, increment, count),
        ),
    ensures
        first.len() == second.len(),
        forall|j: int, k: int|
            0 <= j < first.len() && 0 <= k < second.len() ==> (#[trigger] first[j]).accumulated
                == (#[trigger] second[k]).accumulated,
{
    let admitted = accumulated_by(value_of, sum_of, base, increment, count);
    assert forall|j: int, k: int| 0 <= j < first.len() && 0 <= k < second.len() implies (
    #[trigger] first[j]).accumulated == (#[trigger] second[k]).accumulated by {
        assert(admitted(first[j].accumulated));
        assert(admitted(second[k].accumulated));
        let one = choose|sample: Sample|
            sample.accumulated == first[j].accumulated && #[trigger] accumulates(
                value_of,
                sum_of,
                base,
                increment,
                count,
                sample,
            );
        let other = choose|sample: Sample|
            sample.accumulated == second[k].accumulated && #[trigger] accumulates(
                value_of,
                sum_of,
                base,
                increment,
                count,
                sample,
            );
        lemma_accumulation_is_deterministic(value_of, sum_of, base, increment, count, one, other);
    }
}

/// Where the operation computes `g` and the addition computes `plus`, the
/// inner loop ends on the series of `g` over the arguments.
pub proof fn lemma_accumulates_series(
    g: spec_fn(Binary64) -> Binary64,
    plus: spec_fn(Binary64, Binary64) -> Binary64,
    base: Binary64,
    increment: Binary64,
    count: nat,
    sample: Sample,
)
    requires
        accumulates(computes(g), computes2(plus), base, increment, count, sample),
    ensures
        sample == series(g, plus, base, increment, count),
    decreases count,
{
    if count > 0 {
        let (before, value) = choose|before: Sample, value: Binary64|
            accumulates(computes(g), computes2(plus), base, increment, (count - 1) as nat, before)
                && #[trigger] advances(
                computes(g),
                computes2(plus),
                increment,
                before,
                value,
                sample,
            );
        lemma_accumulates_series(g, plus, base, increment, (count - 1) as nat, before);
    }
}

/// For the operation that returns its argument, the sum after `count`
/// iterations from `v` with the increment `d` is
/// `v + (v + d) + (v + d + d) + ...` with `count` terms, where `+` is the
/// addition in use, each argument is the one before it plus `d`, and the terms
/// are added from the left to a zero.
pub proof fn lemma_identity_sums_the_arguments(
    value_of: Unary,
    sum_of: Binary,
    plus: spec_fn(Binary64, Binary64) -> Binary64,
    base: Binary64,
    increment: Binary64,
    count: nat,
    sample: Sample,
)
    requires
        within(value_of, computes(|x: Binary64| x)),
        within2(sum_of, computes2(plus)),
        accumulates(value_of, sum_of, base, increment, count, sample),
    ensures
        sample == series(|x: Binary64| x, plus, base, increment, count),
{
    lemma_accumulates_within(
        value_of,
        computes(|x: Binary64| x),
        sum_of,
        computes2(plus),
        base,
        increment,
        count,
        sample,
    );
    lemma_accumulates_series(|x: Binary64| x, plus, base, increment, count, sample);
}

} // verus!
