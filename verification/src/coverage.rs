//! When a list of steps covers the luminance domain `0..=255` exactly once.
//!
//! The test that is run adds up the widths of the steps and compares them
//! pair by pair. What the rest of the crate relies on is that every
//! luminance lies in one and only one step; the two are shown to be the
//! same.

use crate::step::{Step, StepView};
use vstd::prelude::*;
use vstd::set_lib::{lemma_int_range, lemma_set_disjoint_lens, lemma_subset_equality, set_int_range};

verus! {

/// Whether `value` lies in the inclusive range of `step`.
pub open spec fn contains(step: StepView, value: int) -> bool {
    step.start <= value <= step.end
}

/// The number of luminance values in a step with `start <= end`.
pub open spec fn width(step: StepView) -> int {
    step.end - step.start + 1
}

/// The sum of the widths of `steps`.
pub open spec fn total_width(steps: Seq<StepView>) -> int
    decreases steps.len(),
{
    if steps.len() == 0 {
        0
    } else {
        total_width(steps.drop_last()) + width(steps.last())
    }
}

/// Whether every step has `start <= end`, so that its range is not empty.
pub open spec fn well_ordered(steps: Seq<StepView>) -> bool {
    forall|i: int| 0 <= i < steps.len() ==> (#[trigger] steps[i]).start <= steps[i].end
}

/// Whether two ranges share a value.
pub open spec fn overlap(a: StepView, b: StepView) -> bool {
    a.start <= b.end && b.start <= a.end
}

/// Whether no two steps share a value.
pub open spec fn disjoint(steps: Seq<StepView>) -> bool {
    forall|i: int, j: int| 0 <= i < j < steps.len() ==> !overlap(#[trigger] steps[i], #[trigger] steps[j])
}

/// Exact coverage, as it is tested: no step is reversed, the widths add up
/// to 256, and no two steps overlap.
pub open spec fn covers(steps: Seq<StepView>) -> bool {
    &&& well_ordered(steps)
    &&& total_width(steps) == 256
    &&& disjoint(steps)
}

/// Whether some step contains `value`.
pub open spec fn in_some_step(steps: Seq<StepView>, value: int) -> bool {
    exists|i: int| 0 <= i < steps.len() && #[trigger] contains(steps[i], value)
}

/// Exact coverage, as it is used: no step is reversed, and every luminance
/// lies in one and only one step.
pub open spec fn is_partition(steps: Seq<StepView>) -> bool {
    &&& well_ordered(steps)
    &&& forall|value: int| 0 <= value <= 255 ==> #[trigger] in_some_step(steps, value)
    &&& forall|i: int, j: int, value: int|
        0 <= i < steps.len() && 0 <= j < steps.len() && #[trigger] contains(steps[i], value)
            && #[trigger] contains(steps[j], value) ==> i == j
}

/// The luminance values that lie in some step.
pub open spec fn covered(steps: Seq<StepView>) -> Set<int>
    decreases steps.len(),
{
    if steps.len() == 0 {
        Set::empty()
    } else {
        covered(steps.drop_last()) + set_int_range(steps.last().start as int, steps.last().end + 1)
    }
}

/// A value is covered where, and only where, a step contains it.
pub proof fn lemma_covered_members(steps: Seq<StepView>, value: int)
    ensures
        covered(steps).contains(value) <==> in_some_step(steps, value),
    decreases steps.len(),
{
    if steps.len() > 0 {
        let front = steps.drop_last();
        lemma_covered_members(front, value);
        if covered(steps).contains(value) && !covered(front).contains(value) {
            assert(contains(steps[steps.len() - 1], value));
        }
        if in_some_step(steps, value) {
            let i = choose|i: int| 0 <= i < steps.len() && #[trigger] contains(steps[i], value);
            if i < front.len() {
                assert(contains(front[i], value));
            }
        }
    }
}

/// Steps that are not reversed and do not overlap cover as many values as
/// their widths add up to.
pub proof fn lemma_covered_len(steps: Seq<StepView>)
    requires
        well_ordered(steps),
        disjoint(steps),
    ensures
        covered(steps).finite(),
        covered(steps).len() == total_width(steps),
        covered(steps).subset_of(set_int_range(0, 256)),
    decreases steps.len(),
{
    if steps.len() > 0 {
        let front = steps.drop_last();
        let last = steps.last();
        let range = set_int_range(last.start as int, last.end + 1);
        lemma_covered_len(front);
        lemma_int_range(last.start as int, last.end + 1);
        assert forall|value: int| covered(front).contains(value) implies !range.contains(value) by {
            lemma_covered_members(front, value);
        }
        lemma_set_disjoint_lens(covered(front), range);
    }
}

/// Coverage as tested implies coverage as used: where the widths add up to
/// 256 and no two steps overlap, every luminance lies in one and only one
/// step.
pub proof fn lemma_covers_is_partition(steps: Seq<StepView>)
    requires
        covers(steps),
    ensures
        is_partition(steps),
{
    lemma_covered_len(steps);
    lemma_int_range(0, 256);
    lemma_subset_equality(covered(steps), set_int_range(0, 256));
    assert forall|value: int| 0 <= value <= 255 implies #[trigger] in_some_step(steps, value) by {
        lemma_covered_members(steps, value);
    }
}

/// Coverage as used implies coverage as tested: a partition of the domain
/// has widths that add up to 256 and no two steps that overlap.
pub proof fn lemma_partition_covers(steps: Seq<StepView>)
    requires
        is_partition(steps),
    ensures
        covers(steps),
{
    assert forall|i: int, j: int| 0 <= i < j < steps.len() implies !overlap(
        #[trigger] steps[i],
        #[trigger] steps[j],
    ) by {
        if overlap(steps[i], steps[j]) {
            let value = if steps[i].start <= steps[j].start {
                steps[j].start as int
            } else {
                steps[i].start as int
            };
            assert(contains(steps[i], value) && contains(steps[j], value));
        }
    }
    lemma_covered_len(steps);
    lemma_int_range(0, 256);
    assert forall|value: int| set_int_range(0, 256).contains(value) implies covered(steps).contains(
        value,
    ) by {
        lemma_covered_members(steps, value);
    }
    assert(covered(steps) =~= set_int_range(0, 256));
}

/// A luminance lies in no more than one step of a list that covers the
/// domain, and it does lie in one.
pub proof fn lemma_unique_step(steps: Seq<StepView>, value: u8)
    requires
        covers(steps),
    ensures
        in_some_step(steps, value as int),
        forall|i: int, j: int|
            0 <= i < steps.len() && 0 <= j < steps.len() && #[trigger] contains(steps[i], value as int)
                && #[trigger] contains(steps[j], value as int) ==> i == j,
{
    lemma_covers_is_partition(steps);
}

/// The widths of the first `k` steps add up to no more than those of all,
/// and each further step adds its own width.
pub proof fn lemma_total_width_prefix(steps: Seq<StepView>, k: int)
    requires
        well_ordered(steps),
        0 <= k <= steps.len(),
    ensures
        k <= total_width(steps.take(k)) <= total_width(steps),
        k < steps.len() ==> total_width(steps.take(k + 1)) == total_width(steps.take(k)) + width(steps[k]),
    decreases steps.len() - k,
{
    if k < steps.len() {
        assert(steps.take(k + 1).drop_last() =~= steps.take(k));
        lemma_total_width_prefix(steps, k + 1);
        lemma_total_width_count(steps.take(k));
    } else {
        assert(steps.take(k) =~= steps);
        lemma_total_width_count(steps);
    }
}

/// Steps that are not reversed are at least one value wide each.
pub proof fn lemma_total_width_count(steps: Seq<StepView>)
    requires
        well_ordered(steps),
    ensures
        steps.len() <= total_width(steps),
    decreases steps.len(),
{
    if steps.len() > 0 {
        lemma_total_width_count(steps.drop_last());
    }
}

/// Tests whether `steps` cover the luminance domain exactly once.
pub fn check_coverage(steps: &Vec<Step>) -> (ok: bool)
    ensures
        ok == covers(steps.deep_view()),
{
    let ghost views = steps.deep_view();
    let n = steps.len();
    let mut total: u32 = 0;
    let mut i: usize = 0;
    while i < n
        invariant
            i <= n,
            n == steps@.len(),
            views == steps.deep_view(),
            well_ordered(views.take(i as int)),
            total == total_width(views.take(i as int)),
            total <= 256,
        decreases n - i,
    {
        let step = &steps[i];
        assert(views[i as int] == step@);
        if step.start > step.end {
            return false;
        }
        proof {
            let next = views.take(i + 1);
            assert(next.drop_last() =~= views.take(i as int));
            if well_ordered(views) {
                lemma_total_width_prefix(views, i + 1);
            }
        }
        total = total + (step.end - step.start) as u32 + 1;
        if total > 256 {
            return false;
        }
        i = i + 1;
    }
    assert(views.take(n as int) =~= views);
    if total != 256 {
        return false;
    }
    let mut i: usize = 0;
    while i < n
        invariant
            i <= n,
            n == steps@.len(),
            views == steps.deep_view(),
            forall|a: int, b: int| 0 <= a < b < n && a < i ==> !overlap(#[trigger] views[a], #[trigger] views[b]),
        decreases n - i,
    {
        let mut j: usize = i + 1;
        while j < n
            invariant
                i < j <= n,
                n == steps@.len(),
                views == steps.deep_view(),
                forall|b: int| i < b < j ==> !overlap(views[i as int], #[trigger] views[b]),
            decreases n - j,
        {
            if steps[i].start <= steps[j].end && steps[j].start <= steps[i].end {
                assert(overlap(views[i as int], views[j as int]));
                return false;
            }
            j = j + 1;
        }
        i = i + 1;
    }
    true
}

} // verus!
