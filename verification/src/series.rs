//! A series: the steps that partition the luminance domain, in the order in
//! which they were declared, with the seed and the range of the blending
//! noise.

use crate::coverage::{
    check_coverage, contains, covers, lemma_total_width_count, lemma_unique_step,
};
use crate::error::TextureError;
use crate::noise::{
    draw_between, limit_of, noise_limit, percent_of, perturb, perturbed, pick_between,
    reported_percent, seeded,
};
use crate::step::{Step, StepView};
use rand::rngs::SmallRng;
use vstd::prelude::*;

verus! {

/// What a series is to a contract: its steps in declaration order, the
/// seed in effect, and the upper end of the noise range. The state of the
/// generator is no part of it.
pub struct SeriesView {
    pub steps: Seq<StepView>,
    pub seed: u64,
    pub noise: u8,
}

/// Steps that cover `0..=255` exactly once, with a seeded generator of
/// blending noise.
#[derive(Debug)]
pub struct Series {
    steps: Vec<Step>,
    rng: SmallRng,
    noise: u8,
    seed: u64,
}

/// The position of the first step that contains `value`, or `steps.len()`
/// where none does.
pub open spec fn first_containing(steps: Seq<StepView>, value: int) -> int
    decreases steps.len(),
{
    if steps.len() == 0 {
        0
    } else if contains(steps[0], value) {
        0
    } else {
        1 + first_containing(steps.skip(1), value)
    }
}

/// The legend index of a luminance: one more than the position of the
/// first step that contains it.
pub open spec fn tile_index(steps: Seq<StepView>, value: u8) -> int {
    first_containing(steps, value as int) + 1
}

/// Whether `index` is a legend index that activating `value` may give:
/// that of `value` moved up by some offset of the noise range.
pub open spec fn may_activate(series: SeriesView, value: u8, index: u16) -> bool {
    exists|noise: u8|
        noise <= series.noise && index == #[trigger] tile_index(series.steps, perturbed(value, noise))
}

/// `first_containing` is the one position before which no step contains
/// `value` and at which one does, or the end.
pub proof fn lemma_first_containing(steps: Seq<StepView>, value: int, at: int)
    requires
        0 <= at <= steps.len(),
        forall|j: int| 0 <= j < at ==> !contains(#[trigger] steps[j], value),
        at < steps.len() ==> contains(steps[at], value),
    ensures
        first_containing(steps, value) == at,
    decreases at,
{
    if at > 0 {
        lemma_first_containing(steps.skip(1), value, at - 1);
    }
}

/// In steps that cover the domain, the legend index of a luminance names
/// the one step that contains it.
pub proof fn lemma_tile_index(steps: Seq<StepView>, value: u8)
    requires
        covers(steps),
    ensures
        1 <= tile_index(steps, value) <= steps.len(),
        steps.len() <= 256,
        contains(steps[tile_index(steps, value) - 1], value as int),
        forall|i: int|
            0 <= i < steps.len() && #[trigger] contains(steps[i], value as int) ==> i == tile_index(
                steps,
                value,
            ) - 1,
{
    lemma_unique_step(steps, value);
    lemma_total_width_count(steps);
    let at = choose|i: int| 0 <= i < steps.len() && #[trigger] contains(steps[i], value as int);
    lemma_first_containing(steps, value as int, at);
}

/// Saturation: whatever offset is drawn, an activation gives the legend
/// index of a luminance that is neither below `value` nor above `value`
/// plus the noise limit, and never above 255. So the top of the domain
/// always activates the step that contains 255.
pub proof fn lemma_activation_saturates(series: SeriesView, value: u8, index: u16)
    requires
        may_activate(series, value, index),
    ensures
        value == 255 ==> index == tile_index(series.steps, 255),
        exists|moved: u8|
            value <= moved <= 255 && moved <= value + series.noise && index == #[trigger] tile_index(
                series.steps,
                moved,
            ),
{
    let noise = choose|noise: u8|
        noise <= series.noise && index == #[trigger] tile_index(series.steps, perturbed(value, noise));
}

impl View for Series {
    type V = SeriesView;

    closed spec fn view(&self) -> SeriesView {
        SeriesView { steps: self.steps.deep_view(), seed: self.seed, noise: self.noise }
    }
}

impl Series {
    /// What holds of every series: its steps cover the domain exactly
    /// once, and its seed is not 0.
    #[verifier::type_invariant]
    pub open spec fn valid(self) -> bool {
        covers(self@.steps) && self@.seed != 0
    }

    /// Builds a series from steps that cover `0..=255` exactly once, and
    /// refuses any other list. The series starts without blending noise and
    /// with a seed picked at random, which is never 0.
    pub fn try_from(value: Vec<Step>) -> (r: Result<Series, TextureError>)
        ensures
            covers(value.deep_view()) ==> (r matches Ok(series) && series@.steps == value.deep_view()
                && series@.noise == 0 && 1 <= series@.seed < u64::MAX),
            !covers(value.deep_view()) ==> r == Err::<Series, TextureError>(TextureError::PartialRange),
    {
        if !check_coverage(&value) {
            return Err(TextureError::PartialRange);
        }
        let seed = pick_between(1, u64::MAX);
        Ok(Series { steps: value, rng: seeded(seed), noise: 0, seed })
    }

    /// Sets the noise range to `0..=K`, where `K` is `factor` percent of
    /// 255, rounded down. A `seed` other than 0 replaces the seed and
    /// starts the generator anew from it; 0 keeps both.
    pub fn with_blending(self, seed: u64, factor: u8) -> (r: Series)
        requires
            factor <= 100,
        ensures
            r@.steps == self@.steps,
            r@.noise == noise_limit(factor as int),
            r@.seed == if seed != 0 { seed } else { self@.seed },
    {
        proof {
            use_type_invariant(&self);
        }
        let mut series = self;
        if seed != 0 {
            series.rng = seeded(seed);
            series.seed = seed;
        }
        series.noise = limit_of(factor);
        series
    }

    /// The seed in effect; never 0.
    pub fn seed(&self) -> (seed: u64)
        ensures
            seed == self@.seed,
            seed != 0,
    {
        proof {
            use_type_invariant(self);
        }
        self.seed
    }

    /// The blending percentage that is reported for the noise range. It is
    /// worked out from the range, not kept from what was asked for: the
    /// range's share of 255 in percent, rounded up.
    pub fn blending(&self) -> (percent: u8)
        ensures
            percent == reported_percent(self@.noise as int),
            percent <= 100,
    {
        percent_of(self.noise)
    }

    /// The steps in declaration order: the legend, whose index `i + 1`
    /// names the tile of the step at position `i`. They cover the domain.
    pub fn steps(&self) -> (steps: &Vec<Step>)
        ensures
            steps.deep_view() == self@.steps,
            covers(self@.steps),
            1 <= steps@.len() <= 256,
    {
        proof {
            use_type_invariant(self);
            lemma_tile_index(self@.steps, 0);
        }
        &self.steps
    }

    /// The legend index of `value` as it stands, without noise: that of the
    /// one step that contains it.
    pub fn locate(&self, value: u8) -> (index: u16)
        ensures
            index == tile_index(self@.steps, value),
            1 <= index <= self@.steps.len(),
            contains(self@.steps[index - 1], value as int),
    {
        let ghost views = self.steps.deep_view();
        proof {
            use_type_invariant(self);
            lemma_tile_index(views, value);
        }
        let mut i: usize = 0;
        while !(self.steps[i].start <= value && value <= self.steps[i].end)
            invariant
                views == self.steps.deep_view(),
                i < tile_index(views, value) <= views.len() <= 256,
                contains(views[tile_index(views, value) - 1], value as int),
            decreases views.len() - i,
        {
            i = i + 1;
        }
        proof {
            assert(views[i as int] == self.steps@[i as int]@);
        }
        (i + 1) as u16
    }

    /// The legend index of `value` moved up by the offset `noise`, held at
    /// 255: what an activation gives for which that offset is drawn.
    pub fn activate_with(&self, value: u8, noise: u8) -> (index: u16)
        ensures
            index == tile_index(self@.steps, perturbed(value, noise)),
            1 <= index <= self@.steps.len(),
            noise <= self@.noise ==> may_activate(self@, value, index),
    {
        self.locate(perturb(value, noise))
    }

    /// The legend index of `value` after blending. With an empty noise
    /// range that is the index of `value` itself and the generator is not
    /// drawn from; otherwise an offset of the noise range is drawn and
    /// `value` is moved up by it, held at 255.
    pub fn activate(&mut self, value: u8) -> (index: u16)
        ensures
            final(self)@ == old(self)@,
            may_activate(old(self)@, value, index),
            old(self)@.noise == 0 ==> index == tile_index(old(self)@.steps, value),
            1 <= index <= old(self)@.steps.len(),
    {
        proof {
            use_type_invariant(&*self);
        }
        if self.noise == 0 {
            self.activate_with(value, 0)
        } else {
            let noise = draw_between(&mut self.rng, 0, self.noise);
            self.activate_with(value, noise)
        }
    }
}

} // verus!
