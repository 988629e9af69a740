//! Blending noise: how a percentage becomes a range of offsets, how an
//! offset moves a luminance, and the generator the offsets are drawn from.

use rand::rngs::SmallRng;
use rand::{thread_rng, Rng, SeedableRng};
use vstd::prelude::*;

verus! {

/// The upper end `K` of the noise range `0..=K` for a blending percentage:
/// that share of 255, rounded down.
pub open spec fn noise_limit(percent: int) -> int {
    percent * 255 / 100
}

/// The percentage reported for a noise range `0..=limit`: its share of 255
/// in percent, rounded up.
pub open spec fn reported_percent(limit: int) -> int {
    (limit * 100 + 254) / 255
}

/// A luminance moved up by a noise offset, held at 255.
pub open spec fn perturbed(value: u8, noise: u8) -> u8 {
    if value + noise > 255 {
        255u8
    } else {
        (value + noise) as u8
    }
}

/// Computes the upper end of the noise range for a percentage.
pub fn limit_of(percent: u8) -> (limit: u8)
    requires
        percent <= 100,
    ensures
        limit == noise_limit(percent as int),
{
    let scaled: u16 = percent as u16 * 255;
    (scaled / 100) as u8
}

/// Computes the percentage reported for the noise range `0..=limit`.
pub fn percent_of(limit: u8) -> (percent: u8)
    ensures
        percent == reported_percent(limit as int),
        percent <= 100,
{
    let scaled: u16 = limit as u16 * 100 + 254;
    (scaled / 255) as u8
}

/// Moves a luminance up by a noise offset without passing 255.
pub fn perturb(value: u8, noise: u8) -> (moved: u8)
    ensures
        moved == perturbed(value, noise),
        moved >= value,
        moved <= 255,
{
    value.saturating_add(noise)
}

/// The percentage reported for the noise range of a percentage is that
/// percentage: rounding down and then up loses nothing, since one percent
/// is more than two luminance values wide.
pub proof fn lemma_percent_recovered(percent: int)
    requires
        0 <= percent <= 100,
    ensures
        0 <= noise_limit(percent) <= 255,
        reported_percent(noise_limit(percent)) == percent,
{
}

/// Saturation: noise moves a luminance up to the smaller of their sum and
/// 255. It never wraps round to a smaller value, 255 stays 255, and an
/// offset of 0 moves nothing.
pub proof fn lemma_perturbed_saturates(value: u8, noise: u8)
    ensures
        value <= perturbed(value, noise) <= 255,
        perturbed(value, noise) == if value + noise <= 255 { value + noise } else { 255 },
        perturbed(255, noise) == 255,
        perturbed(value, 0) == value,
{
}

/// `rand::rngs::SmallRng`, the generator that noise offsets are drawn from.
/// Its state is not modelled: the algorithm behind it differs from one
/// platform to another.
#[verifier::external_type_specification]
#[verifier::external_body]
pub struct ExSmallRng(SmallRng);

/// `SmallRng::seed_from_u64`: a generator started from `seed`. Nothing is
/// claimed of the generator.
#[verifier::external_body]
pub(crate) fn seeded(seed: u64) -> SmallRng {
    SmallRng::seed_from_u64(seed)
}

/// `Rng::gen_range` over `low..=high` on a `SmallRng`: the number drawn
/// lies in that range. Which number it is depends on the generator's state
/// and is not claimed. The call panics on an empty range only, which
/// `low <= high` leaves out.
#[verifier::external_body]
pub(crate) fn draw_between(rng: &mut SmallRng, low: u8, high: u8) -> (drawn: u8)
    requires
        low <= high,
    ensures
        low <= drawn <= high,
    no_unwind
{
    rng.gen_range(low..=high)
}

/// `Rng::gen_range` over `low..high` on `rand::thread_rng()`: a number
/// picked at random from `low` up to, but not including, `high`. The call
/// panics on an empty range, which `low < high` leaves out; it also
/// panics where the operating system has no entropy to start the thread's
/// generator from, which no argument can leave out.
#[verifier::external_body]
pub(crate) fn pick_between(low: u64, high: u64) -> (picked: u64)
    requires
        low < high,
    ensures
        low <= picked < high,
{
    thread_rng().gen_range(low..high)
}

} // verus!
