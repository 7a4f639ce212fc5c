//! The random draws of the simulation: the jitter of an idle organism's
//! wander direction and the direction a new organism starts with.
//!
//! The draws themselves come from the `rand` crate's thread-local generator,
//! which panics if the operating system cannot seed it. Everything that
//! depends on a draw is also offered in a form that takes the drawn values as
//! arguments, so that a run can be replayed and needs no generator.

use vstd::prelude::*;
use crate::fixed::ONE;
use crate::vec2::Vec2;

verus! {

/// An idle organism's wander direction is perturbed with probability
/// `JITTER_ODDS_NUMERATOR / JITTER_ODDS_DENOMINATOR` per step.
pub const JITTER_ODDS_NUMERATOR: u32 = 1;

/// See `JITTER_ODDS_NUMERATOR`.
pub const JITTER_ODDS_DENOMINATOR: u32 = 20;

/// The largest perturbation of either coordinate: one half.
pub const JITTER_SPAN: i64 = 500_000;

/// Whether a perturbation is one that `draw_jitter` can produce.
pub open spec fn is_jitter(jitter: Option<Vec2>) -> bool {
    match jitter {
        Some(j) => -JITTER_SPAN <= j.x <= JITTER_SPAN && -JITTER_SPAN <= j.y <= JITTER_SPAN,
        None => true,
    }
}

/// Whether a direction is one that `draw_direction` can produce.
pub open spec fn is_initial_direction(dir: Vec2) -> bool {
    0 <= dir.x < ONE && 0 <= dir.y < ONE
}

/// Calls `rand::Rng::random_ratio` on the generator that `rand::rng`
/// returns. Trusted: nothing is claimed of the result beyond what the method
/// documents, that the ratio 1 always gives `true` and the ratio 0 always
/// gives `false`. The method panics on a zero denominator and on a numerator
/// above the denominator, which the precondition excludes.
#[verifier::external_body]
pub(crate) fn random_ratio(numerator: u32, denominator: u32) -> (hit: bool)
    requires
        denominator > 0,
        numerator <= denominator,
    ensures
        numerator == denominator ==> hit,
        numerator == 0 ==> !hit,
{
    rand::Rng::random_ratio(&mut rand::rng(), numerator, denominator)
}

/// Calls `rand::Rng::random_range` with the inclusive range `low..=high` on
/// the generator that `rand::rng` returns. Trusted: the result lies in the
/// range. The method panics on an empty range, which the precondition
/// excludes.
#[verifier::external_body]
pub(crate) fn random_range(low: i64, high: i64) -> (value: i64)
    requires
        low <= high,
    ensures
        low <= value <= high,
{
    rand::Rng::random_range(&mut rand::rng(), low..=high)
}

/// Draws this step's perturbation of a wander direction: none most of the
/// time, otherwise an offset of at most `JITTER_SPAN` in each coordinate.
pub fn draw_jitter() -> (jitter: Option<Vec2>)
    ensures
        is_jitter(jitter),
{
    jitter_when(random_ratio(JITTER_ODDS_NUMERATOR, JITTER_ODDS_DENOMINATOR))
}

/// Draws the wander direction of a new organism: each coordinate at least
/// zero and below `ONE`.
pub fn draw_direction() -> (dir: Vec2)
    ensures
        is_initial_direction(dir),
{
    let x: i64 = random_range(0, ONE - 1);
    let y: i64 = random_range(0, ONE - 1);
    Vec2 { x, y }
}

/// The perturbation of a step, given how the draw of the odds came out: none
/// where it did not fire, otherwise an offset drawn at random, of at most
/// `JITTER_SPAN` in each coordinate.
pub fn jitter_when(fired: bool) -> (jitter: Option<Vec2>)
    ensures
        jitter.is_some() == fired,
        is_jitter(jitter),
{
    if fired {
        let x: i64 = random_range(-JITTER_SPAN, JITTER_SPAN);
        let y: i64 = random_range(-JITTER_SPAN, JITTER_SPAN);
        Some(Vec2 { x, y })
    } else {
        None
    }
}

} // verus!
