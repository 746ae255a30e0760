//! Stand-in sources of the two per-day signals.
//!
//! Until real scoring is plugged in, both signals are drawn at random from
//! the interval from zero up to, but not including, one.

use vstd::prelude::*;
use rand::Rng;
use crate::numeric::fixed::{scale, Fixed, ONE_RAW};

verus! {

/// The thread-local generator of the `rand` crate.
#[verifier::external_type_specification]
#[verifier::external_body]
pub struct ExThreadRng(rand::rngs::ThreadRng);

/// Whether every score lies in the interval from zero up to one.
pub open spec fn unit_scores(scores: Seq<Fixed>) -> bool {
    forall|i: int| 0 <= i < scores.len() ==> 0 <= (#[trigger] scores[i])@ < scale()
}

/// Calls `rand::thread_rng`, which hands out the generator of the current
/// thread. Nothing is claimed of the generator.
#[verifier::external_body]
fn thread_generator() -> (generator: rand::rngs::ThreadRng) {
    rand::thread_rng()
}

/// Calls `Rng::gen_range` on the half-open range from `low` to `high`. The
/// crate panics on an empty range, which is excluded here; the value drawn
/// lies in the range, and which value it is depends on chance.
#[verifier::external_body]
fn draw_between(generator: &mut rand::rngs::ThreadRng, low: i64, high: i64) -> (r: i64)
    requires
        low < high,
    ensures
        low <= r < high,
{
    generator.gen_range(low..high)
}

/// A number drawn at random from zero up to, but not including, one.
fn draw_unit(generator: &mut rand::rngs::ThreadRng) -> (r: Fixed)
    ensures
        0 <= r@ < scale(),
{
    Fixed::from_raw(draw_between(generator, 0, ONE_RAW))
}

/// `num_days` numbers, each drawn at random from zero up to one.
fn random_scores(num_days: usize) -> (scores: Vec<Fixed>)
    ensures
        scores@.len() == num_days,
        unit_scores(scores@),
{
    let mut generator = thread_generator();
    let mut scores: Vec<Fixed> = Vec::new();
    let mut i: usize = 0;
    while i < num_days
        invariant
            i <= num_days,
            scores@.len() == i,
            unit_scores(scores@),
        decreases num_days - i,
    {
        let score = draw_unit(&mut generator);
        scores.push(score);
        i += 1;
    }
    scores
}

/// One sentiment score for each of `num_days` forecast days.
pub fn get_sentiment_scores(num_days: usize) -> (result: Result<Vec<Fixed>, String>)
    ensures
        result is Ok,
        result->Ok_0@.len() == num_days,
        unit_scores(result->Ok_0@),
{
    Ok(random_scores(num_days))
}

/// One action score for each of `num_days` forecast days.
pub fn get_optimal_actions(num_days: usize) -> (result: Result<Vec<Fixed>, String>)
    ensures
        result is Ok,
        result->Ok_0@.len() == num_days,
        unit_scores(result->Ok_0@),
{
    Ok(random_scores(num_days))
}

/// The sentiment scores of `num_days` forecast days.
pub fn analyze_sentiment(num_days: usize) -> (result: Result<Vec<Fixed>, String>)
    ensures
        result is Ok,
        result->Ok_0@.len() == num_days,
        unit_scores(result->Ok_0@),
{
    get_sentiment_scores(num_days)
}

/// The action scores of `num_days` forecast days.
pub fn train_reinforcement_learning(num_days: usize) -> (result: Result<Vec<Fixed>, String>)
    ensures
        result is Ok,
        result->Ok_0@.len() == num_days,
        unit_scores(result->Ok_0@),
{
    get_optimal_actions(num_days)
}

} // verus!
