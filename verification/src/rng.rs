//! The random draws that the games make.

use vstd::prelude::*;

verus! {

/// Largest magnitude of a bound handed to [`draw_between`].
pub const DRAW_LIMIT: i64 = 0x7fff_ffff;

/// Calls `macroquad::rand::srand`, which restarts the shared generator behind
/// [`draw_between`] from `seed`. Nothing is claimed of it.
#[verifier::external_body]
pub(crate) fn reseed(seed: u64) {
    macroquad::rand::srand(seed)
}

/// Calls `macroquad::rand::gen_range` on two whole numbers. The claim: the
/// draw lies between the two bounds, both included, whatever the generator's
/// state is.
#[verifier::external_body]
pub(crate) fn draw_between(low: i64, high: i64) -> (r: i64)
    requires
        -DRAW_LIMIT <= low <= high <= DRAW_LIMIT,
    ensures
        low <= r <= high,
{
    macroquad::rand::gen_range(low, high)
}

/// Calls `rand::Rng::gen_range` on the thread's generator with the half-open
/// range from `low` to `high`. The claim: the draw is at least `low` and less
/// than `high`.
#[verifier::external_body]
pub(crate) fn draw_below(low: i64, high: i64) -> (r: i64)
    requires
        low < high,
    ensures
        low <= r < high,
{
    rand::Rng::gen_range(&mut rand::thread_rng(), low..high)
}

} // verus!
