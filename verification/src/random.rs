use vstd::prelude::*;

verus! {

/// Calls `macroquad::rand::gen_range::<usize>(0, n)` (the `quad-rand` generator).
///
/// The generator draws a 32-bit number `g`, forms `r = g / 2^32` in `f64` (so `0 <= r < 1`),
/// and returns `(0 + n * r)` truncated to `usize`; for `n` up to a million the product is
/// exact in `f64`, so the result lies in `0..n`. Which value comes out depends on the
/// generator's hidden state, which no clause states.
#[verifier::external_body]
pub(crate) fn random_below(n: usize) -> (r: usize)
    requires
        0 < n <= 1_000_000,
    ensures
        r < n,
{
    macroquad::rand::gen_range(0usize, n)
}

/// Calls `macroquad::rand::gen_range::<i32>(low, high)` (the `quad-rand` generator).
///
/// The generator forms `low + (high - low) * r` in `f64` with `0 <= r < 1` and truncates it
/// toward zero to `i32`. Truncation never goes below `low`; it stays below `high` only when
/// `high` is positive (for `high <= 0` a value just under `high` would truncate up to `high`),
/// so the item admits positive `high` only. For bounds within a million of zero the result
/// then lies in `low..high`. Which value comes out depends on the generator's hidden state,
/// which no clause states.
#[verifier::external_body]
pub(crate) fn random_between(low: i32, high: i32) -> (r: i32)
    requires
        low < high,
        0 < high,
        -1_000_000 <= low,
        high <= 1_000_000,
    ensures
        low <= r < high,
{
    macroquad::rand::gen_range(low, high)
}

} // verus!
