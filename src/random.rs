use vstd::prelude::*;
use rand::Rng;
use crate::ratio::{Percent, WHOLE};

verus! {

/// Relies on rand::Rng::gen_range on the thread-local generator: a value
/// drawn from the half-open range `lo..hi`. It panics on an empty range.
#[verifier::external_body]
fn draw_range(lo: i64, hi: i64) -> (r: i64)
    requires
        lo < hi,
    ensures
        lo <= r < hi,
{
    rand::thread_rng().gen_range(lo..hi)
}

/// Relies on rand::Rng::gen_ratio on the thread-local generator: `true` with
/// chance `numerator / denominator`. `Bernoulli::from_ratio` makes the draw
/// always `true` when the two are equal and its sample is always `false`
/// when `numerator` is 0. It panics when `denominator` is 0 or smaller than
/// `numerator`.
#[verifier::external_body]
fn draw_ratio(numerator: u32, denominator: u32) -> (r: bool)
    requires
        0 < denominator,
        numerator <= denominator,
    ensures
        numerator == 0 ==> !r,
        numerator == denominator ==> r,
{
    rand::thread_rng().gen_ratio(numerator, denominator)
}

/// Relies on rand::Rng::gen on the thread-local generator: a uniform `u64`.
#[verifier::external_body]
fn draw_u64() -> (r: u64) {
    rand::thread_rng().gen::<u64>()
}

/// A uniform integer in `lo..hi`.
pub fn uniform(lo: i64, hi: i64) -> (r: i64)
    requires
        lo < hi,
    ensures
        lo <= r < hi,
{
    draw_range(lo, hi)
}

/// A uniform integer in `lo..=hi`.
pub fn uniform_inclusive(lo: i64, hi: i64) -> (r: i64)
    requires
        lo <= hi < i64::MAX,
    ensures
        lo <= r <= hi,
{
    draw_range(lo, hi + 1)
}

/// A uniform position in a sequence of `len` items.
pub fn uniform_index(len: usize) -> (r: usize)
    requires
        0 < len,
    ensures
        r < len,
{
    // A sequence never holds more than `isize::MAX` items; the cap only
    // keeps the conversion total.
    let hi: i64 = if len as u64 <= i64::MAX as u64 {
        len as i64
    } else {
        i64::MAX
    };
    draw_range(0, hi) as usize
}

/// A uniform 64-bit value.
pub fn uniform_u64() -> u64 {
    draw_u64()
}

/// `true` with the chance that `p` gives; never at 0%, always at 100%.
pub fn chance(p: Percent) -> (r: bool)
    requires
        p.wf(),
    ensures
        p.basis_points == 0 ==> !r,
        p.basis_points == WHOLE ==> r,
{
    draw_ratio(p.basis_points, WHOLE)
}

/// A uniformly chosen member of a non-empty pool.
pub fn pick(pool: &Vec<i32>) -> (r: i32)
    requires
        pool.len() > 0,
    ensures
        pool@.contains(r),
{
    let i = uniform_index(pool.len());
    pool[i]
}

} // verus!
