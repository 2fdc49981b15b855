//! Chance. The numbers come from the thread-local generator of the `rand`
//! crate; nothing is known of them but their bounds.

use vstd::prelude::*;

verus! {

/// Draws a number from `low..=high` with `rand::Rng::gen_range`, on the
/// generator that `rand::thread_rng` hands out. The contract claims only that
/// the number lies within the bounds; `gen_range` panics on an empty range,
/// which `low <= high` rules out.
#[verifier::external_body]
pub(crate) fn random_between(low: u64, high: u64) -> (r: u64)
    requires
        low <= high,
    ensures
        low <= r <= high,
{
    rand::Rng::gen_range(&mut rand::thread_rng(), low..=high)
}

/// Draws a truth value with `rand::Rng::gen_ratio`, which is true with
/// probability `numerator / denominator`. It draws through
/// `Bernoulli::from_ratio`, whose documentation says that the result is
/// certain where the numerator is zero or equals the denominator; the
/// contract claims no more. It panics on a zero denominator and on a
/// numerator above the denominator, which the preconditions rule out.
#[verifier::external_body]
pub(crate) fn random_ratio(numerator: u32, denominator: u32) -> (b: bool)
    requires
        denominator > 0,
        numerator <= denominator,
    ensures
        numerator == denominator ==> b,
        numerator == 0 ==> !b,
{
    rand::Rng::gen_ratio(&mut rand::thread_rng(), numerator, denominator)
}

/// A number from `low..=high`, drawn at random.
pub fn roll(low: u32, high: u32) -> (r: u32)
    requires
        low <= high,
    ensures
        low <= r <= high,
{
    random_between(low as u64, high as u64) as u32
}

/// An index below `len`, drawn at random.
pub fn roll_index(len: usize) -> (r: usize)
    requires
        len > 0,
    ensures
        r < len,
{
    random_between(0, (len - 1) as u64) as usize
}

/// How far a quantity grows over `levels` levels at `rate` thousandths per
/// level, starting from `start`. The value is cut to a whole number after
/// each level and never exceeds `cap`.
pub open spec fn grown(start: nat, levels: nat, rate: nat, cap: nat) -> nat
    decreases levels,
{
    if levels == 0 {
        if start <= cap {
            start
        } else {
            cap
        }
    } else {
        let next = grown(start, (levels - 1) as nat, rate, cap) * rate / 1000;
        if next <= cap {
            next
        } else {
            cap
        }
    }
}

/// The largest value that a quantity is grown to: `u32::MAX` in millionths.
pub const GROWTH_CAP: u64 = 4_294_967_295_000_000;

/// Grows `start` over `levels` levels at `rate` thousandths per level, as
/// `grown` says, under the cap `GROWTH_CAP`.
pub fn grow(start: u64, levels: u32, rate: u32) -> (g: u64)
    requires
        rate <= 4000,
    ensures
        g == grown(start as nat, levels as nat, rate as nat, GROWTH_CAP as nat),
        g <= GROWTH_CAP,
{
    let mut value: u64 = if start <= GROWTH_CAP {
        start
    } else {
        GROWTH_CAP
    };
    let mut done: u32 = 0;
    while done < levels
        invariant
            done <= levels,
            rate <= 4000,
            value <= GROWTH_CAP,
            value == grown(start as nat, done as nat, rate as nat, GROWTH_CAP as nat),
        decreases levels - done,
    {
        assert(value * rate <= 4_294_967_295_000_000 * 4000) by (nonlinear_arith)
            requires
                value <= 4_294_967_295_000_000,
                rate <= 4000,
        ;
        let next: u64 = value * (rate as u64) / 1000;
        value = if next <= GROWTH_CAP {
            next
        } else {
            GROWTH_CAP
        };
        done = done + 1;
    }
    value
}

} // verus!
