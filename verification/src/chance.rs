//! Uniform draws and the rates they are held against.
//!
//! A draw is a `u32`: one of [`UNIT`] equally likely values, standing for the
//! point `draw / UNIT` of the half-open unit interval. A rate is a `u64`
//! counted in the same steps, so a rate of [`UNIT`] is certainty and a rate of
//! zero never happens under a strict comparison.

use vstd::prelude::*;

verus! {

/// The number of distinct draws; as a rate, certainty.
pub const UNIT: u64 = 4294967296;

/// The draw lies strictly below `weight` times the rate.
pub open spec fn is_under(draw: u32, rate: u64, weight: nat) -> bool {
    (draw as int) < (rate as int) * (weight as int)
}

/// The draw does not exceed the rate.
pub open spec fn is_within(draw: u32, rate: u64) -> bool {
    draw as int <= rate as int
}

/// Holds the draw against a rate that counts `weight` times.
pub fn under(draw: u32, rate: u64, weight: u8) -> (hit: bool)
    ensures
        hit == is_under(draw, rate, weight as nat),
{
    assert(0 <= (rate as int) * (weight as int) <= 0xffff_ffff_ffff_ffff * 0xff)
        by (nonlinear_arith)
        requires
            0 <= rate <= 0xffff_ffff_ffff_ffff,
            0 <= weight <= 0xff,
    ;
    let threshold: u128 = (rate as u128) * (weight as u128);
    (draw as u128) < threshold
}

/// Holds the draw against a rate, the rate itself included.
pub fn within(draw: u32, rate: u64) -> (hit: bool)
    ensures
        hit == is_within(draw, rate),
{
    (draw as u64) <= rate
}

} // verus!
