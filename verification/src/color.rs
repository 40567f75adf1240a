//! The colour mapper: turn an iteration count into an RGB triple.
//!
//! The colour argument is not a raw RGB value but a triple of small
//! per-channel multipliers: each channel is the iteration count, capped at
//! 255, times the multiplier, saturating at the channel maximum.

use crate::options::FillStyle;
use vstd::prelude::*;

verus! {

/// Byte product clamped to the channel maximum instead of wrapping.
pub open spec fn sat_mul_byte(a: u8, b: u8) -> u8 {
    if a * b > 255 {
        255u8
    } else {
        (a * b) as u8
    }
}

/// The iteration count capped at the largest channel value.
pub open spec fn iter_byte(iter: u16) -> u8 {
    if iter > 255 {
        255u8
    } else {
        iter as u8
    }
}

/// The colour owed to an escaping point: each channel is the capped
/// iteration count times its multiplier, saturating.
pub open spec fn spec_color_iteration(iter: u16, color: (u8, u8, u8)) -> (u8, u8, u8) {
    (
        sat_mul_byte(iter_byte(iter), color.0),
        sat_mul_byte(iter_byte(iter), color.1),
        sat_mul_byte(iter_byte(iter), color.2),
    )
}

/// The colour owed to a point that never escaped: pure black under the
/// `Black` policy, the full-cap escape colour under the `Bright` policy.
pub open spec fn spec_fill_color(fill_style: FillStyle, max_iter: u16, color: (u8, u8, u8)) -> (
    u8,
    u8,
    u8,
) {
    match fill_style {
        FillStyle::Black => (0u8, 0u8, 0u8),
        FillStyle::Bright => spec_color_iteration(max_iter, color),
    }
}

/// The colour owed to a pixel whose evaluation returned `iter` under cap
/// `max_iter`: the fill colour when the point never escaped, the escape
/// ramp otherwise.
pub open spec fn spec_pixel_color(
    iter: u16,
    max_iter: u16,
    fill_style: FillStyle,
    color: (u8, u8, u8),
) -> (u8, u8, u8) {
    if iter == max_iter {
        spec_fill_color(fill_style, max_iter, color)
    } else {
        spec_color_iteration(iter, color)
    }
}

/// Multiplication of two channel bytes, clamped to 255.
fn sat_mul(a: u8, b: u8) -> (r: u8)
    ensures
        r == sat_mul_byte(a, b),
        a == 0 ==> r == 0,
{
    proof {
        assert((a as int) * (b as int) <= 255 * 255 && (a == 0 ==> a * b == 0))
            by (nonlinear_arith)
            requires
                a <= 255,
                b <= 255,
        ;
    }
    let p: u16 = (a as u16) * (b as u16);
    if p > 255 {
        255
    } else {
        p as u8
    }
}

/// Colour of an escaping point after `iter` iterations: the count is
/// capped at 255 and each channel multiplier is applied saturating.
/// A count of zero always yields black.
pub fn color_iteration(iter: u16, color: (u8, u8, u8)) -> (rgb: (u8, u8, u8))
    ensures
        rgb == spec_color_iteration(iter, color),
        iter == 0 ==> rgb == (0u8, 0u8, 0u8),
{
    let i: u8 = if iter > 255 {
        255
    } else {
        iter as u8
    };
    (sat_mul(i, color.0), sat_mul(i, color.1), sat_mul(i, color.2))
}

/// Colour for points that never escape, per the fill policy.
pub fn fill_color(fill_style: FillStyle, max_iter: u16, color: (u8, u8, u8)) -> (rgb: (u8, u8, u8))
    ensures
        rgb == spec_fill_color(fill_style, max_iter, color),
{
    match fill_style {
        FillStyle::Black => (0, 0, 0),
        FillStyle::Bright => color_iteration(max_iter, color),
    }
}

/// Non-escaping points round-trip through the fill policy: under `Black`
/// they are exactly black, and under `Bright` they take exactly the colour
/// the escape ramp gives a count equal to the iteration cap.
pub proof fn lemma_fill_policy(max_iter: u16, color: (u8, u8, u8))
    ensures
        spec_pixel_color(max_iter, max_iter, FillStyle::Black, color) == (0u8, 0u8, 0u8),
        spec_pixel_color(max_iter, max_iter, FillStyle::Bright, color) == spec_color_iteration(
            max_iter,
            color,
        ),
{
}

} // verus!
