//! Render configuration: output size, viewport, recurrence constant,
//! iteration cap and the fill policy for bounded points.

use crate::fixed::FP_PARAM_MAX;
use vstd::arithmetic::mul::lemma_mul_inequality;
use vstd::arithmetic::power2::lemma_pow2_strictly_increases;
use vstd::arithmetic::power2::pow2;
use vstd::prelude::*;

verus! {

/// How points that never escape are coloured.
#[derive(Clone, Copy, Debug, PartialEq, Eq, Structural)]
pub enum FillStyle {
    /// Bounded points take the colour of a point that survived every
    /// iteration, so the interior stands out from the background.
    Bright,
    /// Bounded points are painted pure black.
    Black,
}

/// Largest pixel dimension the renderer accepts on either axis: keeps the
/// raster's byte length within address space even where `usize` is 32 bits.
pub const MAX_DIM: usize = 32_768;

/// One render request: everything the frame renderer needs besides the
/// colour triple. Plane quantities are in fixed-point steps of
/// `1 / FP_SCALE` plane units.
#[derive(Clone, Copy, Debug)]
pub struct RenderOptions {
    /// Output raster width in pixels.
    pub width: usize,
    /// Output raster height in pixels.
    pub height: usize,
    /// Width of the viewport in plane units, fixed-point.
    pub unit_width: i64,
    /// Iteration cap of the escape-time recurrence.
    pub max_iter: u16,
    /// Real part of the recurrence constant, fixed-point.
    pub cx: i64,
    /// Imaginary part of the recurrence constant, fixed-point.
    pub cy: i64,
    /// Colouring policy for points that never escape.
    pub fill_style: FillStyle,
}

/// Why a configuration was rejected before rendering.
#[derive(Clone, Copy, Debug, PartialEq, Eq, Structural)]
pub enum ConfigError {
    /// Width is zero or above `MAX_DIM`.
    WidthOutOfRange,
    /// Height is zero or above `MAX_DIM`.
    HeightOutOfRange,
    /// Viewport width is not positive or above `FP_PARAM_MAX`.
    UnitWidthOutOfRange,
    /// The recurrence constant lies outside `[-FP_PARAM_MAX, FP_PARAM_MAX]`.
    ConstantOutOfRange,
    /// The iteration cap is zero.
    ZeroMaxIterations,
}

impl RenderOptions {
    /// The configurations the rendering pipeline accepts: positive
    /// dimensions with room for a raster, a positive viewport width, and a
    /// recurrence constant within fixed-point range.
    pub open spec fn wf(self) -> bool {
        &&& 1 <= self.width <= MAX_DIM
        &&& 1 <= self.height <= MAX_DIM
        &&& 1 <= self.unit_width <= FP_PARAM_MAX
        &&& -FP_PARAM_MAX <= self.cx <= FP_PARAM_MAX
        &&& -FP_PARAM_MAX <= self.cy <= FP_PARAM_MAX
        &&& 1 <= self.max_iter
    }

    /// The outcome `validate` owes: the first out-of-range field in
    /// declaration order, or success on a well-formed configuration.
    pub open spec fn spec_validate(self) -> Result<(), ConfigError> {
        if !(1 <= self.width <= MAX_DIM) {
            Err(ConfigError::WidthOutOfRange)
        } else if !(1 <= self.height <= MAX_DIM) {
            Err(ConfigError::HeightOutOfRange)
        } else if !(1 <= self.unit_width <= FP_PARAM_MAX) {
            Err(ConfigError::UnitWidthOutOfRange)
        } else if !(-FP_PARAM_MAX <= self.cx <= FP_PARAM_MAX && -FP_PARAM_MAX <= self.cy
            <= FP_PARAM_MAX) {
            Err(ConfigError::ConstantOutOfRange)
        } else if self.max_iter == 0 {
            Err(ConfigError::ZeroMaxIterations)
        } else {
            Ok(())
        }
    }

    /// Fail-fast configuration check: succeeds exactly on well-formed
    /// configurations and otherwise names the first offending field.
    pub fn validate(&self) -> (r: Result<(), ConfigError>)
        ensures
            r == self.spec_validate(),
            r is Ok <==> self.wf(),
    {
        if !(1 <= self.width && self.width <= MAX_DIM) {
            Err(ConfigError::WidthOutOfRange)
        } else if !(1 <= self.height && self.height <= MAX_DIM) {
            Err(ConfigError::HeightOutOfRange)
        } else if !(1 <= self.unit_width && self.unit_width <= FP_PARAM_MAX) {
            Err(ConfigError::UnitWidthOutOfRange)
        } else if !(-FP_PARAM_MAX <= self.cx && self.cx <= FP_PARAM_MAX && -FP_PARAM_MAX <= self.cy
            && self.cy <= FP_PARAM_MAX) {
            Err(ConfigError::ConstantOutOfRange)
        } else if self.max_iter == 0 {
            Err(ConfigError::ZeroMaxIterations)
        } else {
            Ok(())
        }
    }

    /// The configuration an export job runs with: each pixel dimension
    /// doubled `res_power` times and the iteration cap replaced, the
    /// viewport and constant unchanged.
    pub fn export_options(&self, res_power: u8, max_iter: u16) -> (r: RenderOptions)
        requires
            self.wf(),
            1 <= max_iter,
            res_power <= 16,
            self.width * pow2(res_power as nat) <= MAX_DIM,
            self.height * pow2(res_power as nat) <= MAX_DIM,
        ensures
            r.width == self.width * pow2(res_power as nat),
            r.height == self.height * pow2(res_power as nat),
            r.max_iter == max_iter,
            r.unit_width == self.unit_width,
            r.cx == self.cx,
            r.cy == self.cy,
            r.fill_style == self.fill_style,
            r.wf(),
    {
        let mut res_mul: usize = 1;
        let mut i: u8 = 0;
        proof {
            vstd::arithmetic::power2::lemma2_to64();
        }
        while i < res_power
            invariant
                i <= res_power,
                res_power <= 16,
                res_mul == pow2(i as nat),
                self.width * pow2(res_power as nat) <= MAX_DIM,
                self.height * pow2(res_power as nat) <= MAX_DIM,
                1 <= self.width,
                1 <= self.height,
            decreases res_power - i,
        {
            proof {
                lemma_pow2_strictly_increases(i as nat, res_power as nat);
                lemma_mul_inequality(pow2(i as nat) as int, pow2(res_power as nat) as int, 2);
                lemma_mul_inequality(
                    1,
                    self.width as int,
                    pow2(res_power as nat) as int,
                );
                assert(pow2((i + 1) as nat) == 2 * pow2(i as nat)) by {
                    vstd::arithmetic::power2::lemma_pow2_unfold((i + 1) as nat);
                }
            }
            res_mul = res_mul * 2;
            i = i + 1;
        }
        proof {
            vstd::arithmetic::power2::lemma_pow2_pos(res_power as nat);
            lemma_mul_inequality(1, self.width as int, pow2(res_power as nat) as int);
            lemma_mul_inequality(1, self.height as int, pow2(res_power as nat) as int);
        }
        RenderOptions {
            width: self.width * res_mul,
            height: self.height * res_mul,
            max_iter,
            unit_width: self.unit_width,
            cx: self.cx,
            cy: self.cy,
            fill_style: self.fill_style,
        }
    }
}

impl Default for RenderOptions {
    /// The startup configuration: a square 512-pixel preview of the
    /// four-unit-wide viewport around the origin, constant `0.4 - 0.2i`,
    /// 128 iterations, bright fill.
    fn default() -> (d: Self)
        ensures
            d.width == 512,
            d.height == 512,
            d.unit_width == 4_000_000,
            d.max_iter == 128,
            d.cx == 400_000,
            d.cy == -200_000,
            d.fill_style == FillStyle::Bright,
            d.wf(),
    {
        Self {
            width: 512,
            height: 512,
            unit_width: 4_000_000,
            max_iter: 128,
            cx: 400_000,
            cy: -200_000,
            fill_style: FillStyle::Bright,
        }
    }
}

} // verus!
