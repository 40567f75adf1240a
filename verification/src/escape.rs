//! The escape-time evaluator: iterate `z' = z*z + c` from a plane point,
//! counting steps while the squared magnitude stays below four, up to a cap.

use crate::fixed::fp_mul;
use crate::fixed::fp_mul_exec;
use crate::fixed::lemma_fp_square_nonneg;
use crate::fixed::lemma_tdiv_mag_le;
use crate::fixed::lemma_tdiv_reverse;
use crate::fixed::FP_COORD_MAX;
use crate::fixed::FP_FOUR;
use crate::fixed::FP_PARAM_MAX;
use crate::fixed::FP_SCALE;
use vstd::prelude::*;

verus! {

/// Real part of one recurrence step: `x*x - y*y + cx`.
pub open spec fn step_re(x: int, y: int, cx: int) -> int {
    fp_mul(x, x) - fp_mul(y, y) + cx
}

/// Imaginary part of one recurrence step: `2*x*y + cy`, doubled after
/// the product is truncated back to scale.
pub open spec fn step_im(x: int, y: int, cy: int) -> int {
    2 * fp_mul(x, y) + cy
}

/// Squared magnitude `x*x + y*y` of a plane point, at scale.
pub open spec fn sq_mag(x: int, y: int) -> int {
    fp_mul(x, x) + fp_mul(y, y)
}

/// Iteration count of the escape-time recurrence: how many steps are taken
/// from `(x, y)` while the squared magnitude stays below four, capped at
/// `fuel`. A count equal to the cap means the point never escaped.
pub open spec fn julia_steps(x: int, y: int, cx: int, cy: int, fuel: nat) -> nat
    decreases fuel,
{
    if fuel == 0 {
        0
    } else if sq_mag(x, y) >= FP_FOUR {
        0
    } else {
        1 + julia_steps(step_re(x, y, cx), step_im(x, y, cy), cx, cy, (fuel - 1) as nat)
    }
}

/// The `k`-th iterate of the recurrence from a start point.
pub open spec fn orbit(x: int, y: int, cx: int, cy: int, k: nat) -> (int, int)
    decreases k,
{
    if k == 0 {
        (x, y)
    } else {
        let p = orbit(x, y, cx, cy, (k - 1) as nat);
        (step_re(p.0, p.1, cx), step_im(p.0, p.1, cy))
    }
}

/// Stepping first and orbiting after is orbiting one step further.
proof fn lemma_orbit_shift(x: int, y: int, cx: int, cy: int, k: nat)
    ensures
        orbit(step_re(x, y, cx), step_im(x, y, cy), cx, cy, k) == orbit(x, y, cx, cy, (k + 1) as nat),
    decreases k,
{
    let nx = step_re(x, y, cx);
    let ny = step_im(x, y, cy);
    if k == 0 {
        assert(orbit(x, y, cx, cy, 0) == (x, y));
        assert(orbit(nx, ny, cx, cy, 0) == (nx, ny));
        assert(orbit(x, y, cx, cy, 1) == (nx, ny));
    } else {
        lemma_orbit_shift(x, y, cx, cy, (k - 1) as nat);
        assert(orbit(nx, ny, cx, cy, k) == {
            let p = orbit(nx, ny, cx, cy, (k - 1) as nat);
            (step_re(p.0, p.1, cx), step_im(p.0, p.1, cy))
        });
    }
}

/// The count never exceeds the cap.
pub proof fn lemma_steps_le_fuel(x: int, y: int, cx: int, cy: int, fuel: nat)
    ensures
        julia_steps(x, y, cx, cy, fuel) <= fuel,
    decreases fuel,
{
    if fuel > 0 && sq_mag(x, y) < FP_FOUR {
        lemma_steps_le_fuel(step_re(x, y, cx), step_im(x, y, cy), cx, cy, (fuel - 1) as nat);
    }
}

/// A point whose squared magnitude already reaches four escapes before any
/// step is taken: the count is zero, which under a positive cap reads as
/// escaped.
pub proof fn lemma_escape_at_start(x: int, y: int, cx: int, cy: int, fuel: nat)
    requires
        sq_mag(x, y) >= FP_FOUR,
    ensures
        julia_steps(x, y, cx, cy, fuel) == 0,
{
}

/// A start whose whole orbit stays strictly inside the escape bound for
/// every step below the cap is counted for the full cap: the evaluator
/// returns exactly `fuel`, which reads as not escaped.
pub proof fn lemma_bounded_runs_full(x: int, y: int, cx: int, cy: int, fuel: nat)
    requires
        forall|k: nat|
            k < fuel ==> sq_mag(
                #[trigger] orbit(x, y, cx, cy, k).0,
                orbit(x, y, cx, cy, k).1,
            ) < FP_FOUR,
    ensures
        julia_steps(x, y, cx, cy, fuel) == fuel,
    decreases fuel,
{
    if fuel > 0 {
        assert(orbit(x, y, cx, cy, 0).0 == x && orbit(x, y, cx, cy, 0).1 == y);
        assert(sq_mag(x, y) < FP_FOUR);
        let nx = step_re(x, y, cx);
        let ny = step_im(x, y, cy);
        assert forall|k: nat| k < fuel - 1 implies sq_mag(
            #[trigger] orbit(nx, ny, cx, cy, k).0,
            orbit(nx, ny, cx, cy, k).1,
        ) < FP_FOUR by {
            lemma_orbit_shift(x, y, cx, cy, k);
            assert(orbit(x, y, cx, cy, (k + 1) as nat) == orbit(nx, ny, cx, cy, k));
        }
        lemma_bounded_runs_full(nx, ny, cx, cy, (fuel - 1) as nat);
    }
}

/// The count is the first escape index, capped: every step the evaluator
/// charges was taken strictly inside the escape bound, and a count below
/// the cap lands exactly on the first iterate at or beyond the bound.
pub proof fn lemma_count_is_first_escape(x: int, y: int, cx: int, cy: int, fuel: nat)
    ensures
        forall|k: nat|
            k < julia_steps(x, y, cx, cy, fuel) ==> sq_mag(
                #[trigger] orbit(x, y, cx, cy, k).0,
                orbit(x, y, cx, cy, k).1,
            ) < FP_FOUR,
        julia_steps(x, y, cx, cy, fuel) < fuel ==> sq_mag(
            orbit(x, y, cx, cy, julia_steps(x, y, cx, cy, fuel)).0,
            orbit(x, y, cx, cy, julia_steps(x, y, cx, cy, fuel)).1,
        ) >= FP_FOUR,
    decreases fuel,
{
    let n = julia_steps(x, y, cx, cy, fuel);
    if fuel == 0 {
    } else if sq_mag(x, y) >= FP_FOUR {
        assert(orbit(x, y, cx, cy, 0).0 == x && orbit(x, y, cx, cy, 0).1 == y);
    } else {
        let nx = step_re(x, y, cx);
        let ny = step_im(x, y, cy);
        let m = julia_steps(nx, ny, cx, cy, (fuel - 1) as nat);
        lemma_count_is_first_escape(nx, ny, cx, cy, (fuel - 1) as nat);
        assert(n == m + 1);
        assert forall|k: nat| k < n implies sq_mag(
            #[trigger] orbit(x, y, cx, cy, k).0,
            orbit(x, y, cx, cy, k).1,
        ) < FP_FOUR by {
            if k == 0 {
                assert(orbit(x, y, cx, cy, 0).0 == x && orbit(x, y, cx, cy, 0).1 == y);
            } else {
                lemma_orbit_shift(x, y, cx, cy, (k - 1) as nat);
                assert(orbit(x, y, cx, cy, k) == orbit(nx, ny, cx, cy, (k - 1) as nat));
            }
        }
        if n < fuel {
            lemma_orbit_shift(x, y, cx, cy, m);
            assert(orbit(x, y, cx, cy, (m + 1) as nat) == orbit(nx, ny, cx, cy, m));
        }
    }
}

/// Bounds carried across one recurrence step, taken before the step while
/// the squared magnitude is still below four.
proof fn lemma_step_bounds(x: int, y: int, px: int, py: int)
    requires
        px == fp_mul(x, x),
        py == fp_mul(y, y),
        px + py < FP_FOUR,
    ensures
        0 <= px < FP_FOUR,
        0 <= py < FP_FOUR,
        -2_000_001 <= fp_mul(x, y) <= 2_000_001,
{
    lemma_fp_square_nonneg(x);
    lemma_fp_square_nonneg(y);
    lemma_tdiv_reverse(x * x, FP_SCALE as int);
    lemma_tdiv_reverse(y * y, FP_SCALE as int);
    assert(x * x < FP_SCALE * (px + 1));
    assert(y * y < FP_SCALE * (py + 1));
    assert(2 * (x * y) <= x * x + y * y && -(2 * (x * y)) <= x * x + y * y) by (nonlinear_arith);
    assert(-2_000_000_500_000 <= x * y <= 2_000_000_500_000) by (nonlinear_arith)
        requires
            2 * (x * y) <= x * x + y * y,
            -(2 * (x * y)) <= x * x + y * y,
            x * x < FP_SCALE * (px + 1),
            y * y < FP_SCALE * (py + 1),
            0 <= px,
            0 <= py,
            px + py < FP_FOUR,
            FP_SCALE == 1_000_000,
            FP_FOUR == 4_000_000,
    ;
    lemma_tdiv_mag_le(x * y, 2_000_000_500_000, FP_SCALE as int);
}

/// Escape-time evaluation of one plane point: the number of recurrence
/// steps survived below the escape bound, capped at `max_iter`. The result
/// equals `max_iter` exactly when the point never escaped within the cap.
pub fn julia(x0: i64, y0: i64, cx: i64, cy: i64, max_iter: u16) -> (iter: u16)
    requires
        -FP_COORD_MAX <= x0 <= FP_COORD_MAX,
        -FP_COORD_MAX <= y0 <= FP_COORD_MAX,
        -FP_PARAM_MAX <= cx <= FP_PARAM_MAX,
        -FP_PARAM_MAX <= cy <= FP_PARAM_MAX,
    ensures
        iter == julia_steps(x0 as int, y0 as int, cx as int, cy as int, max_iter as nat),
        iter <= max_iter,
{
    let mut x: i64 = x0;
    let mut y: i64 = y0;
    let mut iter: u16 = 0;
    let mut px: i64 = fp_mul_exec(x, x);
    let mut py: i64 = fp_mul_exec(y, y);
    while (px as i128) + (py as i128) < (FP_FOUR as i128) && iter < max_iter
        invariant
            -FP_COORD_MAX <= x <= FP_COORD_MAX,
            -FP_COORD_MAX <= y <= FP_COORD_MAX,
            -FP_PARAM_MAX <= cx <= FP_PARAM_MAX,
            -FP_PARAM_MAX <= cy <= FP_PARAM_MAX,
            px == fp_mul(x as int, x as int),
            py == fp_mul(y as int, y as int),
            iter <= max_iter,
            julia_steps(x0 as int, y0 as int, cx as int, cy as int, max_iter as nat) == iter
                + julia_steps(x as int, y as int, cx as int, cy as int, (max_iter - iter) as nat),
        decreases max_iter - iter,
    {
        proof {
            lemma_step_bounds(x as int, y as int, px as int, py as int);
        }
        let nx: i64 = px - py + cx;
        let pxy: i64 = fp_mul_exec(x, y);
        let ny: i64 = 2 * pxy + cy;
        proof {
            assert(julia_steps(x as int, y as int, cx as int, cy as int, (max_iter - iter) as nat)
                == 1 + julia_steps(
                nx as int,
                ny as int,
                cx as int,
                cy as int,
                (max_iter - iter - 1) as nat,
            ));
        }
        x = nx;
        y = ny;
        iter = iter + 1;
        px = fp_mul_exec(x, x);
        py = fp_mul_exec(y, y);
    }
    proof {
        if px + py >= FP_FOUR {
            lemma_escape_at_start(
                x as int,
                y as int,
                cx as int,
                cy as int,
                (max_iter - iter) as nat,
            );
        }
    }
    iter
}

} // verus!
