//! The frame renderer: map every pixel to the plane, evaluate the
//! escape-time recurrence there, colour the count, and assemble the rows
//! into a raster. Rows are independent, so they are fanned out across a
//! worker pool and gathered back in row order.

use crate::color::color_iteration;
use crate::color::fill_color;
use crate::color::spec_color_iteration;
use crate::color::spec_fill_color;
use crate::escape::julia;
use crate::escape::julia_steps;
use crate::fixed::tdiv;
use crate::fixed::tdiv_i64;
use crate::fixed::FP_COORD_MAX;
use crate::fixed::FP_PARAM_MAX;
use crate::options::RenderOptions;
use crate::options::MAX_DIM;
use crate::raster::all_black;
use crate::raster::image_dims;
use crate::raster::image_pixels;
use crate::raster::raster_new;
use crate::raster::raster_put;
use crate::raster::Raster;
use rayon::prelude::IntoParallelIterator;
use rayon::prelude::ParallelIterator;
use vstd::arithmetic::div_mod::lemma_div_of0;
use vstd::arithmetic::div_mod::lemma_fundamental_div_mod;
use vstd::arithmetic::mul::lemma_mul_basics;
use vstd::prelude::*;

verus! {

/// Plane coordinate of pixel index `p` on an axis of `dim` pixels, for a
/// viewport `uw` plane units wide spread over `w` pixels:
/// `(p - dim/2) / (w/uw)`, computed as `(2p - dim) * uw / (2w)` and
/// truncated toward zero. The view is centred; the scale comes from the
/// horizontal axis on both axes.
pub open spec fn spec_map_coord(p: int, dim: int, w: int, uw: int) -> int {
    tdiv((2 * p - dim) * uw, 2 * w)
}

/// Pixel-to-plane mapping of one axis index.
pub fn map_coord(p: usize, dim: usize, w: usize, uw: i64) -> (c: i64)
    requires
        p < dim,
        dim <= MAX_DIM,
        1 <= w <= MAX_DIM,
        1 <= uw <= FP_PARAM_MAX,
    ensures
        c == spec_map_coord(p as int, dim as int, w as int, uw as int),
        -FP_COORD_MAX <= c <= FP_COORD_MAX,
{
    let t: i64 = 2 * (p as i64) - (dim as i64);
    proof {
        assert(-(dim as int) <= 2 * (p as int) - (dim as int) <= dim as int);
        assert(-2_097_152_000_000 <= t * uw <= 2_097_152_000_000) by (nonlinear_arith)
            requires
                -(dim as int) <= t <= dim as int,
                dim <= 32_768,
                1 <= uw <= 64_000_000,
        ;
    }
    let num: i64 = t * uw;
    let den: i64 = 2 * (w as i64);
    tdiv_i64(num, den)
}

/// The centre pixel `(width/2, height/2)` of an image with even pixel
/// dimensions maps exactly to the plane origin.
pub proof fn lemma_center_pixel_origin(q: RenderOptions)
    requires
        q.wf(),
        q.width % 2 == 0,
        q.height % 2 == 0,
    ensures
        spec_map_coord(
            q.width as int / 2,
            q.width as int,
            q.width as int,
            q.unit_width as int,
        ) == 0,
        spec_map_coord(
            q.height as int / 2,
            q.height as int,
            q.width as int,
            q.unit_width as int,
        ) == 0,
{
    lemma_fundamental_div_mod(q.width as int, 2);
    lemma_fundamental_div_mod(q.height as int, 2);
    lemma_mul_basics(q.unit_width as int);
    lemma_div_of0(2 * q.width as int);
    assert(2 * (q.width as int / 2) - q.width as int == 0);
    assert(2 * (q.height as int / 2) - q.height as int == 0);
}

/// The colour the finished raster owes pixel `(x, y)`: map it to the
/// plane, count recurrence steps there, and colour the count.
pub open spec fn spec_pixel(q: RenderOptions, color: (u8, u8, u8), x: int, y: int) -> (u8, u8, u8) {
    let sx = spec_map_coord(x, q.width as int, q.width as int, q.unit_width as int);
    let sy = spec_map_coord(y, q.height as int, q.width as int, q.unit_width as int);
    let n = julia_steps(sx, sy, q.cx as int, q.cy as int, q.max_iter as nat);
    if n == q.max_iter {
        spec_fill_color(q.fill_style, q.max_iter, color)
    } else {
        spec_color_iteration(n as u16, color)
    }
}

/// The pixel map a finished render owes: exactly the grid of the options,
/// each pixel coloured by `spec_pixel`.
pub open spec fn spec_render(q: RenderOptions, color: (u8, u8, u8)) -> Map<
    (int, int),
    (u8, u8, u8),
> {
    Map::<(int, int), (u8, u8, u8)>::new(
        |p: (int, int)| 0 <= p.0 < q.width && 0 <= p.1 < q.height,
        |p: (int, int)| spec_pixel(q, color, p.0, p.1),
    )
}

/// One raster row, coloured pixel by pixel.
pub fn render_row(q: &RenderOptions, color: (u8, u8, u8), y: usize) -> (row: Vec<(u8, u8, u8)>)
    requires
        q.wf(),
        y < q.height,
    ensures
        row@.len() == q.width,
        forall|x: int|
            0 <= x < q.width ==> #[trigger] row@[x] == spec_pixel(*q, color, x, y as int),
{
    let fill = fill_color(q.fill_style, q.max_iter, color);
    let sy = map_coord(y, q.height, q.width, q.unit_width);
    let mut row: Vec<(u8, u8, u8)> = Vec::new();
    let mut x: usize = 0;
    while x < q.width
        invariant
            q.wf(),
            y < q.height,
            x <= q.width,
            fill == spec_fill_color(q.fill_style, q.max_iter, color),
            sy == spec_map_coord(y as int, q.height as int, q.width as int, q.unit_width as int),
            -FP_COORD_MAX <= sy <= FP_COORD_MAX,
            row@.len() == x,
            forall|xx: int|
                0 <= xx < x ==> #[trigger] row@[xx] == spec_pixel(*q, color, xx, y as int),
        decreases q.width - x,
    {
        let sx = map_coord(x, q.width, q.width, q.unit_width);
        let i = julia(sx, sy, q.cx, q.cy, q.max_iter);
        let px = if i == q.max_iter {
            fill
        } else {
            color_iteration(i, color)
        };
        row.push(px);
        x = x + 1;
    }
    row
}

/// Relies on rayon's `into_par_iter().map(..).collect()` over the row
/// range: `collect` gathers the mapped rows back in index order whatever
/// order the pool ran them in, so entry `y` is what `render_row` returns
/// for `y`, and `render_row`'s contract pins that value.
#[verifier::external_body]
fn par_render_rows(q: &RenderOptions, color: (u8, u8, u8)) -> (rows: Vec<Vec<(u8, u8, u8)>>)
    requires
        q.wf(),
    ensures
        rows@.len() == q.height,
        forall|y: int| 0 <= y < q.height ==> #[trigger] rows@[y]@.len() == q.width,
        forall|x: int, y: int|
            0 <= y < q.height && 0 <= x < q.width ==> #[trigger] rows@[y]@[x] == spec_pixel(
                *q,
                color,
                x,
                y,
            ),
{
    (0..q.height).into_par_iter().map(|y| render_row(q, color, y)).collect()
}

/// Render a full frame: a fresh raster of exactly the requested size
/// whose every pixel carries the colour `spec_pixel` owes it. Rows are
/// computed in parallel and stitched back in row order.
pub fn render_julia(q: &RenderOptions, color: (u8, u8, u8)) -> (img: Raster)
    requires
        q.wf(),
    ensures
        image_dims(img) == (q.width as u32, q.height as u32),
        image_pixels(img) =~= spec_render(*q, color),
{
    let rows = par_render_rows(q, color);
    let mut img = raster_new(q.width as u32, q.height as u32);
    let mut y: usize = 0;
    while y < q.height
        invariant
            q.wf(),
            rows@.len() == q.height,
            forall|yy: int| 0 <= yy < q.height ==> #[trigger] rows@[yy]@.len() == q.width,
            forall|xx: int, yy: int|
                0 <= yy < q.height && 0 <= xx < q.width ==> #[trigger] rows@[yy]@[xx] == spec_pixel(
                    *q,
                    color,
                    xx,
                    yy,
                ),
            y <= q.height,
            image_dims(img) == (q.width as u32, q.height as u32),
            image_pixels(img).dom() == all_black(q.width as u32, q.height as u32).dom(),
            forall|a: int, b: int|
                0 <= a < q.width && 0 <= b < q.height ==> #[trigger] image_pixels(img)[(a, b)] == (
                if b < y {
                    spec_pixel(*q, color, a, b)
                } else {
                    (0u8, 0u8, 0u8)
                }),
        decreases q.height - y,
    {
        let row = &rows[y];
        let mut x: usize = 0;
        while x < q.width
            invariant
                q.wf(),
                y < q.height,
                row@.len() == q.width,
                forall|xx: int|
                    0 <= xx < q.width ==> #[trigger] row@[xx] == spec_pixel(*q, color, xx, y as int),
                x <= q.width,
                image_dims(img) == (q.width as u32, q.height as u32),
                image_pixels(img).dom() == all_black(q.width as u32, q.height as u32).dom(),
                forall|a: int, b: int|
                    0 <= a < q.width && 0 <= b < q.height ==> #[trigger] image_pixels(img)[(a, b)]
                        == (if b < y || (b == y && a < x) {
                        spec_pixel(*q, color, a, b)
                    } else {
                        (0u8, 0u8, 0u8)
                    }),
            decreases q.width - x,
        {
            raster_put(&mut img, x as u32, y as u32, row[x]);
            x = x + 1;
        }
        y = y + 1;
    }
    img
}

/// A finished render's pixel map covers exactly the raster grid.
pub proof fn lemma_render_covers_grid(q: RenderOptions, color: (u8, u8, u8))
    requires
        q.wf(),
    ensures
        spec_render(q, color).dom() == all_black(q.width as u32, q.height as u32).dom(),
{
    let left = spec_render(q, color).dom();
    let right = all_black(q.width as u32, q.height as u32).dom();
    assert forall|p: (int, int)| left.contains(p) == right.contains(p) by {
        assert(left.contains(p) == (0 <= p.0 < q.width && 0 <= p.1 < q.height));
        assert(right.contains(p) == (0 <= p.0 < q.width as u32 && 0 <= p.1 < q.height as u32));
    }
    assert(left =~= right);
}

/// The preview frame: a full render, with the recurrence constant's
/// marker composited on top when requested.
pub fn render_preview(q: &RenderOptions, color: (u8, u8, u8), preview_point: bool) -> (img: Raster)
    requires
        q.wf(),
    ensures
        image_dims(img) == (q.width as u32, q.height as u32),
        !preview_point ==> image_pixels(img) =~= spec_render(*q, color),
        preview_point ==> forall|a: int, b: int|
            0 <= a < q.width && 0 <= b < q.height ==> #[trigger] image_pixels(img)[(a, b)]
                == spec_overlay_pixel(*q, spec_render(*q, color)[(a, b)], a, b),
{
    let frame = render_julia(q, color);
    if preview_point {
        proof {
            lemma_render_covers_grid(*q, color);
        }
        render_c(q, frame)
    } else {
        frame
    }
}

/// The frame renderer is deterministic: two rasters that both satisfy its
/// contract for one configuration and colour agree in their dimensions and
/// in every pixel, so repeating a render reproduces the raster exactly.
pub proof fn lemma_render_deterministic(a: Raster, b: Raster, q: RenderOptions, color: (u8, u8, u8))
    requires
        image_dims(a) == (q.width as u32, q.height as u32),
        image_dims(b) == (q.width as u32, q.height as u32),
        image_pixels(a) == spec_render(q, color),
        image_pixels(b) == spec_render(q, color),
    ensures
        image_dims(a) == image_dims(b),
        image_pixels(a) == image_pixels(b),
{
}

/// Squared radius of the marker's fill disc: 0.03 plane units, in squared
/// fixed-point steps.
pub const MARKER_FILL_R2: i128 = 900_000_000;

/// Squared radius of the marker's ring: 0.04 plane units, squared.
pub const MARKER_RING_R2: i128 = 1_600_000_000;

/// Squared plane distance from pixel `(x, y)` to the recurrence constant,
/// through the same coordinate mapping the frame renderer uses.
pub open spec fn spec_marker_dist2(q: RenderOptions, x: int, y: int) -> int {
    let sx = spec_map_coord(x, q.width as int, q.width as int, q.unit_width as int);
    let sy = spec_map_coord(y, q.height as int, q.width as int, q.unit_width as int);
    (sx - q.cx) * (sx - q.cx) + (sy - q.cy) * (sy - q.cy)
}

/// What the overlay owes a pixel: the marker fill inside the first
/// radius, the ring colour inside the second, its base colour elsewhere.
pub open spec fn spec_overlay_pixel(q: RenderOptions, base: (u8, u8, u8), x: int, y: int) -> (
    u8,
    u8,
    u8,
) {
    let d2 = spec_marker_dist2(q, x, y);
    if d2 < MARKER_FILL_R2 {
        (0u8, 120u8, 120u8)
    } else {
        if d2 < MARKER_RING_R2 {
            (255u8, 255u8, 255u8)
        } else {
            base
        }
    }
}

/// The overlay alters nothing outside its two radius thresholds: a pixel
/// at or beyond the ring radius keeps its base colour exactly.
pub proof fn lemma_overlay_preserves_outside(q: RenderOptions, base: (u8, u8, u8), x: int, y: int)
    requires
        spec_marker_dist2(q, x, y) >= MARKER_RING_R2,
    ensures
        spec_overlay_pixel(q, base, x, y) == base,
{
}

/// Inserting at a key the domain already holds keeps the domain.
proof fn lemma_insert_keeps_dom(m: Map<(int, int), (u8, u8, u8)>, k: (int, int), v: (u8, u8, u8))
    requires
        m.dom().contains(k),
    ensures
        m.insert(k, v).dom() == m.dom(),
{
    assert forall|p: (int, int)|
        m.insert(k, v).dom().contains(p) == m.dom().contains(p) by {
        if p != k {
            assert(m.insert(k, v).dom().contains(p) == m.dom().contains(p));
        }
    }
    assert(m.insert(k, v).dom() =~= m.dom());
}

/// Composite the recurrence-constant marker onto a rendered raster: a
/// small disc at the constant's mapped position, ringed for contrast,
/// through exactly the frame renderer's coordinate mapping. Every other
/// pixel is left untouched.
pub fn render_c(q: &RenderOptions, img: Raster) -> (out: Raster)
    requires
        q.wf(),
        image_dims(img) == (q.width as u32, q.height as u32),
        image_pixels(img).dom() == all_black(q.width as u32, q.height as u32).dom(),
    ensures
        image_dims(out) == image_dims(img),
        image_pixels(out).dom() == image_pixels(img).dom(),
        forall|a: int, b: int|
            0 <= a < q.width && 0 <= b < q.height ==> #[trigger] image_pixels(out)[(a, b)]
                == spec_overlay_pixel(*q, image_pixels(img)[(a, b)], a, b),
{
    let mut img = img;
    let ghost base0 = image_pixels(img);
    let mut y: usize = 0;
    while y < q.height
        invariant
            q.wf(),
            y <= q.height,
            image_dims(img) == (q.width as u32, q.height as u32),
            base0.dom() == all_black((q.width as u32), (q.height as u32)).dom(),
            image_pixels(img).dom() == base0.dom(),
            forall|a: int, b: int|
                0 <= a < q.width && 0 <= b < q.height ==> #[trigger] image_pixels(img)[(a, b)] == (
                if b < y {
                    spec_overlay_pixel(*q, base0[(a, b)], a, b)
                } else {
                    base0[(a, b)]
                }),
        decreases q.height - y,
    {
        let sy = map_coord(y, q.height, q.width, q.unit_width);
        let mut x: usize = 0;
        while x < q.width
            invariant
                q.wf(),
                y < q.height,
                x <= q.width,
                sy == spec_map_coord(
                    y as int,
                    q.height as int,
                    q.width as int,
                    q.unit_width as int,
                ),
                -FP_COORD_MAX <= sy <= FP_COORD_MAX,
                image_dims(img) == (q.width as u32, q.height as u32),
                base0.dom() == all_black((q.width as u32), (q.height as u32)).dom(),
                image_pixels(img).dom() == base0.dom(),
                forall|a: int, b: int|
                    0 <= a < q.width && 0 <= b < q.height ==> #[trigger] image_pixels(img)[(a, b)]
                        == (if b < y || (b == y && a < x) {
                        spec_overlay_pixel(*q, base0[(a, b)], a, b)
                    } else {
                        base0[(a, b)]
                    }),
            decreases q.width - x,
        {
            let ghost pre = image_pixels(img);
            let sx = map_coord(x, q.width, q.width, q.unit_width);
            let dx: i64 = sx - q.cx;
            let dy: i64 = sy - q.cy;
            proof {
                assert((dx as i128) * (dx as i128) + (dy as i128) * (dy as i128)
                    <= 11_000_000_000_000_000_000_000_000) by (nonlinear_arith)
                    requires
                        -2_300_000_000_000 <= dx <= 2_300_000_000_000,
                        -2_300_000_000_000 <= dy <= 2_300_000_000_000,
                ;
                assert((dx as i128) * (dx as i128) >= 0 && (dy as i128) * (dy as i128) >= 0)
                    by (nonlinear_arith);
            }
            let d2: i128 = (dx as i128) * (dx as i128) + (dy as i128) * (dy as i128);
            if d2 < MARKER_FILL_R2 {
                raster_put(&mut img, x as u32, y as u32, (0, 120, 120));
                proof {
                    assert(all_black((q.width as u32), (q.height as u32)).dom().contains(
                        (x as int, y as int),
                    ));
                    lemma_insert_keeps_dom(pre, (x as int, y as int), image_pixels(img)[(x as int, y as int)]);
                }
            } else if d2 < MARKER_RING_R2 {
                raster_put(&mut img, x as u32, y as u32, (255, 255, 255));
                proof {
                    assert(all_black((q.width as u32), (q.height as u32)).dom().contains(
                        (x as int, y as int),
                    ));
                    lemma_insert_keeps_dom(pre, (x as int, y as int), image_pixels(img)[(x as int, y as int)]);
                }
            } else {
                proof {
                    assert(image_pixels(img)[(x as int, y as int)] == base0[(x as int, y as int)]);
                    assert(spec_overlay_pixel(*q, base0[(x as int, y as int)], x as int, y as int)
                        == base0[(x as int, y as int)]);
                }
            }
            x = x + 1;
        }
        y = y + 1;
    }
    img
}

} // verus!
