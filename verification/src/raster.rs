//! The raster: a dense row-major RGB image with 8 bits per channel.
//!
//! The buffer is an `image::RgbImage`, held in a private field and opaque
//! to the verifier, so a finished render can be rebuilt as an image for
//! encoding or display. What the buffer holds is named by `image_pixels`
//! and `image_dims`, and each buffer method the renderer calls sits behind
//! a trusted wrapper whose contract states what the image crate's source
//! shows of that method.

use crate::options::MAX_DIM;
use vstd::prelude::*;

verus! {

/// A width-by-height grid of RGB pixels. Ownership of a raster passes to
/// the caller when a render returns; only the overlay renderer mutates an
/// existing raster, and it takes the raster and hands it back.
#[verifier::external_body]
pub struct Raster {
    buf: image::RgbImage,
}

/// What the raster holds: the RGB triple at each in-range pixel coordinate.
pub uninterp spec fn image_pixels(r: Raster) -> Map<(int, int), (u8, u8, u8)>;

/// The raster's width and height in pixels.
pub uninterp spec fn image_dims(r: Raster) -> (u32, u32);

/// The pixel map a fresh raster is owed: every coordinate of the grid,
/// and nothing else, bound to black.
pub open spec fn all_black(width: u32, height: u32) -> Map<(int, int), (u8, u8, u8)> {
    Map::<(int, int), (u8, u8, u8)>::new(
        |p: (int, int)| 0 <= p.0 < width && 0 <= p.1 < height,
        |p: (int, int)| (0u8, 0u8, 0u8),
    )
}

/// Relies on `image::ImageBuffer::new`: allocates a `width` by `height`
/// RGB buffer with every sample zeroed, so every pixel starts black.
#[verifier::external_body]
pub(crate) fn raster_new(width: u32, height: u32) -> (r: Raster)
    requires
        width <= MAX_DIM,
        height <= MAX_DIM,
    ensures
        image_dims(r) == (width, height),
        image_pixels(r) == all_black(width, height),
{
    Raster { buf: image::RgbImage::new(width, height) }
}

/// Relies on `image::ImageBuffer::put_pixel`: overwrites the pixel at
/// `(x, y)`, which must lie inside the raster, and touches nothing else.
#[verifier::external_body]
pub(crate) fn raster_put(r: &mut Raster, x: u32, y: u32, rgb: (u8, u8, u8))
    requires
        x < image_dims(*old(r)).0,
        y < image_dims(*old(r)).1,
    ensures
        image_dims(*final(r)) == image_dims(*old(r)),
        image_pixels(*final(r)) == image_pixels(*old(r)).insert((x as int, y as int), rgb),
{
    r.buf.put_pixel(x, y, image::Rgb([rgb.0, rgb.1, rgb.2]));
}

/// Relies on `image::ImageBuffer::get_pixel`: reads the pixel at `(x, y)`,
/// which must lie inside the raster.
#[verifier::external_body]
pub(crate) fn raster_get(r: &Raster, x: u32, y: u32) -> (rgb: (u8, u8, u8))
    requires
        x < image_dims(*r).0,
        y < image_dims(*r).1,
    ensures
        rgb == image_pixels(*r)[(x as int, y as int)],
{
    let p = r.buf.get_pixel(x, y);
    (p.0[0], p.0[1], p.0[2])
}

/// Relies on `image::ImageBuffer::width`: the width the buffer was
/// created with.
#[verifier::external_body]
pub(crate) fn raster_width(r: &Raster) -> (w: u32)
    ensures
        w == image_dims(*r).0,
{
    r.buf.width()
}

/// Relies on `image::ImageBuffer::height`: the height the buffer was
/// created with.
#[verifier::external_body]
pub(crate) fn raster_height(r: &Raster) -> (h: u32)
    ensures
        h == image_dims(*r).1,
{
    r.buf.height()
}

/// In a row-major layout, an earlier pixel has a smaller linear index.
proof fn lemma_row_major_lt(a: int, b: int, x: int, y: int, w: int) by (nonlinear_arith)
    requires
        0 <= a < w,
        0 <= b,
        0 <= x,
        b < y || (b == y && a < x),
    ensures
        b * w + a < y * w + x,
{
}

impl Raster {
    /// Width of the raster in pixels.
    pub fn width(&self) -> (w: u32)
        ensures
            w == image_dims(*self).0,
    {
        raster_width(self)
    }

    /// Height of the raster in pixels.
    pub fn height(&self) -> (h: u32)
        ensures
            h == image_dims(*self).1,
    {
        raster_height(self)
    }

    /// The raster as one dense row-major byte buffer, three bytes per
    /// pixel in red, green, blue order: byte `3 * (y * width + x) + c`
    /// holds channel `c` of pixel `(x, y)`.
    pub fn to_rgb8_bytes(&self) -> (bytes: Vec<u8>)
        requires
            image_dims(*self).0 <= MAX_DIM,
            image_dims(*self).1 <= MAX_DIM,
        ensures
            bytes@.len() == 3 * image_dims(*self).0 * image_dims(*self).1,
            forall|x: int, y: int|
                0 <= x < image_dims(*self).0 && 0 <= y < image_dims(*self).1 ==> {
                    let p = #[trigger] image_pixels(*self)[(x, y)];
                    let base = 3 * (y * image_dims(*self).0 + x);
                    bytes@[base] == p.0 && bytes@[base + 1] == p.1 && bytes@[base + 2] == p.2
                },
    {
        let w = raster_width(self);
        let h = raster_height(self);
        let mut bytes: Vec<u8> = Vec::new();
        let mut y: u32 = 0;
        while y < h
            invariant
                (w, h) == image_dims(*self),
                w <= MAX_DIM,
                h <= MAX_DIM,
                y <= h,
                bytes@.len() == 3 * (y as int) * (w as int),
                forall|a: int, b: int|
                    0 <= a < w && 0 <= b < y ==> {
                        let p = #[trigger] image_pixels(*self)[(a, b)];
                        let base = 3 * (b * (w as int) + a);
                        bytes@[base] == p.0 && bytes@[base + 1] == p.1 && bytes@[base + 2] == p.2
                    },
            decreases h - y,
        {
            let mut x: u32 = 0;
            while x < w
                invariant
                    (w, h) == image_dims(*self),
                    w <= MAX_DIM,
                    h <= MAX_DIM,
                    y < h,
                    x <= w,
                    bytes@.len() == 3 * (y as int) * (w as int) + 3 * (x as int),
                    forall|a: int, b: int|
                        0 <= a < w && (0 <= b < y || (b == y && 0 <= a < x)) ==> {
                            let p = #[trigger] image_pixels(*self)[(a, b)];
                            let base = 3 * (b * (w as int) + a);
                            bytes@[base] == p.0 && bytes@[base + 1] == p.1 && bytes@[base + 2]
                                == p.2
                        },
                decreases w - x,
            {
                let p = raster_get(self, x, y);
                bytes.push(p.0);
                bytes.push(p.1);
                bytes.push(p.2);
                proof {
                    assert(3 * ((y as int) * (w as int) + (x as int)) == 3 * (y as int) * (w as int)
                        + 3 * (x as int)) by (nonlinear_arith);
                    assert forall|a: int, b: int|
                        0 <= a < w && (0 <= b < y || (b == y && 0 <= a < x + 1)) implies {
                        let pp = #[trigger] image_pixels(*self)[(a, b)];
                        let base = 3 * (b * (w as int) + a);
                        bytes@[base] == pp.0 && bytes@[base + 1] == pp.1 && bytes@[base + 2] == pp.2
                    } by {
                        if b < y || (b == y && a < x) {
                            lemma_row_major_lt(a, b, x as int, y as int, w as int);
                            assert(3 * (b * (w as int) + a) + 2 < 3 * (y as int) * (w as int) + 3 * (
                            x as int)) by (nonlinear_arith)
                                requires
                                    b * (w as int) + a < (y as int) * (w as int) + (x as int),
                            ;
                        }
                    }
                }
                x = x + 1;
            }
            proof {
                assert(3 * ((y + 1) as int) * (w as int) == 3 * (y as int) * (w as int) + 3 * (
                w as int)) by (nonlinear_arith);
            }
            y = y + 1;
        }
        proof {
            assert(3 * (h as int) * (w as int) == 3 * (w as int) * (h as int)) by (nonlinear_arith);
        }
        bytes
    }

    /// The pixel at `(x, y)`, or nothing when the coordinate lies outside
    /// the raster.
    pub fn pixel_at(&self, x: u32, y: u32) -> (r: Option<(u8, u8, u8)>)
        ensures
            x < image_dims(*self).0 && y < image_dims(*self).1 ==> r == Some(
                image_pixels(*self)[(x as int, y as int)],
            ),
            !(x < image_dims(*self).0 && y < image_dims(*self).1) ==> r is None,
    {
        let w = raster_width(self);
        let h = raster_height(self);
        if x < w && y < h {
            Some(raster_get(self, x, y))
        } else {
            None
        }
    }
}

} // verus!
