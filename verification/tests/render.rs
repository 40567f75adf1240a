use julia_render::color::color_iteration;
use julia_render::escape::julia;
use julia_render::generate::map_coord;
use julia_render::generate::render_c;
use julia_render::generate::render_julia;
use julia_render::generate::render_preview;
use julia_render::options::FillStyle;
use julia_render::options::RenderOptions;

fn opts(
    width: usize,
    height: usize,
    max_iter: u16,
    cx: i64,
    cy: i64,
    fill_style: FillStyle,
) -> RenderOptions {
    RenderOptions {
        width,
        height,
        unit_width: 4_000_000,
        max_iter,
        cx,
        cy,
        fill_style,
    }
}

#[test]
fn center_pixel_maps_to_origin() {
    assert_eq!(map_coord(256, 512, 512, 4_000_000), 0);
    assert_eq!(map_coord(2, 4, 4, 4_000_000), 0);
    assert_eq!(map_coord(512, 1024, 1024, 6_000_000), 0);
}

#[test]
fn coordinate_mapping_is_centered() {
    // 4 pixels over 4.0 units: one unit per pixel, centre between them.
    assert_eq!(map_coord(0, 4, 4, 4_000_000), -2_000_000);
    assert_eq!(map_coord(1, 4, 4, 4_000_000), -1_000_000);
    assert_eq!(map_coord(3, 4, 4, 4_000_000), 1_000_000);
}

#[test]
fn escaped_start_counts_zero() {
    // |z| = 2 exactly: squared magnitude 4.0 already at the start.
    assert_eq!(julia(2_000_000, 0, 0, 0, 10), 0);
    // 1.5^2 + 1.5^2 = 4.5 >= 4.0.
    assert_eq!(julia(1_500_000, 1_500_000, 100_000, -100_000, 5), 0);
}

#[test]
fn bounded_start_counts_full_cap() {
    // The origin with constant zero never moves, so it never escapes.
    assert_eq!(julia(0, 0, 0, 0, 7), 7);
    assert_eq!(julia(0, 0, 0, 0, 512), 512);
}

#[test]
fn center_iteration_count_pinned() {
    // Regression pin: the image centre of the 512x512 render with
    // constant -0.981 - 0.277i and cap 512 maps to the plane origin and
    // yields this exact count.
    assert_eq!(julia(0, 0, -981_000, -277_000, 512), 60);
}

#[test]
fn color_ramp_exact_values() {
    assert_eq!(color_iteration(10, (12, 5, 10)), (120, 50, 100));
    assert_eq!(color_iteration(1, (12, 5, 10)), (12, 5, 10));
}

#[test]
fn color_zero_iterations_is_black() {
    assert_eq!(color_iteration(0, (12, 5, 10)), (0, 0, 0));
    assert_eq!(color_iteration(0, (255, 255, 255)), (0, 0, 0));
}

#[test]
fn color_saturates_not_wraps() {
    // Count caps at 255; channels clamp at 255 instead of wrapping.
    assert_eq!(color_iteration(300, (2, 1, 1)), (255, 255, 255));
    assert_eq!(color_iteration(100, (3, 2, 1)), (255, 200, 100));
}

#[test]
fn small_grid_black_fill_is_all_black() {
    // Border pixels escape immediately (count 0 -> black); the rest stay
    // bounded for the single allowed step and take the Black fill.
    let q = opts(4, 4, 1, 0, 0, FillStyle::Black);
    let img = render_julia(&q, (12, 5, 10));
    for y in 0..4u32 {
        for x in 0..4u32 {
            assert_eq!(img.pixel_at(x, y), Some((0, 0, 0)));
        }
    }
}

#[test]
fn small_grid_bright_fill_marks_interior() {
    // Same grid under Bright: bounded pixels take the colour of a point
    // that survived the full single iteration, which is the colour itself.
    let q = opts(4, 4, 1, 0, 0, FillStyle::Bright);
    let color = (12, 5, 10);
    let img = render_julia(&q, color);
    for y in 0..4u32 {
        for x in 0..4u32 {
            let expected = if x == 0 || y == 0 { (0, 0, 0) } else { color };
            assert_eq!(img.pixel_at(x, y), Some(expected), "pixel {x},{y}");
        }
    }
}

#[test]
fn bright_interior_equals_full_cap_ramp() {
    // The Bright fill equals the escape ramp evaluated at the cap.
    let q = opts(4, 4, 9, 0, 0, FillStyle::Bright);
    let color = (7, 3, 2);
    let img = render_julia(&q, color);
    assert_eq!(img.pixel_at(2, 2), Some(color_iteration(9, color)));
}

#[test]
fn render_dimensions_match_options() {
    let q = opts(5, 3, 4, 0, 0, FillStyle::Black);
    let img = render_julia(&q, (1, 1, 1));
    assert_eq!(img.width(), 5);
    assert_eq!(img.height(), 3);
    assert_eq!(img.pixel_at(5, 0), None);
    assert_eq!(img.pixel_at(0, 3), None);
}

#[test]
fn render_twice_is_byte_identical() {
    let q = opts(32, 32, 64, 400_000, -200_000, FillStyle::Bright);
    let color = (12, 5, 10);
    let a = render_julia(&q, color);
    let b = render_julia(&q, color);
    assert_eq!(a.to_rgb8_bytes(), b.to_rgb8_bytes());
}

#[test]
fn byte_buffer_is_row_major_rgb() {
    // 2x2 grid: only the bottom-right pixel stays bounded; Bright fill
    // gives it the ramp colour at the cap, doubled multipliers.
    let q = opts(2, 2, 2, 0, 0, FillStyle::Bright);
    let img = render_julia(&q, (3, 5, 7));
    let bytes = img.to_rgb8_bytes();
    assert_eq!(bytes.len(), 12);
    let mut expected = vec![0u8; 12];
    expected[9] = 6;
    expected[10] = 10;
    expected[11] = 14;
    assert_eq!(bytes, expected);
}

#[test]
fn overlay_marks_constant_and_nothing_else() {
    // Constant at the origin maps to the image centre; at 4 pixels per
    // unit both radii cover only that one pixel.
    let q = opts(16, 16, 8, 0, 0, FillStyle::Bright);
    let color = (2, 4, 8);
    let base = render_julia(&q, color);
    let overlaid = render_c(&q, render_julia(&q, color));
    for y in 0..16u32 {
        for x in 0..16u32 {
            if (x, y) == (8, 8) {
                assert_eq!(overlaid.pixel_at(x, y), Some((0, 120, 120)));
            } else {
                assert_eq!(
                    overlaid.pixel_at(x, y),
                    base.pixel_at(x, y),
                    "pixel {x},{y} altered"
                );
            }
        }
    }
}

#[test]
fn overlay_keeps_dimensions() {
    let q = opts(8, 6, 4, 100_000, 100_000, FillStyle::Black);
    let overlaid = render_c(&q, render_julia(&q, (1, 2, 3)));
    assert_eq!(overlaid.width(), 8);
    assert_eq!(overlaid.height(), 6);
}

#[test]
fn preview_without_marker_matches_plain_render() {
    let q = opts(12, 12, 6, 100_000, -300_000, FillStyle::Bright);
    let color = (4, 2, 9);
    let plain = render_julia(&q, color);
    let preview = render_preview(&q, color, false);
    assert_eq!(plain.to_rgb8_bytes(), preview.to_rgb8_bytes());
}

#[test]
fn preview_with_marker_matches_overlaid_render() {
    let q = opts(12, 12, 6, 0, 0, FillStyle::Bright);
    let color = (4, 2, 9);
    let overlaid = render_c(&q, render_julia(&q, color));
    let preview = render_preview(&q, color, true);
    assert_eq!(overlaid.to_rgb8_bytes(), preview.to_rgb8_bytes());
}

#[test]
fn minimal_raster_renders() {
    // A single pixel: its plane point lies at -2.0 - 2.0i, which escapes
    // immediately, so the lone pixel is black.
    let q = opts(1, 1, 4, 0, 0, FillStyle::Bright);
    let img = render_julia(&q, (9, 9, 9));
    assert_eq!(img.width(), 1);
    assert_eq!(img.height(), 1);
    assert_eq!(img.pixel_at(0, 0), Some((0, 0, 0)));
    assert_eq!(img.to_rgb8_bytes(), vec![0, 0, 0]);
}

#[test]
fn viewport_width_sets_the_scale() {
    // Halving the viewport width halves each pixel's plane coordinate.
    assert_eq!(map_coord(0, 4, 4, 2_000_000), -1_000_000);
    assert_eq!(map_coord(3, 4, 4, 2_000_000), 500_000);
}
