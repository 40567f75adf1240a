use julia_render::options::ConfigError;
use julia_render::options::FillStyle;
use julia_render::options::RenderOptions;
use julia_render::presets::default_color_presets;
use julia_render::presets::random_palette_color;

#[test]
fn default_options_values() {
    let d = RenderOptions::default();
    assert_eq!(d.width, 512);
    assert_eq!(d.height, 512);
    assert_eq!(d.unit_width, 4_000_000);
    assert_eq!(d.max_iter, 128);
    assert_eq!(d.cx, 400_000);
    assert_eq!(d.cy, -200_000);
    assert!(d.fill_style == FillStyle::Bright);
}

#[test]
fn default_options_validate() {
    assert_eq!(RenderOptions::default().validate(), Ok(()));
}

#[test]
fn validate_rejects_zero_width() {
    let mut q = RenderOptions::default();
    q.width = 0;
    assert_eq!(q.validate(), Err(ConfigError::WidthOutOfRange));
}

#[test]
fn validate_rejects_oversized_height() {
    let mut q = RenderOptions::default();
    q.height = 40_000;
    assert_eq!(q.validate(), Err(ConfigError::HeightOutOfRange));
}

#[test]
fn validate_rejects_zero_unit_width() {
    let mut q = RenderOptions::default();
    q.unit_width = 0;
    assert_eq!(q.validate(), Err(ConfigError::UnitWidthOutOfRange));
}

#[test]
fn validate_rejects_out_of_range_constant() {
    let mut q = RenderOptions::default();
    q.cx = 65_000_000;
    assert_eq!(q.validate(), Err(ConfigError::ConstantOutOfRange));
    let mut r = RenderOptions::default();
    r.cy = -65_000_000;
    assert_eq!(r.validate(), Err(ConfigError::ConstantOutOfRange));
}

#[test]
fn validate_rejects_zero_iteration_cap() {
    let mut q = RenderOptions::default();
    q.max_iter = 0;
    assert_eq!(q.validate(), Err(ConfigError::ZeroMaxIterations));
}

#[test]
fn export_options_scales_resolution_and_cap() {
    let q = RenderOptions::default();
    let e = q.export_options(3, 512);
    assert_eq!(e.width, 4096);
    assert_eq!(e.height, 4096);
    assert_eq!(e.max_iter, 512);
    assert_eq!(e.unit_width, q.unit_width);
    assert_eq!(e.cx, q.cx);
    assert_eq!(e.cy, q.cy);
    assert!(e.fill_style == q.fill_style);
}

#[test]
fn export_options_power_zero_keeps_size() {
    let q = RenderOptions::default();
    let e = q.export_options(0, 64);
    assert_eq!(e.width, 512);
    assert_eq!(e.height, 512);
    assert_eq!(e.max_iter, 64);
}

#[test]
fn six_default_presets() {
    let p = default_color_presets();
    let expected = [
        ("pink", (8, 2, 6)),
        ("blue", (2, 4, 8)),
        ("green", (2, 8, 4)),
        ("salmon", (8, 4, 4)),
        ("purple", (5, 2, 11)),
        ("yellow", (9, 6, 1)),
    ];
    assert_eq!(p.len(), 6);
    for (got, want) in p.iter().zip(expected.iter()) {
        assert_eq!(got.0, want.0);
        assert_eq!(got.1, want.1);
    }
}

#[test]
fn random_palette_color_keeps_low_bits() {
    assert_eq!(random_palette_color(0xFF, 0x10, 0x0F), (15, 0, 15));
    assert_eq!(random_palette_color(0, 0, 0), (0, 0, 0));
    let (r, g, b) = random_palette_color(0xAB, 0xCD, 0xEF);
    assert!(r <= 15 && g <= 15 && b <= 15);
}
