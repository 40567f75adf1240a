//! A quadratic Julia set renderer.
//!
//! Every quantity of the complex plane is carried in fixed-point steps of
//! one millionth of a plane unit, so that the whole rendering pipeline —
//! pixel coordinate mapping, the escape-time recurrence, colorisation,
//! raster assembly, marker overlay and the export job protocol — is
//! verified. The raster itself is an `image::RgbImage`, filled through a
//! small set of trusted wrappers around that crate.

pub mod color;
pub mod escape;
pub mod fixed;
pub mod generate;
pub mod options;
pub mod pipeline;
pub mod presets;
pub mod raster;

pub use color::color_iteration;
pub use generate::render_c;
pub use generate::render_julia;
pub use options::FillStyle;
pub use options::RenderOptions;
