//! The discrete side of a small path tracer: the render settings, the grid of
//! eight-bit pixels that a render fills, and the bounce budget of a light path.
//!
//! Geometry and shading work on real numbers and are supplied by the caller:
//! a render asks a shading function for the colour of each pixel, and a light
//! path asks, segment by segment, whether its ray met a surface.

pub mod frame;
pub mod path;
pub mod settings;

pub use frame::Frame;
pub use frame::FrameView;
pub use frame::Rgb8;
pub use path::color;
pub use path::Light;
pub use settings::Settings;
pub use settings::VIEWPORT_HEIGHT;
