//! Verified core of a small path tracer.
//!
//! The geometry and shading arithmetic is floating point and lives with the
//! program that drives a render; this library holds the parts of the renderer
//! whose correctness is about control and data rather than arithmetic: how a
//! ray path resolves as it bounces (`transport`), the scene container
//! (`hittable`), and the raster image with its text encoding (`image`).
pub mod hittable;
pub mod image;
pub mod transport;
