//! A minimal analytic ray tracer over exact fixed-point arithmetic.
//!
//! One ray is cast per pixel through a pinhole camera and shaded against a
//! single implicit sphere or a vertical background gradient.  Coordinates and
//! color channels are fixed-point scalars (see [`fixed`]), so every stage of
//! the pipeline — vector algebra, ray evaluation, sphere intersection,
//! shading, and plain-text image encoding — is specified and proved exactly.

pub mod color;
pub mod fixed;
pub mod ray;
pub mod render;
pub mod trace;
pub mod vec3;

pub use color::Color;
pub use color::write_color;
pub use ray::Ray;
pub use vec3::Point3;
pub use vec3::Vector3;
