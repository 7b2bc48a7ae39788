//! Geometry: what the shapes of a scene decide without doing arithmetic on
//! coordinates.

pub mod cube;
pub mod flip_face;
pub mod medium;
pub mod pyramid;
pub mod rectangle;
pub mod rotate;
pub mod sdf;
pub mod sphere;
pub mod triangle;
