//! The discrete core of a stochastic path tracer: everything the renderer
//! decides by comparing, ordering, counting or choosing, with each decision
//! stated as a contract and proved.
//!
//! Coordinates and ray parameters enter this crate as order keys (see
//! [`vec3`]). Whatever is computed by arithmetic on them (intersection
//! formulas, radiance, sampling densities) is the caller's, and comes in as
//! keys, as flags, or through the functions that a search is handed.
//!
//! - [`aabb`]: bounding boxes, their union, the slab test.
//! - [`bvh`]: building and searching the bounding volume hierarchy.
//! - [`hittable_list`]: the plain list of objects.
//! - [`search`]: what a nearest hit is, and that hierarchy and list agree.
//! - [`hittable`]: what the single shapes and decorators decide.
//! - [`material`], [`pdf`], [`renderer`]: which surfaces emit and scatter,
//!   from which distribution a path goes on, and how an estimate is put
//!   together.
//! - [`perlin`], [`texture`]: the lattice of gradient noise and the layout of
//!   image textures.
//! - [`sort`]: the stable sort behind the hierarchy.
//! - [`rng`]: the one source of chance.

pub mod aabb;
pub mod bvh;
pub mod hit_record;
pub mod hittable;
pub mod hittable_list;
pub mod material;
pub mod pdf;
pub mod perlin;
pub mod renderer;
pub mod rng;
pub mod scenes;
pub mod search;
pub mod sort;
pub mod texture;
pub mod vec3;
