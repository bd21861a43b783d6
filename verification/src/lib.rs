//! Dynamic tether library.
//!
//! A tether connects a moving anchor (a swinging character) to a moving tip
//! (a cast point). While the tether exists it wraps around solid geometry:
//! whenever the straight segment from the last bend point to the tip is
//! occluded by a bendable surface, the hit is snapped to the surface's nearest
//! registered corner and appended to the bend-point chain. From the chain the
//! library derives a thickness-extruded ribbon mesh with arc-length texture
//! coordinates, a two-point collision proxy for the physics world, and a
//! pivot-swing motion of the anchor around the most recent bend point that
//! conserves angular momentum as the swing radius changes.
//!
//! All geometry is carried in fixed-point integer coordinates so that every
//! operation has an exact, machine-checked meaning; the host application
//! chooses the world-unit scale. The physics world (ray casting) and the
//! render graph (mesh consumption) are external collaborators: the library
//! computes the ray to cast and consumes the reported hit, but never performs
//! the query itself.

use vstd::prelude::*;

pub mod bend;
pub mod circular;
pub mod math;
pub mod neck;
pub mod ribbon;
pub mod step;
pub mod vec2;

verus! {

/// Magnitude bound on every coordinate handed to the library.
pub const COORD_LIMIT: i64 = 1_000_000;

/// Bound on the number of bend points a single chain may accumulate.
pub const MAX_POINTS: usize = 100_000;

/// Largest distance between two in-bounds points:
/// the integer square root of `(2 * COORD_LIMIT)^2 + (2 * COORD_LIMIT)^2`.
pub const DIST_MAX: i64 = 2_828_427;

/// Fixed-point scale of direction vectors: a unit direction has Euclidean
/// norm (about) DIR_SCALE.
pub const DIR_SCALE: i64 = 1024;

/// Fixed-point scale of texture coordinates: the fraction 1.0 is UV_SCALE.
pub const UV_SCALE: i64 = 1024;

/// How far the bend-detection ray origin is nudged forward along the ray, in
/// world units, so the surface the chain already rests on is not re-detected.
pub const RAY_OFFSET: i64 = 10;

/// Magnitude bound on an angular speed.
pub const SPEED_CAP: i64 = 1_000_000_000_000;

/// Magnitude bound on the conserved product `speed * radius`.
pub const MOMENTUM_CAP: i64 = 1_000_000_000_000;

} // verus!
