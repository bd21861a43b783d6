//! Two-dimensional positions in fixed-point integer coordinates.

use vstd::prelude::*;

verus! {

use crate::COORD_LIMIT;
use crate::DIST_MAX;
use crate::math::{isqrt, lemma_sqrt_floor_le, sqrt_floor};

/// A 2D position or displacement. The host application decides how many
/// integer steps make one world unit.
#[derive(Clone, Copy, Debug, PartialEq, Eq, Structural)]
pub struct Vec2 {
    pub x: i64,
    pub y: i64,
}

impl Vec2 {
    /// Both coordinates are within the magnitude the library accepts.
    pub open spec fn in_bounds(self) -> bool {
        -COORD_LIMIT <= self.x <= COORD_LIMIT && -COORD_LIMIT <= self.y <= COORD_LIMIT
    }

    pub fn new(x: i64, y: i64) -> (v: Vec2)
        ensures
            v.x == x,
            v.y == y,
    {
        Vec2 { x, y }
    }
}

/// Squared Euclidean distance between two points.
pub open spec fn dist_sq(a: Vec2, b: Vec2) -> int {
    (b.x - a.x) * (b.x - a.x) + (b.y - a.y) * (b.y - a.y)
}

/// Euclidean distance, rounded down to an integer.
pub open spec fn dist(a: Vec2, b: Vec2) -> int {
    sqrt_floor(dist_sq(a, b) as nat) as int
}

/// A squared distance is a sum of squares, hence nonnegative, and bounded by
/// `2 * (2 * COORD_LIMIT)^2` for in-bounds points.
pub proof fn lemma_dist_sq_bounds(a: Vec2, b: Vec2)
    requires
        a.in_bounds(),
        b.in_bounds(),
    ensures
        0 <= dist_sq(a, b) <= 8_000_000_000_000,
{
    let dx = b.x - a.x;
    let dy = b.y - a.y;
    assert(0 <= dx * dx <= 4_000_000_000_000) by (nonlinear_arith)
        requires -2_000_000 <= dx <= 2_000_000;
    assert(0 <= dy * dy <= 4_000_000_000_000) by (nonlinear_arith)
        requires -2_000_000 <= dy <= 2_000_000;
}

/// The distance between in-bounds points is between 0 and DIST_MAX, and it is
/// zero exactly when the points coincide.
pub proof fn lemma_dist_bounds(a: Vec2, b: Vec2)
    requires
        a.in_bounds(),
        b.in_bounds(),
    ensures
        0 <= dist(a, b) <= DIST_MAX,
        dist(a, b) == 0 <==> a == b,
{
    lemma_dist_sq_bounds(a, b);
    let n = dist_sq(a, b) as nat;
    lemma_sqrt_floor_le(n, DIST_MAX as nat);
    assert(8_000_000_000_000 < (DIST_MAX + 1) * (DIST_MAX + 1)) by (nonlinear_arith)
        requires DIST_MAX == 2_828_427;
    crate::math::lemma_sqrt_floor(n);
    if a == b {
        assert(n == 0);
    }
    if dist(a, b) == 0 {
        let s = sqrt_floor(n);
        assert((s + 1) * (s + 1) == 1) by (nonlinear_arith)
            requires s == 0;
        assert(n < 1);
        let dx = b.x - a.x;
        let dy = b.y - a.y;
        assert(dx == 0 && dy == 0) by (nonlinear_arith)
            requires dx * dx + dy * dy == 0;
    }
}

/// Each coordinate difference is bounded by the distance in magnitude.
pub proof fn lemma_dist_dominates_coords(a: Vec2, b: Vec2)
    requires
        a.in_bounds(),
        b.in_bounds(),
    ensures
        -dist(a, b) <= b.x - a.x <= dist(a, b),
        -dist(a, b) <= b.y - a.y <= dist(a, b),
{
    lemma_dist_sq_bounds(a, b);
    let n = dist_sq(a, b) as nat;
    let l = dist(a, b);
    crate::math::lemma_sqrt_floor(n);
    let dx = b.x - a.x;
    let dy = b.y - a.y;
    assert(-l <= dx <= l && -l <= dy <= l) by (nonlinear_arith)
        requires
            0 <= l,
            dx * dx + dy * dy < (l + 1) * (l + 1),
    ;
}

/// Squared distance, computed exactly.
pub fn dist_sq_i64(a: Vec2, b: Vec2) -> (r: i64)
    requires
        a.in_bounds(),
        b.in_bounds(),
    ensures
        r == dist_sq(a, b),
{
    proof {
        lemma_dist_sq_bounds(a, b);
    }
    let dx = b.x - a.x;
    let dy = b.y - a.y;
    assert(0 <= dx * dx <= 4_000_000_000_000) by (nonlinear_arith)
        requires -2_000_000 <= dx <= 2_000_000;
    assert(0 <= dy * dy <= 4_000_000_000_000) by (nonlinear_arith)
        requires -2_000_000 <= dy <= 2_000_000;
    dx * dx + dy * dy
}

/// Distance, rounded down to an integer.
pub fn dist_i64(a: Vec2, b: Vec2) -> (r: i64)
    requires
        a.in_bounds(),
        b.in_bounds(),
    ensures
        r == dist(a, b),
        0 <= r <= DIST_MAX,
        r == 0 <==> a == b,
{
    proof {
        lemma_dist_sq_bounds(a, b);
        lemma_dist_bounds(a, b);
    }
    let sq = dist_sq_i64(a, b);
    isqrt(sq as u64) as i64
}

} // verus!
