//! Bend detection: the registered corner vertices of a bendable surface,
//! nearest-vertex snapping, the ray the physics world is asked to cast, and
//! the per-step decision that appends a bend point on an occluded ray.

use vstd::prelude::*;

verus! {

use crate::{COORD_LIMIT, DIR_SCALE, MAX_POINTS, RAY_OFFSET};
use crate::math::{div_tz, lemma_div_tz_bound, mul_div};
use crate::neck::NeckPoints;
use crate::vec2::{
    dist, dist_sq, dist_sq_i64, dist_i64, lemma_dist_bounds, lemma_dist_dominates_coords, Vec2,
};

/// The candidate snap vertices of one bendable surface: the polygon corners
/// in the surface's local frame, and the same corners carried to world
/// coordinates each step.
pub struct NeckBendingPoints {
    pub points: Vec<Vec2>,
    pub transformed_points: Vec<Vec2>,
}

/// The index of the vertex nearest to `target`, scanning in order and
/// keeping the earliest vertex among ties.
pub open spec fn closest_idx(pts: Seq<Vec2>, target: Vec2) -> int
    decreases pts.len(),
{
    if pts.len() <= 1 {
        0
    } else {
        let j = closest_idx(pts.drop_last(), target);
        if dist_sq(target, pts.last()) < dist_sq(target, pts[j]) {
            pts.len() - 1
        } else {
            j
        }
    }
}

/// `closest_idx` names a valid index whose vertex is at minimal distance
/// from the target, and no earlier vertex is as close.
pub proof fn lemma_closest_idx_props(pts: Seq<Vec2>, target: Vec2)
    requires
        pts.len() >= 1,
    ensures
        0 <= closest_idx(pts, target) < pts.len(),
        forall|k: int| 0 <= k < pts.len() ==>
            dist_sq(target, pts[closest_idx(pts, target)])
                <= dist_sq(target, #[trigger] pts[k]),
        forall|k: int| 0 <= k < closest_idx(pts, target) ==>
            dist_sq(target, #[trigger] pts[k]) > dist_sq(target, pts[closest_idx(pts, target)]),
    decreases pts.len(),
{
    if pts.len() > 1 {
        lemma_closest_idx_props(pts.drop_last(), target);
        assert(forall|k: int| 0 <= k < pts.len() - 1 ==>
            pts.drop_last()[k] == #[trigger] pts[k]);
    }
}

impl NeckBendingPoints {
    /// All corner positions, local and world, are in bounds.
    pub open spec fn wf(self) -> bool {
        &&& forall|i: int| 0 <= i < self.points@.len() ==>
            (#[trigger] self.points@[i]).in_bounds()
        &&& forall|i: int| 0 <= i < self.transformed_points@.len() ==>
            (#[trigger] self.transformed_points@[i]).in_bounds()
    }

    /// The world-space vertex nearest to `target_point`; ties keep the
    /// vertex registered first. `None` only when the surface has no
    /// world-space vertices.
    pub fn closest_point(&self, target_point: Vec2) -> (r: Option<Vec2>)
        requires
            self.wf(),
            target_point.in_bounds(),
        ensures
            r is None <==> self.transformed_points@.len() == 0,
            self.transformed_points@.len() > 0 ==> r == Some(
                self.transformed_points@[closest_idx(self.transformed_points@, target_point)],
            ),
    {
        let ghost pts = self.transformed_points@;
        let n = self.transformed_points.len();
        if n == 0 {
            return None;
        }
        let mut best = self.transformed_points[0];
        let mut best_d = dist_sq_i64(target_point, best);
        proof {
            assert(pts.take(1).len() == 1);
            assert(pts.take(1)[0] == pts[0]);
            assert(closest_idx(pts.take(1), target_point) == 0);
        }
        let mut i: usize = 1;
        while i < n
            invariant
                self.wf(),
                target_point.in_bounds(),
                pts == self.transformed_points@,
                n == pts.len(),
                1 <= i <= n,
                0 <= closest_idx(pts.take(i as int), target_point) < i,
                best == pts[closest_idx(pts.take(i as int), target_point)],
                best_d == dist_sq(target_point, best),
            decreases n - i,
        {
            let ghost prefix = pts.take(i as int);
            let ghost longer = pts.take(i as int + 1);
            let p = self.transformed_points[i];
            let d = dist_sq_i64(target_point, p);
            proof {
                lemma_closest_idx_props(prefix, target_point);
                assert(longer.drop_last() =~= prefix);
                assert(longer.last() == pts[i as int]);
                let j = closest_idx(prefix, target_point);
                assert(longer[j] == pts[j]);
                lemma_closest_idx_props(longer, target_point);
            }
            if d < best_d {
                best = p;
                best_d = d;
            }
            i += 1;
        }
        proof {
            assert(pts.take(n as int) =~= pts);
        }
        Some(best)
    }

    /// The four corners of an axis-aligned rectangle with extents `hxhy`,
    /// centred on the origin of the surface's local frame, in the order
    /// top-left, top-right, bottom-right, bottom-left. No world-space
    /// vertices yet.
    pub fn from_rectangle(hxhy: Vec2) -> (b: NeckBendingPoints)
        requires
            0 <= hxhy.x <= COORD_LIMIT,
            0 <= hxhy.y <= COORD_LIMIT,
        ensures
            b.points@.len() == 4,
            b.points@[0] == (Vec2 { x: -(hxhy.x as int / 2) as i64, y: (hxhy.y as int / 2) as i64 }),
            b.points@[1] == (Vec2 { x: (hxhy.x as int / 2) as i64, y: (hxhy.y as int / 2) as i64 }),
            b.points@[2] == (Vec2 { x: (hxhy.x as int / 2) as i64, y: -(hxhy.y as int / 2) as i64 }),
            b.points@[3] == (Vec2 { x: -(hxhy.x as int / 2) as i64, y: -(hxhy.y as int / 2) as i64 }),
            b.transformed_points@.len() == 0,
            b.wf(),
    {
        let hx = ((hxhy.x as u64) / 2) as i64;
        let hy = ((hxhy.y as u64) / 2) as i64;
        let mut points: Vec<Vec2> = Vec::new();
        points.push(Vec2 { x: -hx, y: hy });
        points.push(Vec2 { x: hx, y: hy });
        points.push(Vec2 { x: hx, y: -hy });
        points.push(Vec2 { x: -hx, y: -hy });
        NeckBendingPoints { points, transformed_points: Vec::new() }
    }

    /// Recomputes the world-space vertices by translating every local corner
    /// by the surface's current position.
    pub fn transform_points(&mut self, translation: Vec2)
        requires
            old(self).wf(),
            forall|i: int| 0 <= i < old(self).points@.len() ==> {
                let p = #[trigger] old(self).points@[i];
                -COORD_LIMIT <= p.x + translation.x <= COORD_LIMIT
                    && -COORD_LIMIT <= p.y + translation.y <= COORD_LIMIT
            },
        ensures
            final(self).points@ == old(self).points@,
            final(self).transformed_points@.len() == old(self).points@.len(),
            forall|i: int| 0 <= i < old(self).points@.len() ==> {
                let p = old(self).points@[i];
                #[trigger] final(self).transformed_points@[i] == (Vec2 {
                    x: (p.x + translation.x) as i64,
                    y: (p.y + translation.y) as i64,
                })
            },
            final(self).wf(),
    {
        let mut world: Vec<Vec2> = Vec::new();
        let n = self.points.len();
        let mut i: usize = 0;
        while i < n
            invariant
                self.wf(),
                n == self.points@.len(),
                forall|k: int| 0 <= k < n ==> {
                    let p = #[trigger] self.points@[k];
                    -COORD_LIMIT <= p.x + translation.x <= COORD_LIMIT
                        && -COORD_LIMIT <= p.y + translation.y <= COORD_LIMIT
                },
                0 <= i <= n,
                world@.len() == i,
                forall|k: int| 0 <= k < i ==> {
                    let p = self.points@[k];
                    #[trigger] world@[k] == (Vec2 {
                        x: (p.x + translation.x) as i64,
                        y: (p.y + translation.y) as i64,
                    })
                },
            decreases n - i,
        {
            let p = self.points[i];
            world.push(Vec2 { x: p.x + translation.x, y: p.y + translation.y });
            i += 1;
        }
        self.transformed_points = world;
    }
}

/// What the library asks the physics world to cast: an origin nudged
/// RAY_OFFSET world units forward, a direction scaled by DIR_SCALE, and the
/// straight-line distance to the tether's moving end as the travel limit.
#[derive(Clone, Copy, Debug, PartialEq, Eq, Structural)]
pub struct BendRay {
    pub origin: Vec2,
    pub dir: Vec2,
    pub max_toi: i64,
}

/// What the physics world reported back: which registered surface the ray
/// hit, and the raw hit position.
#[derive(Clone, Copy, Debug, PartialEq, Eq, Structural)]
pub struct RayHit {
    pub surface: usize,
    pub point: Vec2,
}

/// The displacement from `a` toward `b`, scaled to length (about) `s`; zero
/// for coincident points.
pub open spec fn dir_scaled(a: Vec2, b: Vec2, s: int) -> (int, int) {
    let l = dist(a, b);
    if l == 0 {
        (0, 0)
    } else {
        (div_tz((b.x - a.x) * s, l), div_tz((b.y - a.y) * s, l))
    }
}

/// Both coordinates of a scaled direction are bounded by the scale.
pub proof fn lemma_dir_scaled_bounds(a: Vec2, b: Vec2, s: int)
    requires
        a.in_bounds(),
        b.in_bounds(),
        0 <= s,
    ensures
        -s <= dir_scaled(a, b, s).0 <= s,
        -s <= dir_scaled(a, b, s).1 <= s,
{
    let l = dist(a, b);
    lemma_dist_bounds(a, b);
    if l != 0 {
        lemma_dist_dominates_coords(a, b);
        let dx = b.x - a.x;
        let dy = b.y - a.y;
        assert(-(s * l) <= dx * s <= s * l) by (nonlinear_arith)
            requires -l <= dx <= l, 0 <= s;
        assert(-(s * l) <= dy * s <= s * l) by (nonlinear_arith)
            requires -l <= dy <= l, 0 <= s;
        lemma_div_tz_bound(dx * s, l, s);
        lemma_div_tz_bound(dy * s, l, s);
    }
}

/// The ray to cast this step: from the most recent bend point toward the
/// moving end, nudged forward so the surface the chain already rests on is
/// not re-detected, limited to the straight-line distance so a hit can never
/// lie beyond the moving end. No ray when the two coincide.
pub fn bend_ray(neck: &NeckPoints) -> (r: Option<BendRay>)
    requires
        neck.wf(),
    ensures
        r is None <==> dist(neck.points@.last(), neck.last_point) == 0,
        r matches Some(ray) ==> {
            let a = neck.points@.last();
            let b = neck.last_point;
            &&& ray.origin.x == a.x + dir_scaled(a, b, RAY_OFFSET as int).0
            &&& ray.origin.y == a.y + dir_scaled(a, b, RAY_OFFSET as int).1
            &&& ray.dir.x == dir_scaled(a, b, DIR_SCALE as int).0
            &&& ray.dir.y == dir_scaled(a, b, DIR_SCALE as int).1
            &&& ray.max_toi == dist(a, b)
        },
{
    proof {
        neck.lemma_stations_wf();
    }
    let a = neck.last_bend_point();
    let b = neck.last_point;
    let l = dist_i64(a, b);
    if l == 0 {
        return None;
    }
    proof {
        lemma_dir_scaled_bounds(a, b, RAY_OFFSET as int);
        lemma_dir_scaled_bounds(a, b, DIR_SCALE as int);
        lemma_dist_dominates_coords(a, b);
    }
    let dx = b.x - a.x;
    let dy = b.y - a.y;
    assert(-0x7fff_ffff_ffff_ffff <= dx * RAY_OFFSET <= 0x7fff_ffff_ffff_ffff) by (nonlinear_arith)
        requires -2_000_000 <= dx <= 2_000_000, RAY_OFFSET == 10;
    assert(-0x7fff_ffff_ffff_ffff <= dy * RAY_OFFSET <= 0x7fff_ffff_ffff_ffff) by (nonlinear_arith)
        requires -2_000_000 <= dy <= 2_000_000, RAY_OFFSET == 10;
    assert(-0x7fff_ffff_ffff_ffff <= dx * DIR_SCALE <= 0x7fff_ffff_ffff_ffff) by (nonlinear_arith)
        requires -2_000_000 <= dx <= 2_000_000, DIR_SCALE == 1024;
    assert(-0x7fff_ffff_ffff_ffff <= dy * DIR_SCALE <= 0x7fff_ffff_ffff_ffff) by (nonlinear_arith)
        requires -2_000_000 <= dy <= 2_000_000, DIR_SCALE == 1024;
    let nudge_x = mul_div(dx, RAY_OFFSET, l);
    let nudge_y = mul_div(dy, RAY_OFFSET, l);
    let dir_x = mul_div(dx, DIR_SCALE, l);
    let dir_y = mul_div(dy, DIR_SCALE, l);
    Some(BendRay {
        origin: Vec2 { x: a.x + nudge_x, y: a.y + nudge_y },
        dir: Vec2 { x: dir_x, y: dir_y },
        max_toi: l,
    })
}

/// Whether a reported hit leads to a bend: the hit surface must be a
/// registered bendable surface and must expose at least one world-space
/// vertex. Any other collider is transparent to the bend mechanism.
pub open spec fn hit_snaps(hit: Option<RayHit>, surfaces: Seq<NeckBendingPoints>) -> bool {
    match hit {
        Option::None => false,
        Option::Some(h) =>
            h.surface < surfaces.len()
                && surfaces[h.surface as int].transformed_points@.len() > 0,
    }
}

/// The vertex a snapping hit appends: the hit surface's world-space vertex
/// nearest to the raw hit position.
pub open spec fn snap_vertex(hit: Option<RayHit>, surfaces: Seq<NeckBendingPoints>) -> Vec2
    recommends
        hit_snaps(hit, surfaces),
{
    let h = hit->Some_0;
    let pts = surfaces[h.surface as int].transformed_points@;
    pts[closest_idx(pts, h.point)]
}

/// One bend-detection step, taking the physics world's answer for the ray of
/// `bend_ray`: on a hit against a registered surface with vertices, the
/// nearest vertex is appended to the chain; otherwise the chain is left
/// exactly as it was. The moving end is never touched.
pub fn neck_bend_system(
    neck: &mut NeckPoints,
    hit: Option<RayHit>,
    surfaces: &Vec<NeckBendingPoints>,
)
    requires
        old(neck).wf(),
        old(neck).points@.len() < MAX_POINTS,
        forall|i: int| 0 <= i < surfaces@.len() ==> (#[trigger] surfaces@[i]).wf(),
        hit matches Some(h) ==> h.point.in_bounds(),
    ensures
        hit_snaps(hit, surfaces@) ==> final(neck).points@
            == old(neck).points@.push(snap_vertex(hit, surfaces@)),
        !hit_snaps(hit, surfaces@) ==> final(neck).points@ == old(neck).points@,
        final(neck).last_point == old(neck).last_point,
        final(neck).wf(),
{
    match hit {
        Option::None => {},
        Option::Some(h) => {
            if h.surface < surfaces.len() {
                let snapped = surfaces[h.surface].closest_point(h.point);
                match snapped {
                    Option::Some(p) => {
                        proof {
                            let pts = surfaces@[h.surface as int].transformed_points@;
                            lemma_closest_idx_props(pts, h.point);
                        }
                        neck.add_point(p);
                    },
                    Option::None => {},
                }
            }
        },
    }
}

} // verus!
