//! One simulated step of the tether, in the order the design fixes: the
//! moving end follows its driving input, bend detection may append a bend
//! point, the pivot swing re-anchors on the (possibly new) last bend point
//! and integrates the anchor, and the ribbon mesh and collision proxy are
//! recomputed from the final chain state.

use vstd::prelude::*;

verus! {

use crate::{COORD_LIMIT, MAX_POINTS, UV_SCALE};
use crate::bend::{hit_snaps, neck_bend_system, snap_vertex, NeckBendingPoints, RayHit};
use crate::circular::{angular_velocity_system, set_angular_point_system, AngularVelocity};
use crate::neck::NeckPoints;
use crate::ribbon::{is_ribbon_pair, perp_scaled, uv_fraction};
use crate::vec2::{dist, Vec2};

/// What one step hands back to the host: the advanced anchor position, the
/// ribbon buffers in triangle-strip order, and the collision segment.
pub struct StepOutput {
    pub anchor: Vec2,
    pub positions: Vec<Vec2>,
    pub uvs: Vec<Vec2>,
    pub collision: (Vec2, Vec2),
}

/// One full tether step. The chain only ever grows by the snapped vertex of
/// a reported hit; the pivot ends on the final chain's last bend point with
/// `speed * radius` conserved up to one truncation quantum; the collision
/// segment spans exactly the moving end and the last bend point of the
/// final chain; the mesh buffers describe the final chain.
pub fn tether_step(
    neck: &mut NeckPoints,
    angular: &mut AngularVelocity,
    anchor: Vec2,
    tip: Vec2,
    hit: Option<RayHit>,
    surfaces: &Vec<NeckBendingPoints>,
    thickness: i64,
) -> (out: StepOutput)
    requires
        old(neck).wf(),
        old(neck).points@.len() < MAX_POINTS,
        old(angular).wf(),
        anchor.in_bounds(),
        tip.in_bounds(),
        forall|i: int| 0 <= i < surfaces@.len() ==> (#[trigger] surfaces@[i]).wf(),
        hit matches Some(h) ==> h.point.in_bounds(),
        0 <= thickness <= COORD_LIMIT,
    ensures
        final(neck).last_point == tip,
        hit_snaps(hit, surfaces@) ==> final(neck).points@
            == old(neck).points@.push(snap_vertex(hit, surfaces@)),
        !hit_snaps(hit, surfaces@) ==> final(neck).points@ == old(neck).points@,
        final(neck).wf(),
        final(angular).point == final(neck).points@.last(),
        dist(anchor, final(neck).points@.last()) == 0 ==>
            final(angular).radius == old(angular).radius
                && final(angular).speed == old(angular).speed,
        dist(anchor, final(neck).points@.last()) > 0 ==> {
            let nr = dist(anchor, final(neck).points@.last());
            &&& final(angular).radius == nr
            &&& -nr < final(angular).speed * final(angular).radius
                - old(angular).speed * old(angular).radius < nr
        },
        final(angular).wf(),
        out.anchor.x == anchor.x
            + perp_scaled(final(angular).point, anchor, final(angular).speed as int).0,
        out.anchor.y == anchor.y
            + perp_scaled(final(angular).point, anchor, final(angular).speed as int).1,
        out.collision.0 == tip,
        out.collision.1 == final(neck).points@.last(),
        out.positions@.len() == 2 * final(neck).stations().len(),
        out.uvs@.len() == 2 * final(neck).stations().len(),
        forall|i: int| 0 <= i < final(neck).stations().len() ==>
            is_ribbon_pair(
                final(neck).stations(),
                thickness as int,
                i,
                (#[trigger] out.positions@[2 * i], out.positions@[2 * i + 1]),
            ),
        forall|i: int| 0 <= i < final(neck).stations().len() ==> {
            let v = uv_fraction(final(neck).stations(), i);
            (#[trigger] out.uvs@[2 * i]) == (Vec2 { x: 0, y: v as i64 })
                && out.uvs@[2 * i + 1] == (Vec2 { x: UV_SCALE, y: v as i64 })
        },
{
    neck.set_last_point(tip);
    neck_bend_system(neck, hit, surfaces);
    let pivot = neck.last_bend_point();
    set_angular_point_system(angular, anchor, pivot);
    let moved = angular_velocity_system(anchor, angular);
    let mesh = neck.triangulate(thickness);
    let collision = neck.collision_segment();
    StepOutput { anchor: moved, positions: mesh.0, uvs: mesh.1, collision }
}

} // verus!
