//! Pivot swing: the anchor orbits the tether's most recent bend point.
//! The product `speed * radius` — the angular momentum of a point mass on a
//! variable-length arm — is conserved whenever the pivot point moves.

use vstd::prelude::*;

verus! {

use crate::{DIST_MAX, MOMENTUM_CAP, SPEED_CAP};
use crate::math::{div_tz, lemma_div_tz_bound, lemma_div_tz_error, mul_div};
use crate::ribbon::perp_scaled;
use crate::vec2::{dist, dist_i64, lemma_dist_bounds, lemma_dist_dominates_coords, Vec2};

/// The swing state of the anchored character: the orbit radius, the signed
/// angular speed (the sign encodes the rotation direction), and the pivot
/// position being orbited.
pub struct AngularVelocity {
    pub radius: i64,
    pub speed: i64,
    pub point: Vec2,
}

impl AngularVelocity {
    /// Radius, speed and the conserved product are within the library's
    /// caps, and the pivot is in bounds.
    pub open spec fn wf(self) -> bool {
        &&& 0 <= self.radius <= DIST_MAX
        &&& -SPEED_CAP <= self.speed <= SPEED_CAP
        &&& -MOMENTUM_CAP <= self.speed * self.radius <= MOMENTUM_CAP
        &&& self.point.in_bounds()
    }

    /// The swing state established when a tether is created: the pivot is
    /// the cast hit point, the radius is the anchor's distance to it, and
    /// the speed is the configured base value scaled by the inverse radius,
    /// with its sign chosen by a handedness test of the pivot against the
    /// fixed diagonal reference direction. A coincident anchor and pivot
    /// give a resting swing.
    pub fn on_attach(anchor: Vec2, hit_point: Vec2, base_speed: i64) -> (av: AngularVelocity)
        requires
            anchor.in_bounds(),
            hit_point.in_bounds(),
            0 <= base_speed <= MOMENTUM_CAP,
        ensures
            av.point == hit_point,
            av.radius == dist(anchor, hit_point),
            av.radius == 0 ==> av.speed == 0,
            av.radius > 0 ==> av.speed == if hit_point.x + hit_point.y < 0 {
                div_tz(base_speed as int, av.radius as int)
            } else {
                -div_tz(base_speed as int, av.radius as int)
            },
            av.wf(),
    {
        proof {
            lemma_dist_bounds(anchor, hit_point);
        }
        let radius = dist_i64(anchor, hit_point);
        let speed: i64 = if radius == 0 {
            0
        } else {
            proof {
                lemma_div_tz_error(base_speed as int, radius as int);
                let q = div_tz(base_speed as int, radius as int);
                assert(0 <= q * radius <= base_speed) by (nonlinear_arith)
                    requires
                        0 <= q,
                        0 < radius,
                        0 <= base_speed - q * radius,
                ;
                assert((-q) * radius == -(q * radius)) by (nonlinear_arith);
            }
            let magnitude = mul_div(base_speed, 1, radius);
            if hit_point.x + hit_point.y < 0 {
                magnitude
            } else {
                -magnitude
            }
        };
        proof {
            if radius == 0 {
                assert(speed * radius == 0) by (nonlinear_arith)
                    requires speed == 0;
            }
        }
        AngularVelocity { radius, speed, point: hit_point }
    }
}

/// One swing integration step: the anchor advances along the perpendicular
/// of the pivot-to-anchor arm, scaled to the angular speed. A constant
/// angular rate, not re-normalized to the circle; an anchor standing on its
/// pivot stays put.
pub fn angular_velocity_system(position: Vec2, angular: &AngularVelocity) -> (moved: Vec2)
    requires
        position.in_bounds(),
        angular.wf(),
    ensures
        moved.x == position.x + perp_scaled(angular.point, position, angular.speed as int).0,
        moved.y == position.y + perp_scaled(angular.point, position, angular.speed as int).1,
{
    let l = dist_i64(angular.point, position);
    if l == 0 {
        position
    } else {
        proof {
            lemma_dist_dominates_coords(angular.point, position);
            let dx = position.x - angular.point.x;
            let dy = position.y - angular.point.y;
            let s = angular.speed as int;
            assert(-0x7fff_ffff_ffff_ffff <= -dy * s <= 0x7fff_ffff_ffff_ffff
                && -0x7fff_ffff_ffff_ffff <= dx * s <= 0x7fff_ffff_ffff_ffff) by (nonlinear_arith)
                requires
                    -2_000_000 <= dy <= 2_000_000,
                    -2_000_000 <= dx <= 2_000_000,
                    -SPEED_CAP <= s <= SPEED_CAP,
                    SPEED_CAP == 1_000_000_000_000,
            ;
            if s >= 0 {
                assert(-(s * l) <= -dy * s <= s * l && -(s * l) <= dx * s <= s * l)
                    by (nonlinear_arith)
                    requires -l <= dy <= l, -l <= dx <= l, 0 <= s;
                lemma_div_tz_bound(-dy * s, l as int, s);
                lemma_div_tz_bound(dx * s, l as int, s);
            } else {
                assert(-(-s * l) <= -dy * s <= -s * l && -(-s * l) <= dx * s <= -s * l)
                    by (nonlinear_arith)
                    requires -l <= dy <= l, -l <= dx <= l, s < 0;
                lemma_div_tz_bound(-dy * s, l as int, -s);
                lemma_div_tz_bound(dx * s, l as int, -s);
            }
        }
        let dx = position.x - angular.point.x;
        let dy = position.y - angular.point.y;
        let step_x = mul_div(-dy, angular.speed, l);
        let step_y = mul_div(dx, angular.speed, l);
        Vec2 { x: position.x + step_x, y: position.y + step_y }
    }
}

/// Re-anchors the swing on a (possibly new) pivot point: the radius becomes
/// the anchor's current distance to it and the speed is rescaled by the
/// ratio of old to new radius, so that `speed * radius` is conserved up to
/// one truncation quantum. An anchor coinciding with the new pivot skips the
/// rescale and only moves the pivot.
pub fn set_angular_point_system(angular: &mut AngularVelocity, position: Vec2, new_point: Vec2)
    requires
        old(angular).wf(),
        position.in_bounds(),
        new_point.in_bounds(),
    ensures
        final(angular).point == new_point,
        dist(position, new_point) == 0 ==> final(angular).radius == old(angular).radius
            && final(angular).speed == old(angular).speed,
        dist(position, new_point) > 0 ==> {
            let nr = dist(position, new_point);
            &&& final(angular).radius == nr
            &&& final(angular).speed == div_tz(
                old(angular).speed * old(angular).radius,
                nr,
            )
            &&& -nr < final(angular).speed * final(angular).radius
                - old(angular).speed * old(angular).radius < nr
        },
        final(angular).wf(),
{
    proof {
        lemma_dist_bounds(position, new_point);
    }
    let new_radius = dist_i64(position, new_point);
    if new_radius > 0 {
        proof {
            let m = old(angular).speed * old(angular).radius;
            lemma_div_tz_error(m, new_radius as int);
            let q = div_tz(m, new_radius as int);
            if m >= 0 {
                assert(0 <= q * new_radius <= m) by (nonlinear_arith)
                    requires 0 <= q, 0 < new_radius, 0 <= m - q * new_radius;
            } else {
                assert(m <= q * new_radius <= 0) by (nonlinear_arith)
                    requires q <= 0, 0 < new_radius, m - q * new_radius <= 0;
            }
        }
        let s = mul_div(angular.speed, angular.radius, new_radius);
        angular.speed = s;
        angular.radius = new_radius;
    }
    angular.point = new_point;
}

} // verus!
