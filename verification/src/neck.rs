//! The tether chain: an append-only sequence of bend points plus the moving
//! end, and the two-point collision proxy derived from it.

use vstd::prelude::*;

verus! {

use crate::MAX_POINTS;
use crate::vec2::Vec2;

/// The bend-point chain of one tether.
///
/// `points` starts with the initial cast hit and grows by one entry each time
/// the tether wraps around a surface corner; it is never shortened or
/// reordered while the tether exists. `last_point` is the moving end, updated
/// every step to follow its driving position.
pub struct NeckPoints {
    pub points: Vec<Vec2>,
    pub last_point: Vec2,
}

impl NeckPoints {
    /// The chain is non-empty, not beyond the library's size bound, and all
    /// its positions are in bounds.
    pub open spec fn wf(self) -> bool {
        &&& 1 <= self.points@.len() <= MAX_POINTS
        &&& forall|i: int| 0 <= i < self.points@.len() ==> (#[trigger] self.points@[i]).in_bounds()
        &&& self.last_point.in_bounds()
    }

    /// The stations of the tether, from the first bend point through the
    /// moving end.
    pub open spec fn stations(self) -> Seq<Vec2> {
        self.points@.push(self.last_point)
    }

    /// A well-formed chain has at least two stations, all of them in bounds.
    pub proof fn lemma_stations_wf(self)
        requires
            self.wf(),
        ensures
            2 <= self.stations().len() <= MAX_POINTS + 1,
            forall|k: int| 0 <= k < self.stations().len() ==>
                (#[trigger] self.stations()[k]).in_bounds(),
    {
        assert forall|k: int| 0 <= k < self.stations().len() implies
            (#[trigger] self.stations()[k]).in_bounds() by {
            if k < self.points@.len() {
                assert(self.stations()[k] == self.points@[k]);
            } else {
                assert(self.stations()[k] == self.last_point);
            }
        }
    }

    /// A fresh chain, seeded with the initial cast hit point and the position
    /// of the moving end.
    pub fn new(head_point: Vec2, body_point: Vec2) -> (neck: NeckPoints)
        requires
            head_point.in_bounds(),
            body_point.in_bounds(),
        ensures
            neck.points@ == seq![head_point],
            neck.last_point == body_point,
            neck.wf(),
    {
        let mut points: Vec<Vec2> = Vec::new();
        points.push(head_point);
        proof {
            assert(points@ =~= seq![head_point]);
        }
        NeckPoints { points, last_point: body_point }
    }

    /// Appends a bend point. The existing bend points are untouched: the new
    /// chain is exactly the old chain followed by `point`.
    pub fn add_point(&mut self, point: Vec2)
        requires
            old(self).points@.len() < MAX_POINTS,
        ensures
            final(self).points@ == old(self).points@.push(point),
            final(self).last_point == old(self).last_point,
    {
        self.points.push(point);
    }

    /// Moves the free end of the tether to `point`.
    pub fn set_last_point(&mut self, point: Vec2)
        ensures
            final(self).points@ == old(self).points@,
            final(self).last_point == point,
    {
        self.last_point = point;
    }

    /// The most recent bend point.
    pub fn last_bend_point(&self) -> (p: Vec2)
        requires
            self.points@.len() >= 1,
        ensures
            p == self.points@.last(),
    {
        self.points[self.points.len() - 1]
    }

    /// The station at index `i`: a bend point, or the moving end at the final
    /// index.
    pub fn station(&self, i: usize) -> (p: Vec2)
        requires
            i <= self.points@.len(),
        ensures
            p == self.stations()[i as int],
    {
        if i < self.points.len() {
            self.points[i]
        } else {
            self.last_point
        }
    }

    /// The segment of the tether that participates in physics collision:
    /// exactly the taut span from the moving end to the most recent bend
    /// point. Earlier wrapped segments are rendered but not collidable.
    pub fn collision_segment(&self) -> (seg: (Vec2, Vec2))
        requires
            self.points@.len() >= 1,
        ensures
            seg.0 == self.last_point,
            seg.1 == self.points@.last(),
    {
        (self.last_point, self.last_bend_point())
    }
}

} // verus!
