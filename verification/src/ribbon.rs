//! The ribbon mesh: thickness-extruded left/right vertex pairs for every
//! station of the chain, texture coordinates that follow cumulative arc
//! length, and the triangle-strip emission order.

use vstd::prelude::*;

verus! {

use crate::{COORD_LIMIT, DIR_SCALE, DIST_MAX, UV_SCALE};
use crate::math::{div_tz, isqrt, lemma_div_tz_bound, lemma_sqrt_floor, mul_div, sqrt_floor};
use crate::neck::NeckPoints;
use crate::vec2::{
    dist, dist_i64, dist_sq, lemma_dist_bounds, lemma_dist_dominates_coords, Vec2,
};
use vstd::arithmetic::div_mod::{
    lemma_div_is_ordered, lemma_div_multiples_vanish, lemma_div_of0, lemma_div_pos_is_pos,
};
use vstd::arithmetic::mul::lemma_mul_inequality;

/// The perpendicular of the segment `a -> b` — the difference rotated a
/// quarter turn, `(dx, dy)` to `(-dy, dx)` — normalized and scaled to length
/// (about) `s`. The zero vector when the segment is degenerate.
pub open spec fn perp_scaled(a: Vec2, b: Vec2, s: int) -> (int, int) {
    let l = dist(a, b);
    if l == 0 {
        (0, 0)
    } else {
        (div_tz(-(b.y - a.y) * s, l), div_tz((b.x - a.x) * s, l))
    }
}

/// The ribbon offset at an interior station `p1`: the normalized bisector of
/// the two adjacent segment perpendiculars, scaled to length (about) `t`.
/// When the bisector is degenerate (opposing segments cancel), the offset
/// falls back to the incoming segment's perpendicular.
pub open spec fn bisector_offset(p0: Vec2, p1: Vec2, p2: Vec2, t: int) -> (int, int) {
    let u1 = perp_scaled(p0, p1, DIR_SCALE as int);
    let u2 = perp_scaled(p1, p2, DIR_SCALE as int);
    let bx = u1.0 + u2.0;
    let by = u1.1 + u2.1;
    let bl = sqrt_floor((bx * bx + by * by) as nat) as int;
    if bl == 0 {
        perp_scaled(p0, p1, t)
    } else {
        (div_tz(bx * t, bl), div_tz(by * t, bl))
    }
}

/// The ribbon offset at station `i`: the first and last stations use their
/// single adjacent segment, interior stations use the bisector.
pub open spec fn offset_at(st: Seq<Vec2>, t: int, i: int) -> (int, int) {
    if i == 0 {
        perp_scaled(st[0], st[1], t)
    } else if i == st.len() - 1 {
        perp_scaled(st[i - 1], st[i], t)
    } else {
        bisector_offset(st[i - 1], st[i], st[i + 1], t)
    }
}

/// The pair holds the station's left and right ribbon vertices: the station
/// displaced by its offset and by the exact opposite of its offset.
pub open spec fn is_ribbon_pair(st: Seq<Vec2>, t: int, i: int, pair: (Vec2, Vec2)) -> bool {
    let off = offset_at(st, t, i);
    &&& pair.0.x == st[i].x + off.0
    &&& pair.0.y == st[i].y + off.1
    &&& pair.1.x == st[i].x - off.0
    &&& pair.1.y == st[i].y - off.1
}

/// Both coordinates of a scaled perpendicular are bounded by the scale.
pub proof fn lemma_perp_scaled_bounds(a: Vec2, b: Vec2, s: int)
    requires
        a.in_bounds(),
        b.in_bounds(),
        0 <= s,
    ensures
        -s <= perp_scaled(a, b, s).0 <= s,
        -s <= perp_scaled(a, b, s).1 <= s,
{
    let l = dist(a, b);
    lemma_dist_bounds(a, b);
    if l != 0 {
        lemma_dist_dominates_coords(a, b);
        let dx = b.x - a.x;
        let dy = b.y - a.y;
        assert(-(s * l) <= -dy * s <= s * l) by (nonlinear_arith)
            requires -l <= dy <= l, 0 <= s;
        assert(-(s * l) <= dx * s <= s * l) by (nonlinear_arith)
            requires -l <= dx <= l, 0 <= s;
        lemma_div_tz_bound(-dy * s, l, s);
        lemma_div_tz_bound(dx * s, l, s);
    }
}

/// Both coordinates of a bisector offset are bounded by the thickness.
pub proof fn lemma_bisector_bounds(p0: Vec2, p1: Vec2, p2: Vec2, t: int)
    requires
        p0.in_bounds(),
        p1.in_bounds(),
        p2.in_bounds(),
        0 <= t,
    ensures
        -t <= bisector_offset(p0, p1, p2, t).0 <= t,
        -t <= bisector_offset(p0, p1, p2, t).1 <= t,
{
    let u1 = perp_scaled(p0, p1, DIR_SCALE as int);
    let u2 = perp_scaled(p1, p2, DIR_SCALE as int);
    let bx = u1.0 + u2.0;
    let by = u1.1 + u2.1;
    assert(0 <= bx * bx + by * by) by (nonlinear_arith);
    let n = (bx * bx + by * by) as nat;
    let bl = sqrt_floor(n) as int;
    lemma_sqrt_floor(n);
    if bl == 0 {
        lemma_perp_scaled_bounds(p0, p1, t);
    } else {
        assert(-bl <= bx <= bl && -bl <= by <= bl) by (nonlinear_arith)
            requires
                0 <= bl,
                bx * bx + by * by < (bl + 1) * (bl + 1),
        ;
        assert(-(t * bl) <= bx * t <= t * bl) by (nonlinear_arith)
            requires -bl <= bx <= bl, 0 <= t;
        assert(-(t * bl) <= by * t <= t * bl) by (nonlinear_arith)
            requires -bl <= by <= bl, 0 <= t;
        lemma_div_tz_bound(bx * t, bl, t);
        lemma_div_tz_bound(by * t, bl, t);
    }
}

/// Both coordinates of every station offset are bounded by the thickness.
pub proof fn lemma_offset_at_bounds(st: Seq<Vec2>, t: int, i: int)
    requires
        2 <= st.len(),
        0 <= i < st.len(),
        forall|k: int| 0 <= k < st.len() ==> (#[trigger] st[k]).in_bounds(),
        0 <= t,
    ensures
        -t <= offset_at(st, t, i).0 <= t,
        -t <= offset_at(st, t, i).1 <= t,
{
    if i == 0 {
        lemma_perp_scaled_bounds(st[0], st[1], t);
    } else if i == st.len() - 1 {
        lemma_perp_scaled_bounds(st[i - 1], st[i], t);
    } else {
        lemma_bisector_bounds(st[i - 1], st[i], st[i + 1], t);
    }
}

/// The two ribbon vertices of a station mirror each other about the station:
/// their displacements are exact opposites, so they are equidistant from the
/// station and lie on opposite sides of it, and each displacement coordinate
/// is bounded by the half-thickness.
pub proof fn lemma_ribbon_pair_symmetric(st: Seq<Vec2>, t: int, i: int, pair: (Vec2, Vec2))
    requires
        2 <= st.len(),
        0 <= i < st.len(),
        forall|k: int| 0 <= k < st.len() ==> (#[trigger] st[k]).in_bounds(),
        0 <= t,
        is_ribbon_pair(st, t, i, pair),
    ensures
        pair.0.x - st[i].x == -(pair.1.x - st[i].x),
        pair.0.y - st[i].y == -(pair.1.y - st[i].y),
        dist_sq(st[i], pair.0) == dist_sq(st[i], pair.1),
        -t <= pair.0.x - st[i].x <= t,
        -t <= pair.0.y - st[i].y <= t,
{
    lemma_offset_at_bounds(st, t, i);
    let off = offset_at(st, t, i);
    assert(off.0 * off.0 == (-off.0) * (-off.0)) by (nonlinear_arith);
    assert(off.1 * off.1 == (-off.1) * (-off.1)) by (nonlinear_arith);
}

/// Cumulative arc length from the first station through station `i`.
pub open spec fn cum_len(st: Seq<Vec2>, i: int) -> int
    decreases i,
{
    if i <= 0 {
        0
    } else {
        cum_len(st, i - 1) + dist(st[i - 1], st[i])
    }
}

/// Total arc length of the chain.
pub open spec fn total_len(st: Seq<Vec2>) -> int {
    cum_len(st, st.len() - 1)
}

/// The arc-length fraction of station `i`, in fixed point: the cumulative
/// length over the total, scaled by UV_SCALE. Zero everywhere when the whole
/// chain has zero length.
pub open spec fn uv_fraction(st: Seq<Vec2>, i: int) -> int {
    if total_len(st) == 0 {
        0
    } else {
        cum_len(st, i) * UV_SCALE / total_len(st)
    }
}

/// Cumulative lengths are nonnegative and grow by at most DIST_MAX per
/// station.
pub proof fn lemma_cum_len_bounds(st: Seq<Vec2>, i: int)
    requires
        forall|k: int| 0 <= k < st.len() ==> (#[trigger] st[k]).in_bounds(),
        0 <= i < st.len(),
    ensures
        0 <= cum_len(st, i) <= i * DIST_MAX,
    decreases i,
{
    if i > 0 {
        lemma_cum_len_bounds(st, i - 1);
        lemma_dist_bounds(st[i - 1], st[i]);
    }
}

/// Cumulative length is monotone in the station index.
pub proof fn lemma_cum_len_monotone(st: Seq<Vec2>, i: int, j: int)
    requires
        forall|k: int| 0 <= k < st.len() ==> (#[trigger] st[k]).in_bounds(),
        0 <= i <= j < st.len(),
    ensures
        cum_len(st, i) <= cum_len(st, j),
    decreases j - i,
{
    if i < j {
        lemma_cum_len_monotone(st, i, j - 1);
        lemma_dist_bounds(st[j - 1], st[j]);
    }
}

/// Arc-length fractions form a monotonically non-decreasing sequence in
/// `[0, UV_SCALE]`; the first is zero and, whenever the chain has positive
/// length, the last is exactly UV_SCALE.
pub proof fn lemma_uv_fractions_monotone(st: Seq<Vec2>)
    requires
        2 <= st.len(),
        forall|k: int| 0 <= k < st.len() ==> (#[trigger] st[k]).in_bounds(),
    ensures
        uv_fraction(st, 0) == 0,
        forall|i: int| 0 <= i < st.len() - 1 ==>
            #[trigger] uv_fraction(st, i) <= uv_fraction(st, i + 1),
        forall|i: int| 0 <= i < st.len() ==> 0 <= #[trigger] uv_fraction(st, i) <= UV_SCALE,
        total_len(st) > 0 ==> uv_fraction(st, st.len() - 1) == UV_SCALE,
{
    let total = total_len(st);
    lemma_cum_len_bounds(st, st.len() - 1);
    if total == 0 {
    } else {
        lemma_div_of0(total);
        assert(0 * UV_SCALE == 0) by (nonlinear_arith);
        assert(uv_fraction(st, 0) == 0);
        assert forall|i: int| 0 <= i < st.len() - 1 implies
            #[trigger] uv_fraction(st, i) <= uv_fraction(st, i + 1) by {
            lemma_cum_len_monotone(st, i, i + 1);
            lemma_mul_inequality(cum_len(st, i), cum_len(st, i + 1), UV_SCALE as int);
            lemma_div_is_ordered(
                cum_len(st, i) * UV_SCALE,
                cum_len(st, i + 1) * UV_SCALE,
                total,
            );
        }
        assert forall|i: int| 0 <= i < st.len() implies
            0 <= #[trigger] uv_fraction(st, i) <= UV_SCALE by {
            lemma_cum_len_bounds(st, i);
            lemma_cum_len_monotone(st, i, st.len() - 1);
            assert(0 <= cum_len(st, i) * UV_SCALE) by (nonlinear_arith)
                requires 0 <= cum_len(st, i);
            lemma_div_pos_is_pos(cum_len(st, i) * UV_SCALE, total);
            lemma_mul_inequality(cum_len(st, i), total, UV_SCALE as int);
            lemma_div_is_ordered(cum_len(st, i) * UV_SCALE, total * UV_SCALE, total);
            lemma_div_multiples_vanish(UV_SCALE as int, total);
            assert(total * UV_SCALE == UV_SCALE * total) by (nonlinear_arith);
        }
        lemma_div_multiples_vanish(UV_SCALE as int, total);
        assert(total * UV_SCALE == UV_SCALE * total) by (nonlinear_arith);
    }
}

/// The bisector offset, executable.
fn bisector(p0: Vec2, p1: Vec2, p2: Vec2, t: i64) -> (r: Vec2)
    requires
        p0.in_bounds(),
        p1.in_bounds(),
        p2.in_bounds(),
        0 <= t <= COORD_LIMIT,
    ensures
        r.x == bisector_offset(p0, p1, p2, t as int).0,
        r.y == bisector_offset(p0, p1, p2, t as int).1,
        -t <= r.x <= t,
        -t <= r.y <= t,
{
    proof {
        lemma_bisector_bounds(p0, p1, p2, t as int);
    }
    let u1 = NeckPoints::perp(p0, p1, DIR_SCALE);
    let u2 = NeckPoints::perp(p1, p2, DIR_SCALE);
    let bx = u1.x + u2.x;
    let by = u1.y + u2.y;
    assert(0 <= bx * bx <= 4_194_304 && 0 <= by * by <= 4_194_304) by (nonlinear_arith)
        requires -2048 <= bx <= 2048, -2048 <= by <= 2048;
    let bl = isqrt((bx * bx + by * by) as u64) as i64;
    proof {
        let s = bx * bx + by * by;
        assert(0 <= s <= 16_777_216);
        let n = s as nat;
        assert((s as u64) as nat == n);
        lemma_sqrt_floor(n);
        assert((4096 + 1) * (4096 + 1) == 16_785_409) by (nonlinear_arith);
        crate::math::lemma_sqrt_floor_le(n, 4096);
        assert(bl == sqrt_floor(n));
        assert(s < (bl + 1) * (bl + 1));
    }
    if bl == 0 {
        NeckPoints::perp(p0, p1, t)
    } else {
        proof {
            assert(-bl <= bx <= bl && -bl <= by <= bl) by (nonlinear_arith)
                requires
                    0 <= bl,
                    bx * bx + by * by < (bl + 1) * (bl + 1),
            ;
            assert(-0x7fff_ffff_ffff_ffff <= bx * t <= 0x7fff_ffff_ffff_ffff) by (nonlinear_arith)
                requires -2048 <= bx <= 2048, 0 <= t <= 1_000_000;
            assert(-0x7fff_ffff_ffff_ffff <= by * t <= 0x7fff_ffff_ffff_ffff) by (nonlinear_arith)
                requires -2048 <= by <= 2048, 0 <= t <= 1_000_000;
        }
        let ox = mul_div(bx, t, bl);
        let oy = mul_div(by, t, bl);
        Vec2::new(ox, oy)
    }
}

impl NeckPoints {
    /// The perpendicular of the segment `v_a -> v_b`, scaled to length
    /// (about) `s`; the zero vector for a degenerate segment.
    pub fn perp(v_a: Vec2, v_b: Vec2, s: i64) -> (r: Vec2)
        requires
            v_a.in_bounds(),
            v_b.in_bounds(),
            0 <= s <= COORD_LIMIT,
        ensures
            r.x == perp_scaled(v_a, v_b, s as int).0,
            r.y == perp_scaled(v_a, v_b, s as int).1,
            -s <= r.x <= s,
            -s <= r.y <= s,
    {
        proof {
            lemma_perp_scaled_bounds(v_a, v_b, s as int);
        }
        let l = dist_i64(v_a, v_b);
        if l == 0 {
            Vec2::new(0, 0)
        } else {
            let dx = v_b.x - v_a.x;
            let dy = v_b.y - v_a.y;
            assert(-0x7fff_ffff_ffff_ffff <= -dy * s <= 0x7fff_ffff_ffff_ffff) by (nonlinear_arith)
                requires -2_000_000 <= dy <= 2_000_000, 0 <= s <= 1_000_000;
            assert(-0x7fff_ffff_ffff_ffff <= dx * s <= 0x7fff_ffff_ffff_ffff) by (nonlinear_arith)
                requires -2_000_000 <= dx <= 2_000_000, 0 <= s <= 1_000_000;
            let ox = mul_div(-dy, s, l);
            let oy = mul_div(dx, s, l);
            Vec2::new(ox, oy)
        }
    }

    /// The left/right ribbon vertex pair of every station, at half-thickness
    /// `thickness`: each station displaced by its offset and by the exact
    /// opposite of its offset.
    pub fn split(&self, thickness: i64) -> (r: Vec<(Vec2, Vec2)>)
        requires
            self.wf(),
            0 <= thickness <= COORD_LIMIT,
        ensures
            r@.len() == self.stations().len(),
            forall|i: int| 0 <= i < r@.len() ==>
                is_ribbon_pair(self.stations(), thickness as int, i, #[trigger] r@[i]),
    {
        let ghost st = self.stations();
        proof {
            self.lemma_stations_wf();
        }
        let m = self.points.len() + 1;
        let mut r: Vec<(Vec2, Vec2)> = Vec::new();

        let s0 = self.station(0);
        let s1 = self.station(1);
        let off0 = NeckPoints::perp(s0, s1, thickness);
        r.push((
            Vec2::new(s0.x + off0.x, s0.y + off0.y),
            Vec2::new(s0.x - off0.x, s0.y - off0.y),
        ));

        let mut i: usize = 1;
        while i < m - 1
            invariant
                self.wf(),
                0 <= thickness <= COORD_LIMIT,
                st == self.stations(),
                m == self.points@.len() + 1,
                1 <= i <= m - 1,
                r@.len() == i,
                forall|j: int| 0 <= j < i ==>
                    is_ribbon_pair(st, thickness as int, j, #[trigger] r@[j]),
            decreases m - 1 - i,
        {
            proof {
                self.lemma_stations_wf();
            }
            let p0 = self.station(i - 1);
            let p1 = self.station(i);
            let p2 = self.station(i + 1);
            let off = bisector(p0, p1, p2, thickness);
            r.push((
                Vec2::new(p1.x + off.x, p1.y + off.y),
                Vec2::new(p1.x - off.x, p1.y - off.y),
            ));
            i += 1;
        }

        let sl0 = self.station(m - 2);
        let sl1 = self.station(m - 1);
        let offl = NeckPoints::perp(sl0, sl1, thickness);
        r.push((
            Vec2::new(sl1.x + offl.x, sl1.y + offl.y),
            Vec2::new(sl1.x - offl.x, sl1.y - offl.y),
        ));
        r
    }

    /// The arc-length fraction of every station, in fixed point: the
    /// cumulative distance from the first station, divided by the total
    /// chain length and scaled by UV_SCALE. All zero for a chain of zero
    /// total length.
    pub fn arc_length_fractions(&self) -> (r: Vec<i64>)
        requires
            self.wf(),
        ensures
            r@.len() == self.stations().len(),
            forall|i: int| 0 <= i < r@.len() ==>
                #[trigger] r@[i] == uv_fraction(self.stations(), i),
    {
        let ghost st = self.stations();
        proof {
            self.lemma_stations_wf();
        }
        let m = self.points.len() + 1;

        let mut total: i64 = 0;
        let mut k: usize = 1;
        while k < m
            invariant
                self.wf(),
                st == self.stations(),
                m == self.points@.len() + 1,
                1 <= k <= m,
                total == cum_len(st, k - 1),
                0 <= total <= (k - 1) * DIST_MAX,
            decreases m - k,
        {
            proof {
                self.lemma_stations_wf();
                lemma_dist_bounds(st[k - 1], st[k as int]);
            }
            let d = dist_i64(self.station(k - 1), self.station(k));
            total = total + d;
            k += 1;
        }

        let mut r: Vec<i64> = Vec::new();
        let mut cum: i64 = 0;
        let mut i: usize = 0;
        while i < m
            invariant
                self.wf(),
                st == self.stations(),
                m == self.points@.len() + 1,
                total == total_len(st),
                0 <= total <= (m - 1) * DIST_MAX,
                0 <= i <= m,
                cum == cum_len(st, i as int - 1),
                0 <= cum <= i * DIST_MAX,
                r@.len() == i,
                forall|j: int| 0 <= j < i ==> #[trigger] r@[j] == uv_fraction(st, j),
            decreases m - i,
        {
            proof {
                self.lemma_stations_wf();
            }
            if i > 0 {
                proof {
                    lemma_dist_bounds(st[i - 1], st[i as int]);
                }
                let d = dist_i64(self.station(i - 1), self.station(i));
                cum = cum + d;
            }
            let v: i64 = if total == 0 {
                0
            } else {
                proof {
                    lemma_cum_len_monotone(st, i as int, st.len() - 1);
                    assert(0 <= cum * UV_SCALE <= 310_000_000_000_000_000) by (nonlinear_arith)
                        requires 0 <= cum <= 300_000_000_000_000, UV_SCALE == 1024;
                    lemma_div_pos_is_pos(cum * UV_SCALE, total as int);
                    vstd::arithmetic::div_mod::lemma_div_nonincreasing(
                        cum * UV_SCALE,
                        total as int,
                    );
                }
                mul_div(cum, UV_SCALE, total)
            };
            r.push(v);
            i += 1;
        }
        r
    }

    /// The texture coordinates of every station: the left vertex at `u = 0`,
    /// the right vertex at `u = UV_SCALE`, both at `v` equal to the
    /// station's arc-length fraction of the whole chain.
    pub fn gen_uv(&self) -> (r: Vec<(Vec2, Vec2)>)
        requires
            self.wf(),
        ensures
            r@.len() == self.stations().len(),
            forall|i: int| 0 <= i < r@.len() ==> {
                let v = uv_fraction(self.stations(), i);
                (#[trigger] r@[i]).0 == (Vec2 { x: 0, y: v as i64 })
                    && r@[i].1 == (Vec2 { x: UV_SCALE, y: v as i64 })
            },
    {
        let ghost st = self.stations();
        let fractions = self.arc_length_fractions();
        let mut r: Vec<(Vec2, Vec2)> = Vec::new();
        let mut i: usize = 0;
        while i < fractions.len()
            invariant
                st == self.stations(),
                fractions@.len() == st.len(),
                forall|j: int| 0 <= j < st.len() ==>
                    #[trigger] fractions@[j] == uv_fraction(st, j),
                0 <= i <= st.len(),
                r@.len() == i,
                forall|j: int| 0 <= j < i ==> {
                    let v = uv_fraction(st, j);
                    (#[trigger] r@[j]).0 == (Vec2 { x: 0, y: v as i64 })
                        && r@[j].1 == (Vec2 { x: UV_SCALE, y: v as i64 })
                },
            decreases fractions@.len() - i,
        {
            let v = fractions[i];
            r.push((Vec2 { x: 0, y: v }, Vec2 { x: UV_SCALE, y: v }));
            i += 1;
        }
        r
    }

    /// The full ribbon buffers in triangle-strip order: positions and texture
    /// coordinates interleaved left then right per station, so consecutive
    /// entries form a valid strip.
    pub fn triangulate(&self, thickness: i64) -> (mesh: (Vec<Vec2>, Vec<Vec2>))
        requires
            self.wf(),
            0 <= thickness <= COORD_LIMIT,
        ensures
            mesh.0@.len() == 2 * self.stations().len(),
            mesh.1@.len() == 2 * self.stations().len(),
            forall|i: int| 0 <= i < self.stations().len() ==>
                is_ribbon_pair(
                    self.stations(),
                    thickness as int,
                    i,
                    (#[trigger] mesh.0@[2 * i], mesh.0@[2 * i + 1]),
                ),
            forall|i: int| 0 <= i < self.stations().len() ==> {
                let v = uv_fraction(self.stations(), i);
                (#[trigger] mesh.1@[2 * i]) == (Vec2 { x: 0, y: v as i64 })
                    && mesh.1@[2 * i + 1] == (Vec2 { x: UV_SCALE, y: v as i64 })
            },
    {
        let ghost st = self.stations();
        let splits = self.split(thickness);
        let uvs = self.gen_uv();
        let mut positions: Vec<Vec2> = Vec::new();
        let mut tex: Vec<Vec2> = Vec::new();
        let mut i: usize = 0;
        while i < splits.len()
            invariant
                splits@.len() == st.len(),
                uvs@.len() == st.len(),
                forall|j: int| 0 <= j < st.len() ==>
                    is_ribbon_pair(st, thickness as int, j, #[trigger] splits@[j]),
                forall|j: int| 0 <= j < st.len() ==> {
                    let v = uv_fraction(st, j);
                    (#[trigger] uvs@[j]).0 == (Vec2 { x: 0, y: v as i64 })
                        && uvs@[j].1 == (Vec2 { x: UV_SCALE, y: v as i64 })
                },
                0 <= i <= st.len(),
                positions@.len() == 2 * i,
                tex@.len() == 2 * i,
                forall|j: int| 0 <= j < i ==>
                    #[trigger] positions@[2 * j] == splits@[j].0
                        && positions@[2 * j + 1] == splits@[j].1,
                forall|j: int| 0 <= j < i ==>
                    #[trigger] tex@[2 * j] == uvs@[j].0 && tex@[2 * j + 1] == uvs@[j].1,
            decreases splits@.len() - i,
        {
            let ghost positions0 = positions@;
            let ghost tex0 = tex@;
            let pair = splits[i];
            positions.push(pair.0);
            positions.push(pair.1);
            let uv = uvs[i];
            tex.push(uv.0);
            tex.push(uv.1);
            proof {
                let w = i as int;
                assert forall|j: int| 0 <= j < w + 1 implies
                    #[trigger] positions@[2 * j] == splits@[j].0
                        && positions@[2 * j + 1] == splits@[j].1 by {
                    if j < w {
                        assert(positions@[2 * j] == positions0[2 * j]);
                        assert(positions@[2 * j + 1] == positions0[2 * j + 1]);
                        assert(positions0[2 * j] == splits@[j].0
                            && positions0[2 * j + 1] == splits@[j].1);
                    } else {
                        assert(positions@[2 * w] == pair.0);
                        assert(positions@[2 * w + 1] == pair.1);
                    }
                }
                assert forall|j: int| 0 <= j < w + 1 implies
                    #[trigger] tex@[2 * j] == uvs@[j].0 && tex@[2 * j + 1] == uvs@[j].1 by {
                    if j < w {
                        assert(tex@[2 * j] == tex0[2 * j]);
                        assert(tex@[2 * j + 1] == tex0[2 * j + 1]);
                        assert(tex0[2 * j] == uvs@[j].0 && tex0[2 * j + 1] == uvs@[j].1);
                    } else {
                        assert(tex@[2 * w] == uv.0);
                        assert(tex@[2 * w + 1] == uv.1);
                    }
                }
            }
            i += 1;
        }
        proof {
            assert forall|j: int| 0 <= j < st.len() implies
                is_ribbon_pair(
                    st,
                    thickness as int,
                    j,
                    (#[trigger] positions@[2 * j], positions@[2 * j + 1]),
                ) by {
                assert((splits@[j].0, splits@[j].1) == splits@[j]);
                assert(is_ribbon_pair(st, thickness as int, j, splits@[j]));
            }
            assert forall|j: int| 0 <= j < st.len() implies {
                let v = uv_fraction(st, j);
                (#[trigger] tex@[2 * j]) == (Vec2 { x: 0, y: v as i64 })
                    && tex@[2 * j + 1] == (Vec2 { x: UV_SCALE, y: v as i64 })
            } by {
                assert(tex@[2 * j] == uvs@[j].0);
                assert(tex@[2 * j + 1] == uvs@[j].1);
                assert(uvs@[j].0 == (Vec2 { x: 0, y: uv_fraction(st, j) as i64 }));
            }
        }
        (positions, tex)
    }
}

} // verus!
