use tether::math::{isqrt, mul_div};
use tether::neck::NeckPoints;
use tether::vec2::{dist_i64, dist_sq_i64, Vec2};

fn v(x: i64, y: i64) -> Vec2 {
    Vec2 { x, y }
}

fn chain(points: Vec<Vec2>, last: Vec2) -> NeckPoints {
    NeckPoints { points, last_point: last }
}

#[test]
fn isqrt_small_values() {
    assert_eq!(isqrt(0), 0);
    assert_eq!(isqrt(1), 1);
    assert_eq!(isqrt(2), 1);
    assert_eq!(isqrt(3), 1);
    assert_eq!(isqrt(4), 2);
    assert_eq!(isqrt(24), 4);
    assert_eq!(isqrt(25), 5);
    assert_eq!(isqrt(26), 5);
}

#[test]
fn isqrt_large_values() {
    assert_eq!(isqrt(8_000_000_000_000), 2_828_427);
    assert_eq!(isqrt(2_097_152), 1448);
    assert_eq!(isqrt(999_999 * 999_999), 999_999);
}

#[test]
fn mul_div_rounds_toward_zero() {
    assert_eq!(mul_div(7, 1, 2), 3);
    assert_eq!(mul_div(-7, 1, 2), -3);
    assert_eq!(mul_div(-2048, 1, 1448), -1);
    assert_eq!(mul_div(3, 5, 4), 3);
    assert_eq!(mul_div(-3, 5, 4), -3);
}

#[test]
fn distance_of_three_four_five_triangle() {
    assert_eq!(dist_sq_i64(v(0, 0), v(3, 4)), 25);
    assert_eq!(dist_i64(v(0, 0), v(3, 4)), 5);
    assert_eq!(dist_i64(v(1, 1), v(1, 1)), 0);
    assert_eq!(dist_i64(v(-3, 0), v(3, 0)), 6);
}

#[test]
fn perp_of_horizontal_segment_points_up() {
    let p = NeckPoints::perp(v(0, 0), v(10, 0), 5);
    assert_eq!(p, v(0, 5));
}

#[test]
fn perp_of_vertical_segment_points_left() {
    let p = NeckPoints::perp(v(10, 0), v(10, 10), 2);
    assert_eq!(p, v(-2, 0));
}

#[test]
fn perp_of_degenerate_segment_is_zero() {
    let p = NeckPoints::perp(v(7, 7), v(7, 7), 100);
    assert_eq!(p, v(0, 0));
}

#[test]
fn split_two_stations() {
    let neck = chain(vec![v(0, 0)], v(10, 0));
    let pairs = neck.split(3);
    assert_eq!(pairs.len(), 2);
    assert_eq!(pairs[0], (v(0, 3), v(0, -3)));
    assert_eq!(pairs[1], (v(10, 3), v(10, -3)));
}

#[test]
fn split_right_angle_uses_bisector_at_interior_station() {
    let neck = chain(vec![v(0, 0), v(10, 0)], v(10, 10));
    let pairs = neck.split(2);
    assert_eq!(pairs.len(), 3);
    assert_eq!(pairs[0], (v(0, 2), v(0, -2)));
    assert_eq!(pairs[1], (v(9, 1), v(11, -1)));
    assert_eq!(pairs[2], (v(8, 10), v(12, 10)));
}

#[test]
fn split_opposing_segments_fall_back_to_the_adjacent_perpendicular() {
    let neck = chain(vec![v(0, 0), v(10, 0)], v(0, 0));
    let pairs = neck.split(3);
    assert_eq!(pairs.len(), 3);
    assert_eq!(pairs[1], (v(10, 3), v(10, -3)));
}

#[test]
fn split_pairs_mirror_about_their_station() {
    let neck = chain(vec![v(0, 0), v(10, 0), v(10, 10)], v(-5, 13));
    let stations = [v(0, 0), v(10, 0), v(10, 10), v(-5, 13)];
    let pairs = neck.split(7);
    assert_eq!(pairs.len(), 4);
    for (i, (l, r)) in pairs.iter().enumerate() {
        let s = stations[i];
        assert_eq!(l.x - s.x, -(r.x - s.x));
        assert_eq!(l.y - s.y, -(r.y - s.y));
        let dl = (l.x - s.x) * (l.x - s.x) + (l.y - s.y) * (l.y - s.y);
        let dr = (r.x - s.x) * (r.x - s.x) + (r.y - s.y) * (r.y - s.y);
        assert_eq!(dl, dr);
        assert!((l.x - s.x).abs() <= 7 && (l.y - s.y).abs() <= 7);
    }
}

#[test]
fn arc_length_fractions_start_at_zero_and_end_at_one() {
    let neck = chain(vec![v(0, 0), v(6, 0)], v(6, 8));
    assert_eq!(neck.arc_length_fractions(), vec![0, 438, 1024]);
}

#[test]
fn gen_uv_two_stations() {
    let neck = chain(vec![v(0, 0)], v(10, 0));
    let uv = neck.gen_uv();
    assert_eq!(uv.len(), 2);
    assert_eq!(uv[0], (v(0, 0), v(1024, 0)));
    assert_eq!(uv[1], (v(0, 1024), v(1024, 1024)));
}

#[test]
fn gen_uv_fractions_follow_arc_length() {
    let neck = chain(vec![v(0, 0), v(6, 0)], v(6, 8));
    let uv = neck.gen_uv();
    assert_eq!(uv.len(), 3);
    assert_eq!(uv[0], (v(0, 0), v(1024, 0)));
    assert_eq!(uv[1], (v(0, 438), v(1024, 438)));
    assert_eq!(uv[2], (v(0, 1024), v(1024, 1024)));
}

#[test]
fn gen_uv_is_monotone_and_normalized() {
    let neck = chain(vec![v(0, 0), v(3, 4), v(3, 104), v(50, 104)], v(53, 100));
    let uv = neck.gen_uv();
    assert_eq!(uv.len(), 5);
    assert_eq!(uv[0].0.y, 0);
    assert_eq!(uv[4].0.y, 1024);
    for i in 0..uv.len() {
        let (l, r) = uv[i];
        assert_eq!(l.x, 0);
        assert_eq!(r.x, 1024);
        assert_eq!(l.y, r.y);
        assert!(0 <= l.y && l.y <= 1024);
        if i > 0 {
            assert!(uv[i - 1].0.y <= l.y);
        }
    }
}

#[test]
fn gen_uv_of_zero_length_chain_is_all_zero() {
    let neck = chain(vec![v(4, 4), v(4, 4)], v(4, 4));
    let uv = neck.gen_uv();
    assert_eq!(uv.len(), 3);
    for (l, r) in uv.iter() {
        assert_eq!(l.y, 0);
        assert_eq!(r.y, 0);
    }
}

#[test]
fn triangulate_interleaves_left_then_right() {
    let neck = chain(vec![v(0, 0)], v(10, 0));
    let (positions, uvs) = neck.triangulate(3);
    assert_eq!(positions.len(), 4);
    assert_eq!(uvs.len(), 4);
    assert_eq!(positions, vec![v(0, 3), v(0, -3), v(10, 3), v(10, -3)]);
    assert_eq!(uvs, vec![v(0, 0), v(1024, 0), v(0, 1024), v(1024, 1024)]);
}
