use tether::bend::{bend_ray, neck_bend_system, NeckBendingPoints, RayHit};
use tether::neck::NeckPoints;
use tether::vec2::Vec2;

fn v(x: i64, y: i64) -> Vec2 {
    Vec2 { x, y }
}

#[test]
fn new_chain_is_seeded_with_the_cast_hit() {
    let neck = NeckPoints::new(v(5, 1), v(0, 0));
    assert_eq!(neck.points, vec![v(5, 1)]);
    assert_eq!(neck.last_point, v(0, 0));
}

#[test]
fn add_point_keeps_the_existing_prefix() {
    let mut neck = NeckPoints::new(v(1, 2), v(9, 9));
    neck.add_point(v(3, 4));
    neck.add_point(v(5, 6));
    assert_eq!(neck.points, vec![v(1, 2), v(3, 4), v(5, 6)]);
    assert_eq!(neck.last_point, v(9, 9));
}

#[test]
fn set_last_point_moves_only_the_free_end() {
    let mut neck = NeckPoints::new(v(1, 2), v(9, 9));
    neck.set_last_point(v(-4, 7));
    assert_eq!(neck.points, vec![v(1, 2)]);
    assert_eq!(neck.last_point, v(-4, 7));
}

#[test]
fn collision_segment_spans_tip_and_last_bend() {
    let mut neck = NeckPoints::new(v(0, 0), v(10, 0));
    assert_eq!(neck.collision_segment(), (v(10, 0), v(0, 0)));
    neck.add_point(v(5, 1));
    assert_eq!(neck.collision_segment(), (v(10, 0), v(5, 1)));
}

#[test]
fn from_rectangle_lists_the_four_half_extent_corners() {
    let b = NeckBendingPoints::from_rectangle(v(100, 40));
    assert_eq!(b.points, vec![v(-50, 20), v(50, 20), v(50, -20), v(-50, -20)]);
    assert!(b.transformed_points.is_empty());
}

#[test]
fn from_rectangle_halves_odd_extents_downward() {
    let b = NeckBendingPoints::from_rectangle(v(5, 3));
    assert_eq!(b.points, vec![v(-2, 1), v(2, 1), v(2, -1), v(-2, -1)]);
}

#[test]
fn transform_points_translates_every_corner() {
    let mut b = NeckBendingPoints::from_rectangle(v(100, 40));
    b.transform_points(v(300, -7));
    assert_eq!(
        b.transformed_points,
        vec![v(250, 13), v(350, 13), v(350, -27), v(250, -27)]
    );
    b.transform_points(v(0, 0));
    assert_eq!(b.transformed_points, b.points);
}

#[test]
fn closest_point_of_empty_surface_is_none() {
    let b = NeckBendingPoints { points: vec![], transformed_points: vec![] };
    assert_eq!(b.closest_point(v(0, 0)), None);
}

#[test]
fn closest_point_picks_the_nearest_vertex() {
    let b = NeckBendingPoints {
        points: vec![],
        transformed_points: vec![v(0, 10), v(5, 1), v(40, 0)],
    };
    assert_eq!(b.closest_point(v(5, 0)), Some(v(5, 1)));
}

#[test]
fn closest_point_keeps_the_first_among_ties() {
    let b = NeckBendingPoints {
        points: vec![],
        transformed_points: vec![v(2, 0), v(4, 0), v(2, 0)],
    };
    assert_eq!(b.closest_point(v(3, 0)), Some(v(2, 0)));
}

#[test]
fn bend_ray_runs_from_last_bend_toward_the_tip() {
    let neck = NeckPoints::new(v(0, 0), v(100, 0));
    let ray = bend_ray(&neck).unwrap();
    assert_eq!(ray.origin, v(10, 0));
    assert_eq!(ray.dir, v(1024, 0));
    assert_eq!(ray.max_toi, 100);
}

#[test]
fn bend_ray_of_coincident_ends_is_none() {
    let neck = NeckPoints::new(v(3, 3), v(3, 3));
    assert!(bend_ray(&neck).is_none());
}

#[test]
fn no_hit_leaves_the_chain_unchanged() {
    let mut neck = NeckPoints::new(v(0, 0), v(10, 0));
    let surfaces: Vec<NeckBendingPoints> = Vec::new();
    neck_bend_system(&mut neck, None, &surfaces);
    assert_eq!(neck.points, vec![v(0, 0)]);
    assert_eq!(neck.collision_segment(), (v(10, 0), v(0, 0)));
}

#[test]
fn hit_without_registered_surface_is_transparent() {
    let mut neck = NeckPoints::new(v(0, 0), v(10, 0));
    let surfaces: Vec<NeckBendingPoints> = Vec::new();
    neck_bend_system(
        &mut neck,
        Some(RayHit { surface: 0, point: v(5, 0) }),
        &surfaces,
    );
    assert_eq!(neck.points, vec![v(0, 0)]);
}

#[test]
fn hit_snaps_to_the_nearest_registered_vertex() {
    let mut neck = NeckPoints::new(v(0, 0), v(10, 0));
    let surfaces = vec![NeckBendingPoints {
        points: vec![],
        transformed_points: vec![v(5, 1), v(8, 30)],
    }];
    neck_bend_system(
        &mut neck,
        Some(RayHit { surface: 0, point: v(5, 0) }),
        &surfaces,
    );
    assert_eq!(neck.points, vec![v(0, 0), v(5, 1)]);
    assert_eq!(neck.collision_segment(), (v(10, 0), v(5, 1)));
}
