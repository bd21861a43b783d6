use tether::bend::{NeckBendingPoints, RayHit};
use tether::circular::{angular_velocity_system, set_angular_point_system, AngularVelocity};
use tether::neck::NeckPoints;
use tether::step::tether_step;
use tether::vec2::Vec2;

fn v(x: i64, y: i64) -> Vec2 {
    Vec2 { x, y }
}

#[test]
fn pivot_change_conserves_angular_momentum() {
    let mut av = AngularVelocity { radius: 10, speed: 5, point: v(0, 0) };
    set_angular_point_system(&mut av, v(3, 4), v(0, 0));
    assert_eq!(av.radius, 5);
    assert_eq!(av.speed, 10);
    assert_eq!(av.point, v(0, 0));
}

#[test]
fn pivot_change_truncates_momentum_by_less_than_the_radius() {
    let mut av = AngularVelocity { radius: 10, speed: 5, point: v(0, 0) };
    set_angular_point_system(&mut av, v(7, 0), v(0, 0));
    assert_eq!(av.radius, 7);
    assert_eq!(av.speed, 7);
    assert!((av.speed * av.radius - 50).abs() < 7);
}

#[test]
fn pivot_on_the_anchor_skips_the_rescale() {
    let mut av = AngularVelocity { radius: 10, speed: 5, point: v(0, 0) };
    set_angular_point_system(&mut av, v(2, 2), v(2, 2));
    assert_eq!(av.radius, 10);
    assert_eq!(av.speed, 5);
    assert_eq!(av.point, v(2, 2));
}

#[test]
fn swing_step_is_perpendicular_to_the_arm() {
    let av = AngularVelocity { radius: 10, speed: 5, point: v(0, 0) };
    assert_eq!(angular_velocity_system(v(10, 0), &av), v(10, 5));
    let back = AngularVelocity { radius: 10, speed: -5, point: v(0, 0) };
    assert_eq!(angular_velocity_system(v(10, 0), &back), v(10, -5));
}

#[test]
fn swing_step_on_the_pivot_stays_put() {
    let av = AngularVelocity { radius: 0, speed: 0, point: v(4, 4) };
    assert_eq!(angular_velocity_system(v(4, 4), &av), v(4, 4));
}

#[test]
fn attach_scales_the_base_speed_by_the_inverse_radius() {
    let av = AngularVelocity::on_attach(v(0, 0), v(-10, -5), 100);
    assert_eq!(av.point, v(-10, -5));
    assert_eq!(av.radius, 11);
    assert_eq!(av.speed, 9);
}

#[test]
fn attach_handedness_flips_the_sign() {
    let toward = AngularVelocity::on_attach(v(0, 0), v(10, 0), 100);
    assert_eq!(toward.radius, 10);
    assert_eq!(toward.speed, -10);
    let away = AngularVelocity::on_attach(v(0, 0), v(-10, 0), 100);
    assert_eq!(away.speed, 10);
}

#[test]
fn attach_on_the_anchor_rests() {
    let av = AngularVelocity::on_attach(v(3, 3), v(3, 3), 100);
    assert_eq!(av.radius, 0);
    assert_eq!(av.speed, 0);
}

#[test]
fn step_without_hit_keeps_the_chain() {
    let mut neck = NeckPoints::new(v(0, 0), v(0, 0));
    let mut av = AngularVelocity::on_attach(v(0, 5), v(0, 0), 100);
    let surfaces: Vec<NeckBendingPoints> = Vec::new();
    let out = tether_step(&mut neck, &mut av, v(0, 5), v(10, 0), None, &surfaces, 3);
    assert_eq!(neck.points, vec![v(0, 0)]);
    assert_eq!(neck.last_point, v(10, 0));
    assert_eq!(out.collision, (v(10, 0), v(0, 0)));
    assert_eq!(out.positions.len(), 4);
}

#[test]
fn step_with_hit_wraps_and_rebuilds_everything() {
    let mut neck = NeckPoints::new(v(0, 0), v(0, 0));
    let mut av = AngularVelocity { radius: 20, speed: 4, point: v(0, 0) };
    let surfaces = vec![NeckBendingPoints {
        points: vec![],
        transformed_points: vec![v(5, 1), v(9, 40)],
    }];
    let anchor = v(8, 5);
    let out = tether_step(
        &mut neck,
        &mut av,
        anchor,
        v(10, 0),
        Some(RayHit { surface: 0, point: v(5, 0) }),
        &surfaces,
        3,
    );
    assert_eq!(neck.points, vec![v(0, 0), v(5, 1)]);
    assert_eq!(neck.last_point, v(10, 0));
    assert_eq!(out.collision, (v(10, 0), v(5, 1)));
    assert_eq!(out.positions.len(), 6);
    assert_eq!(out.uvs.len(), 6);
    assert_eq!(av.point, v(5, 1));
    assert_eq!(av.radius, 5);
    assert!((av.speed * av.radius - 4 * 20).abs() < 5);
    assert_eq!(av.speed, 16);
}

#[test]
fn step_conserves_momentum_across_a_pivot_change() {
    let mut neck = NeckPoints::new(v(0, 0), v(0, 0));
    let mut av = AngularVelocity { radius: 10, speed: 5, point: v(0, 0) };
    let surfaces = vec![NeckBendingPoints {
        points: vec![],
        transformed_points: vec![v(3, 4)],
    }];
    let anchor = v(6, 8);
    let out = tether_step(
        &mut neck,
        &mut av,
        anchor,
        v(20, 0),
        Some(RayHit { surface: 0, point: v(4, 4) }),
        &surfaces,
        2,
    );
    assert_eq!(av.point, v(3, 4));
    assert_eq!(av.radius, 5);
    assert_eq!(av.speed, 10);
    assert_eq!(out.collision, (v(20, 0), v(3, 4)));
}
