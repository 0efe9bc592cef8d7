use grabduel::angle::{angle_add, angle_neg, angle_sub, cos_fp, normalize_angle, sin_fp};
use grabduel::transform::{isqrt64, Transform, Vec2};

#[test]
fn trig_exact_at_quarter_turns() {
    assert_eq!(sin_fp(0), 0);
    assert_eq!(sin_fp(90_000), 1_000_000);
    assert_eq!(sin_fp(180_000), 0);
    assert_eq!(sin_fp(270_000), -1_000_000);
    assert_eq!(cos_fp(0), 1_000_000);
    assert_eq!(cos_fp(90_000), 0);
    assert_eq!(cos_fp(180_000), -1_000_000);
    assert_eq!(cos_fp(270_000), 0);
}

#[test]
fn trig_exact_at_thirty_degrees() {
    assert_eq!(sin_fp(30_000), 500_000);
    assert_eq!(sin_fp(150_000), 500_000);
    assert_eq!(cos_fp(60_000), 500_000);
}

#[test]
fn trig_stays_in_unit_range() {
    let mut a: i64 = 0;
    while a < 360_000 {
        let s = sin_fp(a);
        let c = cos_fp(a);
        assert!(-1_000_000 <= s && s <= 1_000_000);
        assert!(-1_000_000 <= c && c <= 1_000_000);
        a += 1_234;
    }
}

#[test]
fn angle_arithmetic_wraps() {
    assert_eq!(angle_add(350_000, 20_000), 10_000);
    assert_eq!(angle_sub(10_000, 20_000), 350_000);
    assert_eq!(angle_neg(90_000), 270_000);
    assert_eq!(angle_neg(0), 0);
    assert_eq!(normalize_angle(-90_000), 270_000);
    assert_eq!(normalize_angle(725_000), 5_000);
    assert_eq!(normalize_angle(360_000), 0);
}

#[test]
fn rotate_point_quarter_turns_are_exact() {
    let p = Vec2 { x: 3_000, y: 4_000 };
    assert_eq!(Transform::rotate_point(p, 0), Vec2 { x: 3_000, y: 4_000 });
    assert_eq!(Transform::rotate_point(p, 90_000), Vec2 { x: -4_000, y: 3_000 });
    assert_eq!(Transform::rotate_point(p, 180_000), Vec2 { x: -3_000, y: -4_000 });
    assert_eq!(Transform::rotate_point(p, 270_000), Vec2 { x: 4_000, y: -3_000 });
}

#[test]
fn magnitude_is_the_euclidean_norm() {
    let mut t = Transform::new();
    t.position = Vec2 { x: 300_000, y: 400_000 };
    assert_eq!(t.magnitude(), 500_000);
    assert_eq!(isqrt64(0), 0);
    assert_eq!(isqrt64(1), 1);
    assert_eq!(isqrt64(99), 9);
    assert_eq!(isqrt64(100), 10);
}

#[test]
fn direction_vectors_follow_the_rotation() {
    let mut t = Transform::new();
    t.rotation = 270_000;
    assert_eq!(t.right(), Vec2 { x: 1_000_000, y: 0 });
    assert_eq!(t.forward(), Vec2 { x: 0, y: -1_000_000 });
    assert_eq!(t.back(), Vec2 { x: 0, y: 1_000_000 });
    assert_eq!(t.left(), Vec2 { x: -1_000_000, y: 0 });
}

#[test]
fn pose_round_trip_under_quarter_turn_parent() {
    let mut parent = Transform::new();
    parent.position = Vec2 { x: 640_000, y: 360_000 };
    parent.rotation = 180_000;
    let mut node = grabduel::node::GameObject::new();
    node.transform.position = Vec2 { x: 123_000, y: -45_000 };
    node.transform.rotation = 90_000;
    let local_before = node.transform;
    node.update_global_transform(Some(&parent));
    assert_eq!(
        node.global_transform.position,
        Vec2 { x: 640_000 - 123_000, y: 360_000 + 45_000 }
    );
    node.update_local_transform(Some(&parent));
    assert_eq!(node.transform, local_before);
}

#[test]
fn pose_translation_and_turning() {
    let mut t = Transform::new();
    t.move_offset(Vec2 { x: 10_000, y: -5_000 });
    assert_eq!(t.position, Vec2 { x: 10_000, y: -5_000 });
    t.move_offset_x(-10_000);
    t.move_offset_y(5_000);
    assert_eq!(t.position, Vec2 { x: 0, y: 0 });
    t.rotate(300_000);
    assert_eq!(t.rotation, 300_000);
    t.rotate(90_000);
    assert_eq!(t.rotation, 30_000);
}
