use softpipe::fixed::SCALE;
use softpipe::rotation::Rotation;
use softpipe::rotation::apply_rotation;
use softpipe::vec3::Vec3;

#[test]
fn identity_rotation_returns_input() {
    let v = Vec3::new(123, -456, 789);
    let r = apply_rotation(v, &Rotation::identity());
    assert_eq!(r, v);
}

#[test]
fn identity_rotation_at_extremes() {
    let v = Vec3::new(1048576, -1048576, 0);
    let r = apply_rotation(v, &Rotation::identity());
    assert_eq!(r, v);
}

#[test]
fn quarter_turn_about_x_exact() {
    // sin 90 = 1.0, cos 90 = 0.0 (scaled): (x, y, z) -> (x, -z, y)
    let rot = Rotation::new(SCALE, 0, 0, SCALE, 0, SCALE).unwrap();
    let r = apply_rotation(Vec3::new(100, 200, 300), &rot);
    assert_eq!(r, Vec3::new(100, -300, 200));
}

#[test]
fn quarter_turn_round_trip_exact() {
    let forward = Rotation::new(SCALE, 0, 0, SCALE, 0, SCALE).unwrap();
    let backward = Rotation::new(-SCALE, 0, 0, SCALE, 0, SCALE).unwrap();
    let v = Vec3::new(100, 200, 300);
    let r = apply_rotation(apply_rotation(v, &forward), &backward);
    assert_eq!(r, v);
}

#[test]
fn round_trip_about_y_within_epsilon() {
    // sin/cos of roughly 36.87 degrees, rounded to fixed point
    let s = 2458;
    let c = 3277;
    let forward = Rotation::new(0, SCALE, s, c, 0, SCALE).unwrap();
    let backward = Rotation::new(0, SCALE, -s, c, 0, SCALE).unwrap();
    let v = Vec3::new(4096, 0, 4096);
    let r = apply_rotation(apply_rotation(v, &forward), &backward);
    assert!((r.x - v.x).abs() <= 4, "x drifted: {}", r.x);
    assert_eq!(r.y, v.y);
    assert!((r.z - v.z).abs() <= 4, "z drifted: {}", r.z);
}

#[test]
fn round_trip_about_z_within_epsilon() {
    let s = 2458;
    let c = 3277;
    let forward = Rotation::new(0, SCALE, 0, SCALE, s, c).unwrap();
    let backward = Rotation::new(0, SCALE, 0, SCALE, -s, c).unwrap();
    let v = Vec3::new(-4096, 2048, 77);
    let r = apply_rotation(apply_rotation(v, &forward), &backward);
    assert!((r.x - v.x).abs() <= 4);
    assert!((r.y - v.y).abs() <= 4);
    assert_eq!(r.z, v.z);
}

#[test]
fn rotation_new_rejects_out_of_range() {
    assert!(Rotation::new(SCALE + 1, 0, 0, SCALE, 0, SCALE).is_none());
    assert!(Rotation::new(0, -SCALE - 1, 0, SCALE, 0, SCALE).is_none());
    assert!(Rotation::new(0, SCALE, 0, SCALE, 0, SCALE).is_some());
}
