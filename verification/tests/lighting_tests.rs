use softpipe::fixed::SCALE;
use softpipe::lighting::calculate_lighting;
use softpipe::lighting::calculate_normal;
use softpipe::vec3::Vec3;

fn unit_triangle() -> (Vec3, Vec3, Vec3) {
    (Vec3::new(0, 0, 0), Vec3::new(SCALE, 0, 0), Vec3::new(0, SCALE, 0))
}

#[test]
fn normal_of_unit_triangle_is_plus_z() {
    let (a, b, c) = unit_triangle();
    let n = calculate_normal(a, b, c).unwrap();
    assert_eq!(n, Vec3::new(0, 0, SCALE));
}

#[test]
fn normal_of_xz_triangle_is_minus_y() {
    let a = Vec3::new(0, 0, 0);
    let b = Vec3::new(SCALE, 0, 0);
    let c = Vec3::new(0, 0, SCALE);
    let n = calculate_normal(a, b, c).unwrap();
    assert_eq!(n, Vec3::new(0, -SCALE, 0));
}

#[test]
fn normal_is_unit_for_skewed_triangle() {
    let a = Vec3::new(100, 200, 300);
    let b = Vec3::new(5000, 900, -250);
    let c = Vec3::new(-1200, 4800, 2222);
    let n = calculate_normal(a, b, c).unwrap();
    let norm_sq = n.x * n.x + n.y * n.y + n.z * n.z;
    let unit = SCALE * SCALE;
    assert!((norm_sq - unit).abs() <= 8 * SCALE + 3, "norm_sq = {}", norm_sq);
}

#[test]
fn normal_of_degenerate_triangle_is_none() {
    let a = Vec3::new(10, 20, 30);
    let b = Vec3::new(20, 40, 60);
    // collinear with a and b
    let c = Vec3::new(30, 60, 90);
    assert!(calculate_normal(a, b, c).is_none());
    assert!(calculate_normal(a, a, b).is_none());
}

#[test]
fn front_light_follows_inverse_square_law() {
    // light 5 units above the face, intensity 10: expect 10 * 1 / 25 = 0.4
    let (a, b, c) = unit_triangle();
    let light = Vec3::new(0, 0, 5 * SCALE);
    let lum = calculate_lighting(a, b, c, light, 10 * SCALE, 100 * SCALE);
    assert_eq!(lum, 1638);
}

#[test]
fn light_behind_face_gives_exactly_zero() {
    let (a, b, c) = unit_triangle();
    let light = Vec3::new(0, 0, -5 * SCALE);
    let lum = calculate_lighting(a, b, c, light, 10 * SCALE, 100 * SCALE);
    assert_eq!(lum, 0);
}

#[test]
fn grazing_light_gives_exactly_zero() {
    // light in the triangle's own plane: cosine is zero, not positive
    let (a, b, c) = unit_triangle();
    let light = Vec3::new(5 * SCALE, 0, 0);
    let lum = calculate_lighting(a, b, c, light, 10 * SCALE, 100 * SCALE);
    assert_eq!(lum, 0);
}

#[test]
fn light_out_of_range_gives_exactly_zero() {
    // distance 5 units, cutoff 4 units: zero regardless of orientation
    let (a, b, c) = unit_triangle();
    let light = Vec3::new(0, 0, 5 * SCALE);
    assert_eq!(calculate_lighting(a, b, c, light, 10 * SCALE, 4 * SCALE), 0);
    assert_eq!(calculate_lighting(a, c, b, light, 10 * SCALE, 4 * SCALE), 0);
}

#[test]
fn light_on_anchor_vertex_gives_zero() {
    let (a, b, c) = unit_triangle();
    let lum = calculate_lighting(a, b, c, Vec3::new(0, 0, 0), 10 * SCALE, 100 * SCALE);
    assert_eq!(lum, 0);
}

#[test]
fn degenerate_triangle_gives_zero_lighting() {
    let a = Vec3::new(10, 20, 30);
    let b = Vec3::new(20, 40, 60);
    let c = Vec3::new(30, 60, 90);
    let light = Vec3::new(0, 0, 5 * SCALE);
    assert_eq!(calculate_lighting(a, b, c, light, 10 * SCALE, 100 * SCALE), 0);
}

#[test]
fn nearer_light_is_brighter() {
    // inverse-square falloff: 2 units away gives 10/4, 5 units away 10/25
    let (a, b, c) = unit_triangle();
    let near = calculate_lighting(a, b, c, Vec3::new(0, 0, 2 * SCALE), 10 * SCALE, 100 * SCALE);
    let far = calculate_lighting(a, b, c, Vec3::new(0, 0, 5 * SCALE), 10 * SCALE, 100 * SCALE);
    assert_eq!(near, 10240);
    assert_eq!(far, 1638);
    assert!(near > far);
}
