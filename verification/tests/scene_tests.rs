use softpipe::fixed::MAX_COORD;
use softpipe::fixed::SCALE;
use softpipe::rotation::Rotation;
use softpipe::scene::Light;
use softpipe::scene::Mesh;
use softpipe::scene::Scene;
use softpipe::vec3::Vec3;

fn unit_mesh() -> Mesh {
    Mesh::new(
        String::from("triangle"),
        vec![Vec3::new(0, 0, 0), Vec3::new(SCALE, 0, 0), Vec3::new(0, SCALE, 0)],
        vec![0, 1, 2],
        Vec3::new(0, 0, 0),
        Rotation::identity(),
    )
    .unwrap()
}

#[test]
fn mesh_new_accepts_valid_geometry() {
    let m = unit_mesh();
    assert_eq!(m.vertex_count(), 3);
    assert_eq!(m.triangle_count(), 1);
    assert_eq!(m.name().as_str(), "triangle");
    assert_eq!(m.position(), Vec3::new(0, 0, 0));
}

#[test]
fn mesh_new_rejects_index_out_of_range() {
    let m = Mesh::new(
        String::from("bad"),
        vec![Vec3::new(0, 0, 0), Vec3::new(SCALE, 0, 0)],
        vec![0, 1, 2],
        Vec3::new(0, 0, 0),
        Rotation::identity(),
    );
    assert!(m.is_none());
}

#[test]
fn mesh_new_rejects_partial_triangle() {
    let m = Mesh::new(
        String::from("bad"),
        vec![Vec3::new(0, 0, 0), Vec3::new(SCALE, 0, 0), Vec3::new(0, SCALE, 0)],
        vec![0, 1],
        Vec3::new(0, 0, 0),
        Rotation::identity(),
    );
    assert!(m.is_none());
}

#[test]
fn mesh_new_rejects_out_of_range_vertex() {
    let m = Mesh::new(
        String::from("bad"),
        vec![Vec3::new(MAX_COORD + 1, 0, 0), Vec3::new(SCALE, 0, 0), Vec3::new(0, SCALE, 0)],
        vec![0, 1, 2],
        Vec3::new(0, 0, 0),
        Rotation::identity(),
    );
    assert!(m.is_none());
}

#[test]
fn mesh_new_rejects_out_of_range_position() {
    let m = Mesh::new(
        String::from("bad"),
        vec![Vec3::new(0, 0, 0), Vec3::new(SCALE, 0, 0), Vec3::new(0, SCALE, 0)],
        vec![0, 1, 2],
        Vec3::new(0, -MAX_COORD - 1, 0),
        Rotation::identity(),
    );
    assert!(m.is_none());
}

#[test]
fn mesh_set_position_is_checked() {
    let mut m = unit_mesh();
    assert!(m.set_position(Vec3::new(5, 6, 7)));
    assert_eq!(m.position(), Vec3::new(5, 6, 7));
    assert!(!m.set_position(Vec3::new(MAX_COORD + 1, 0, 0)));
    assert_eq!(m.position(), Vec3::new(5, 6, 7));
}

#[test]
fn light_new_is_checked() {
    assert!(Light::new(Vec3::new(0, 0, 0), -1).is_none());
    assert!(Light::new(Vec3::new(MAX_COORD + 1, 0, 0), 10).is_none());
    let l = Light::new(Vec3::new(1, 2, 3), 10 * SCALE).unwrap();
    assert_eq!(l.position(), Vec3::new(1, 2, 3));
    assert_eq!(l.intensity(), 10 * SCALE);
}

#[test]
fn scene_object_lookup_is_checked() {
    let mut s = Scene::new(Vec3::new(0, 0, 0), Rotation::identity()).unwrap();
    assert_eq!(s.object_count(), 0);
    assert!(s.get_object(0).is_none());
    s.add_object(unit_mesh());
    assert_eq!(s.object_count(), 1);
    assert!(s.get_object(0).is_some());
    assert!(s.get_object(1).is_none());
}

#[test]
fn scene_remove_object_is_checked() {
    let mut s = Scene::new(Vec3::new(0, 0, 0), Rotation::identity()).unwrap();
    s.add_object(unit_mesh());
    assert!(!s.remove_object(1));
    assert_eq!(s.object_count(), 1);
    assert!(s.remove_object(0));
    assert_eq!(s.object_count(), 0);
}

#[test]
fn scene_camera_setters_are_checked() {
    let mut s = Scene::new(Vec3::new(0, 0, 0), Rotation::identity()).unwrap();
    assert!(s.set_camera_position(Vec3::new(100, 200, 300)));
    assert_eq!(s.camera_position(), Vec3::new(100, 200, 300));
    assert!(!s.set_camera_position(Vec3::new(0, 0, MAX_COORD + 1)));
    assert_eq!(s.camera_position(), Vec3::new(100, 200, 300));
}

#[test]
fn scene_new_rejects_bad_camera() {
    assert!(Scene::new(Vec3::new(MAX_COORD + 1, 0, 0), Rotation::identity()).is_none());
}

#[test]
fn scene_object_transform_edits_are_checked() {
    let mut s = Scene::new(Vec3::new(0, 0, 0), Rotation::identity()).unwrap();
    s.add_object(unit_mesh());
    assert!(s.set_object_position(0, Vec3::new(7, 8, 9)));
    assert_eq!(s.get_object(0).unwrap().position(), Vec3::new(7, 8, 9));
    assert!(!s.set_object_position(3, Vec3::new(7, 8, 9)));
    let quarter = Rotation::new(SCALE, 0, 0, SCALE, 0, SCALE).unwrap();
    assert!(s.set_object_rotation(0, quarter));
    assert_eq!(s.get_object(0).unwrap().rotation(), quarter);
}

#[test]
fn scene_light_can_be_set_and_cleared() {
    let mut s = Scene::new(Vec3::new(0, 0, 0), Rotation::identity()).unwrap();
    assert!(s.light().is_none());
    let l = Light::new(Vec3::new(1, 2, 3), SCALE).unwrap();
    s.set_light(Some(l));
    assert_eq!(s.light().unwrap().intensity(), SCALE);
    s.set_light(None);
    assert!(s.light().is_none());
}
