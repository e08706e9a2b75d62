use softpipe::fixed::SCALE;
use softpipe::pipeline::build_draw_mesh;
use softpipe::pipeline::render_frame;
use softpipe::pipeline::render_scene;
use softpipe::pipeline::value_to_color;
use softpipe::rotation::Rotation;
use softpipe::scene::Light;
use softpipe::scene::Mesh;
use softpipe::scene::Scene;
use softpipe::sort::ProjectedTri;
use softpipe::vec3::Vec3;

// an 800 x 600 pixel canvas, in fixed-point steps
const CANVAS_W: i64 = 800 * 4096;
const CANVAS_H: i64 = 600 * 4096;

fn unit_triangle_mesh() -> Mesh {
    Mesh::new(
        String::from("triangle"),
        vec![Vec3::new(0, 0, 0), Vec3::new(SCALE, 0, 0), Vec3::new(0, SCALE, 0)],
        vec![0, 1, 2],
        Vec3::new(0, 0, 0),
        Rotation::identity(),
    )
    .unwrap()
}

fn unit_scene(light: Option<Light>) -> Scene {
    let mut s = Scene::new(Vec3::new(0, 0, 0), Rotation::identity()).unwrap();
    s.add_object(unit_triangle_mesh());
    s.set_light(light);
    s
}

#[test]
fn lit_unit_triangle_renders_on_canvas() {
    let light = Light::new(Vec3::new(0, 0, 5 * SCALE), 10 * SCALE).unwrap();
    let s = unit_scene(Some(light));
    let tris = render_scene(&s, CANVAS_W, CANVAS_H);
    assert_eq!(tris.len(), 1);
    let t = &tris[0];
    assert_eq!(t.object, 0);
    assert_eq!(t.depth, 0);
    // intensity 10 * cos 1 / 5^2 = 0.4, on the 20 + 255-step ramp: 121
    assert_eq!(t.shade, 121);
    assert!(t.shade > 20, "triangle facing the light must be lit");
    // all three corners inside the canvas
    for (x, y) in [(t.ax, t.ay), (t.bx, t.by), (t.cx, t.cy)] {
        assert!(0 <= x && x <= CANVAS_W);
        assert!(0 <= y && y <= CANVAS_H);
    }
    // exact screen points: centered, 100 pixels per unit
    assert_eq!((t.ax, t.ay), (400 * 4096, 300 * 4096));
    assert_eq!((t.bx, t.by), (500 * 4096, 300 * 4096));
    assert_eq!((t.cx, t.cy), (400 * 4096, 200 * 4096));
}

#[test]
fn light_behind_face_renders_unlit() {
    let light = Light::new(Vec3::new(0, 0, -5 * SCALE), 10 * SCALE).unwrap();
    let s = unit_scene(Some(light));
    let tris = render_scene(&s, CANVAS_W, CANVAS_H);
    assert_eq!(tris.len(), 1);
    // zero lighting: only the base tone of the color ramp remains
    assert_eq!(tris[0].shade, 20);
}

#[test]
fn camera_too_far_drops_triangle() {
    // scaled depth term -z/10 falls to -1.1: the triangle is clipped whole
    let light = Light::new(Vec3::new(0, 0, 5 * SCALE), 10 * SCALE).unwrap();
    let mut s = unit_scene(Some(light));
    assert!(s.set_camera_position(Vec3::new(0, 0, 11 * SCALE)));
    let tris = render_scene(&s, CANVAS_W, CANVAS_H);
    assert_eq!(tris.len(), 0);
}

#[test]
fn camera_just_near_enough_keeps_triangle() {
    let mut s = unit_scene(None);
    assert!(s.set_camera_position(Vec3::new(0, 0, 9 * SCALE)));
    let tris = render_scene(&s, CANVAS_W, CANVAS_H);
    assert_eq!(tris.len(), 1);
}

#[test]
fn farther_object_is_drawn_first() {
    let mut s = Scene::new(Vec3::new(0, 0, 0), Rotation::identity()).unwrap();
    let near = Mesh::new(
        String::from("near"),
        vec![Vec3::new(0, 0, 0), Vec3::new(SCALE, 0, 0), Vec3::new(0, SCALE, 0)],
        vec![0, 1, 2],
        Vec3::new(0, 0, -4 * SCALE),
        Rotation::identity(),
    )
    .unwrap();
    let far = Mesh::new(
        String::from("far"),
        vec![Vec3::new(0, 0, 0), Vec3::new(SCALE, 0, 0), Vec3::new(0, SCALE, 0)],
        vec![0, 1, 2],
        Vec3::new(0, 0, -8 * SCALE),
        Rotation::identity(),
    )
    .unwrap();
    s.add_object(near);
    s.add_object(far);
    let tris = render_scene(&s, CANVAS_W, CANVAS_H);
    assert_eq!(tris.len(), 2);
    assert_eq!(tris[0].object, 1, "the far triangle paints first");
    assert_eq!(tris[1].object, 0);
    assert!(tris[0].depth > tris[1].depth);
}

#[test]
fn render_frame_compiles_one_combined_mesh() {
    let s = unit_scene(None);
    let dm = render_frame(&s, CANVAS_W, CANVAS_H).unwrap();
    assert_eq!(dm.vertices.len(), 3);
    assert_eq!(dm.triangles.len(), 1);
    assert_eq!(dm.triangles[0], (0, 1, 2));
    assert_eq!(dm.vertices[0].shade, 20);
    assert_eq!((dm.vertices[0].x, dm.vertices[0].y), (400 * 4096, 300 * 4096));
}

#[test]
fn build_draw_mesh_lays_out_three_vertices_per_triangle() {
    let t0 = ProjectedTri {
        object: 0,
        ax: 1,
        ay: 2,
        bx: 3,
        by: 4,
        cx: 5,
        cy: 6,
        depth: 9,
        shade: 7,
    };
    let t1 = ProjectedTri {
        object: 1,
        ax: 10,
        ay: 20,
        bx: 30,
        by: 40,
        cx: 50,
        cy: 60,
        depth: 2,
        shade: 8,
    };
    let dm = build_draw_mesh(&vec![t0, t1]);
    assert_eq!(dm.vertices.len(), 6);
    assert_eq!(dm.triangles, vec![(0, 1, 2), (3, 4, 5)]);
    assert_eq!((dm.vertices[0].x, dm.vertices[0].y, dm.vertices[0].shade), (1, 2, 7));
    assert_eq!((dm.vertices[1].x, dm.vertices[1].y, dm.vertices[1].shade), (3, 4, 7));
    assert_eq!((dm.vertices[2].x, dm.vertices[2].y, dm.vertices[2].shade), (5, 6, 7));
    assert_eq!((dm.vertices[3].x, dm.vertices[3].y, dm.vertices[3].shade), (10, 20, 8));
}

#[test]
fn value_to_color_interpolates_and_saturates() {
    assert_eq!(value_to_color(0, 0, SCALE), 20);
    assert_eq!(value_to_color(-5, 0, SCALE), 20);
    assert_eq!(value_to_color(2048, 0, SCALE), 147);
    // full intensity overshoots the ramp and saturates
    assert_eq!(value_to_color(SCALE, 0, SCALE), 255);
    assert_eq!(value_to_color(SCALE * 9, 0, SCALE), 255);
}

#[test]
fn scene_without_light_renders_base_tone() {
    let s = unit_scene(None);
    let tris = render_scene(&s, CANVAS_W, CANVAS_H);
    assert_eq!(tris.len(), 1);
    assert_eq!(tris[0].shade, 20);
}

#[test]
fn depth_key_is_negated_mean_of_camera_space_z() {
    let mut s = unit_scene(None);
    // camera two units along -Z: every vertex sits at z = -2 in camera space
    assert!(s.set_camera_position(Vec3::new(0, 0, -2 * SCALE)));
    let tris = render_scene(&s, CANVAS_W, CANVAS_H);
    assert_eq!(tris.len(), 1);
    assert_eq!(tris[0].depth, 2 * SCALE);
}

#[test]
fn quarter_turn_about_z_swaps_screen_axes() {
    let mut s = Scene::new(Vec3::new(0, 0, 0), Rotation::identity()).unwrap();
    let quarter = Rotation::new(0, SCALE, 0, SCALE, SCALE, 0).unwrap();
    let m = Mesh::new(
        String::from("triangle"),
        vec![Vec3::new(0, 0, 0), Vec3::new(SCALE, 0, 0), Vec3::new(0, SCALE, 0)],
        vec![0, 1, 2],
        Vec3::new(0, 0, 0),
        quarter,
    )
    .unwrap();
    s.add_object(m);
    let tris = render_scene(&s, CANVAS_W, CANVAS_H);
    assert_eq!(tris.len(), 1);
    let t = &tris[0];
    // (1,0,0) rotates to (0,1,0); (0,1,0) rotates to (-1,0,0)
    assert_eq!((t.ax, t.ay), (400 * 4096, 300 * 4096));
    assert_eq!((t.bx, t.by), (400 * 4096, 200 * 4096));
    assert_eq!((t.cx, t.cy), (300 * 4096, 300 * 4096));
}
