//! The per-frame transform and projection pipeline.
//!
//! For every triangle of every mesh: rotate each vertex by the object's
//! rotation, translate by the object's position (world space — lighting is
//! evaluated here, independent of the camera), translate by the camera
//! position with a fixed depth bias, rotate by the camera rotation, and
//! project to screen space with a per-vertex approximate perspective divide
//! `1/(1 + z/10)`.  Triangles whose scaled depth term falls to `-1` or below
//! are dropped whole; the survivors are depth-sorted back to front.

use crate::fixed::MAX_COORD;
use crate::fixed::SCALE;
use crate::fixed::div_trunc;
use crate::fixed::lemma_tdiv_close;
use crate::fixed::lemma_tdiv_le;
use crate::fixed::lemma_tdiv_mag;
use crate::fixed::tdiv;
use crate::lighting::calculate_lighting;
use crate::lighting::lighting_spec;
use crate::rotation::Rotation;
use crate::rotation::apply_rotation;
use crate::rotation::rot_spec;
use crate::scene::Light;
use crate::scene::LightView;
use crate::scene::MeshView;
use crate::scene::Scene;
use crate::scene::SceneView;
use crate::sort::ProjectedTri;
use crate::sort::sort_spec;
use crate::sort::sort_triangles;
use crate::sort::sorted_back_to_front;
use crate::vec3::Vec3;
use crate::vec3::mag;
use crate::vec3::vadd;
use vstd::arithmetic::div_mod::lemma_fundamental_div_mod;
use vstd::math::abs;
use vstd::prelude::*;

verus! {

/// Depth bias added to camera-relative Z before the camera rotation and
/// removed after it: 10 world units, keeping geometry in front of the
/// projection plane regardless of camera distance.
pub const DEPTH_BIAS: i64 = 40960;

/// The distance beyond which a light contributes nothing: 5000 world units.
pub const LIGHT_RANGE: i64 = 20480000;

/// Pixels per world unit at a perspective factor of one.
pub const SCREEN_SCALE: i64 = 100;

/// Largest accepted canvas dimension, in fixed-point steps (16384 pixels).
pub const CANVAS_MAX: i64 = 67108864;

/// Object rotation followed by world translation ("pose" space, where
/// lighting is evaluated).
pub open spec fn pose_vertex_spec(v: (int, int, int), rot: Rotation, pos: (int, int, int)) -> (
    int,
    int,
    int,
) {
    vadd(rot_spec(v, rot), pos)
}

/// Camera-relative translation with the depth bias, camera rotation, then
/// removal of the bias: camera space.
pub open spec fn camera_vertex_spec(
    p: (int, int, int),
    cam_pos: (int, int, int),
    cam_rot: Rotation,
) -> (int, int, int) {
    let shifted = (p.0 + cam_pos.0, p.1 + cam_pos.1, p.2 + cam_pos.2 - DEPTH_BIAS as int);
    let r = rot_spec(shifted, cam_rot);
    (r.0, r.1, r.2 + DEPTH_BIAS as int)
}

/// The scaled per-vertex depth term `-z/10` of the approximate perspective
/// divide `1/(1 + z/10)`.
pub open spec fn depth_term_spec(z: int) -> int {
    tdiv(-z, 10)
}

/// A triangle is kept only if every vertex's depth term stays above `-1`.
pub open spec fn accepted_spec(qa: (int, int, int), qb: (int, int, int), qc: (int, int, int)) -> bool {
    &&& depth_term_spec(qa.2) > -(SCALE as int)
    &&& depth_term_spec(qb.2) > -(SCALE as int)
    &&& depth_term_spec(qc.2) > -(SCALE as int)
}

/// Screen X: perspective-divided, scaled to pixels, centered.
pub open spec fn screen_x_spec(x: int, dt: int, w: int) -> int {
    tdiv(x * SCREEN_SCALE * SCALE, SCALE + dt) + tdiv(w, 2)
}

/// Screen Y: as X, but flipped to the canvas's top-down convention.
pub open spec fn screen_y_spec(y: int, dt: int, h: int) -> int {
    h - tdiv(y * SCREEN_SCALE * SCALE, SCALE + dt) - tdiv(h, 2)
}

/// The light a world-space triangle receives; no light means darkness.
pub open spec fn luminance_spec(
    light: Option<LightView>,
    pa: (int, int, int),
    pb: (int, int, int),
    pc: (int, int, int),
) -> int {
    match light {
        Some(l) => lighting_spec(pa, pb, pc, l.position, l.intensity, LIGHT_RANGE as int),
        None => 0,
    }
}

/// Maps an intensity into a grayscale channel: clamp into `[min, max]`,
/// interpolate over a 0..255 ramp lifted by a base tone of 20, and saturate
/// at 255.
pub open spec fn value_to_color_spec(value: int, min_value: int, max_value: int) -> int {
    let clamped = if value < min_value {
        min_value
    } else if value > max_value {
        max_value
    } else {
        value
    };
    let channel = 20 + tdiv((clamped - min_value) * 255, max_value - min_value);
    if channel > 255 {
        255
    } else {
        channel
    }
}

pub open spec fn opt_light_view(light: Option<Light>) -> Option<LightView> {
    match light {
        Some(l) => Some(l@),
        None => None,
    }
}

/// What one triangle of one object becomes on screen: `None` if clipped,
/// otherwise its three projected points, depth key (negated mean of the
/// camera-space Z), and flat shade.
pub open spec fn project_tri_spec(
    object: usize,
    va: (int, int, int),
    vb: (int, int, int),
    vc: (int, int, int),
    mesh_rot: Rotation,
    mesh_pos: (int, int, int),
    cam_pos: (int, int, int),
    cam_rot: Rotation,
    light: Option<LightView>,
    w: int,
    h: int,
) -> Option<ProjectedTri> {
    let pa = pose_vertex_spec(va, mesh_rot, mesh_pos);
    let pb = pose_vertex_spec(vb, mesh_rot, mesh_pos);
    let pc = pose_vertex_spec(vc, mesh_rot, mesh_pos);
    let lum = luminance_spec(light, pa, pb, pc);
    let qa = camera_vertex_spec(pa, cam_pos, cam_rot);
    let qb = camera_vertex_spec(pb, cam_pos, cam_rot);
    let qc = camera_vertex_spec(pc, cam_pos, cam_rot);
    if accepted_spec(qa, qb, qc) {
        Some(
            ProjectedTri {
                object: object,
                ax: screen_x_spec(qa.0, depth_term_spec(qa.2), w) as i64,
                ay: screen_y_spec(qa.1, depth_term_spec(qa.2), h) as i64,
                bx: screen_x_spec(qb.0, depth_term_spec(qb.2), w) as i64,
                by: screen_y_spec(qb.1, depth_term_spec(qb.2), h) as i64,
                cx: screen_x_spec(qc.0, depth_term_spec(qc.2), w) as i64,
                cy: screen_y_spec(qc.1, depth_term_spec(qc.2), h) as i64,
                depth: tdiv(-(qa.2 + qb.2 + qc.2), 3) as i64,
                shade: value_to_color_spec(lum, 0, SCALE as int) as u8,
            },
        )
    } else {
        None
    }
}

/// Maps an intensity into a grayscale channel (see `value_to_color_spec`).
pub fn value_to_color(value: i64, min_value: i64, max_value: i64) -> (r: u8)
    requires
        -1099511627776 <= min_value < max_value <= 1099511627776,
    ensures
        r == value_to_color_spec(value as int, min_value as int, max_value as int),
{
    let clamped = if value < min_value {
        min_value
    } else if value > max_value {
        max_value
    } else {
        value
    };
    let range = max_value - min_value;
    let num = clamped - min_value;
    let scaled = num * 255;
    proof {
        assert(abs(scaled as int) <= 255 * (range as int));
        lemma_tdiv_le(scaled as int, range as int, 255);
        lemma_tdiv_close(scaled as int, range as int);
    }
    let q = div_trunc(scaled, range);
    let channel = 20 + q;
    if channel > 255 {
        255u8
    } else {
        channel as u8
    }
}

/// Transforms, lights, clips and projects one triangle, given in the mesh's
/// local space.
#[verifier::rlimit(80)]
pub fn project_triangle(
    object_index: usize,
    vertex_a: Vec3,
    vertex_b: Vec3,
    vertex_c: Vec3,
    mesh_rotation: &Rotation,
    mesh_position: Vec3,
    camera_position: Vec3,
    camera_rotation: &Rotation,
    light: Option<Light>,
    canvas_width: i64,
    canvas_height: i64,
) -> (r: Option<ProjectedTri>)
    requires
        mesh_rotation.wf(),
        camera_rotation.wf(),
        mag(vertex_a@) <= MAX_COORD as int,
        mag(vertex_b@) <= MAX_COORD as int,
        mag(vertex_c@) <= MAX_COORD as int,
        mag(mesh_position@) <= MAX_COORD as int,
        mag(camera_position@) <= MAX_COORD as int,
        0 <= canvas_width <= CANVAS_MAX as int,
        0 <= canvas_height <= CANVAS_MAX as int,
    ensures
        r == project_tri_spec(
            object_index,
            vertex_a@,
            vertex_b@,
            vertex_c@,
            *mesh_rotation,
            mesh_position@,
            camera_position@,
            *camera_rotation,
            opt_light_view(light),
            canvas_width as int,
            canvas_height as int,
        ),
{
    let ra = apply_rotation(vertex_a, mesh_rotation);
    let rb = apply_rotation(vertex_b, mesh_rotation);
    let rc = apply_rotation(vertex_c, mesh_rotation);
    let pa = Vec3 {
        x: ra.x + mesh_position.x,
        y: ra.y + mesh_position.y,
        z: ra.z + mesh_position.z,
    };
    let pb = Vec3 {
        x: rb.x + mesh_position.x,
        y: rb.y + mesh_position.y,
        z: rb.z + mesh_position.z,
    };
    let pc = Vec3 {
        x: rc.x + mesh_position.x,
        y: rc.y + mesh_position.y,
        z: rc.z + mesh_position.z,
    };
    proof {
        assert(pa@ == pose_vertex_spec(vertex_a@, *mesh_rotation, mesh_position@));
        assert(pb@ == pose_vertex_spec(vertex_b@, *mesh_rotation, mesh_position@));
        assert(pc@ == pose_vertex_spec(vertex_c@, *mesh_rotation, mesh_position@));
        assert(mag(pa@) <= 9437184);
        assert(mag(pb@) <= 9437184);
        assert(mag(pc@) <= 9437184);
    }
    let lum: i64 = match light {
        Some(l) => {
            proof {
                use_type_invariant(&l);
            }
            calculate_lighting(pa, pb, pc, l.position, l.intensity, LIGHT_RANGE)
        },
        None => 0,
    };
    proof {
        assert(lum == luminance_spec(opt_light_view(light), pa@, pb@, pc@));
    }
    let qa = camera_vertex(pa, camera_position, camera_rotation);
    let qb = camera_vertex(pb, camera_position, camera_rotation);
    let qc = camera_vertex(pc, camera_position, camera_rotation);
    let da = div_trunc(-qa.z, 10);
    let db = div_trunc(-qb.z, 10);
    let dc = div_trunc(-qc.z, 10);
    proof {
        lemma_tdiv_mag(-(qa.z as int), 10);
        lemma_tdiv_mag(-(qb.z as int), 10);
        lemma_tdiv_mag(-(qc.z as int), 10);
    }
    if da > -SCALE && db > -SCALE && dc > -SCALE {
        let zsum = qa.z + qb.z + qc.z;
        let depth = div_trunc(-zsum, 3);
        proof {
            lemma_tdiv_mag(-(zsum as int), 3);
        }
        let shade = value_to_color(lum, 0, SCALE);
        let (ax, ay) = screen_point(qa, da, canvas_width, canvas_height);
        let (bx, by) = screen_point(qb, db, canvas_width, canvas_height);
        let (cx, cy) = screen_point(qc, dc, canvas_width, canvas_height);
        Some(ProjectedTri { object: object_index, ax, ay, bx, by, cx, cy, depth, shade })
    } else {
        None
    }
}

/// Camera-relative translation, depth bias, camera rotation, bias removal.
fn camera_vertex(p: Vec3, camera_position: Vec3, camera_rotation: &Rotation) -> (q: Vec3)
    requires
        camera_rotation.wf(),
        mag(p@) <= 9437184,
        mag(camera_position@) <= MAX_COORD as int,
    ensures
        q@ == camera_vertex_spec(p@, camera_position@, *camera_rotation),
        mag(q@) <= 84254720,
{
    let shifted = Vec3 {
        x: p.x + camera_position.x,
        y: p.y + camera_position.y,
        z: p.z + camera_position.z - DEPTH_BIAS,
    };
    proof {
        assert(mag(shifted@) <= 10526720);
    }
    let r = apply_rotation(shifted, camera_rotation);
    Vec3 { x: r.x, y: r.y, z: r.z + DEPTH_BIAS }
}

/// Projects one accepted camera-space vertex to a screen point.
fn screen_point(q: Vec3, dt: i64, canvas_width: i64, canvas_height: i64) -> (r: (i64, i64))
    requires
        mag(q@) <= 84254720,
        dt == depth_term_spec(q@.2),
        dt > -(SCALE as int),
        0 <= canvas_width <= CANVAS_MAX as int,
        0 <= canvas_height <= CANVAS_MAX as int,
    ensures
        r.0 == screen_x_spec(q@.0, dt as int, canvas_width as int),
        r.1 == screen_y_spec(q@.1, dt as int, canvas_height as int),
{
    let divisor = SCALE + dt;
    proof {
        lemma_tdiv_mag(-(q.z as int), 10);
    }
    let sx = q.x * SCREEN_SCALE * SCALE;
    let sy = q.y * SCREEN_SCALE * SCALE;
    proof {
        lemma_tdiv_mag(sx as int, divisor as int);
        lemma_tdiv_mag(sy as int, divisor as int);
    }
    let px = div_trunc(sx, divisor) + div_trunc(canvas_width, 2);
    let py = canvas_height - div_trunc(sy, divisor) - div_trunc(canvas_height, 2);
    (px, py)
}

pub open spec fn opt_to_seq(t: Option<ProjectedTri>) -> Seq<ProjectedTri> {
    match t {
        Some(x) => seq![x],
        None => Seq::empty(),
    }
}

/// The `k`-th triangle of a mesh, projected.
pub open spec fn mesh_tri_spec(
    m: MeshView,
    object: usize,
    cam_pos: (int, int, int),
    cam_rot: Rotation,
    light: Option<LightView>,
    w: int,
    h: int,
    k: int,
) -> Option<ProjectedTri> {
    project_tri_spec(
        object,
        m.vertices[m.indices[3 * k]],
        m.vertices[m.indices[3 * k + 1]],
        m.vertices[m.indices[3 * k + 2]],
        m.rotation,
        m.position,
        cam_pos,
        cam_rot,
        light,
        w,
        h,
    )
}

/// The accepted triangles among a mesh's first `upto` triangles, in order.
pub open spec fn mesh_frame_spec(
    m: MeshView,
    object: usize,
    cam_pos: (int, int, int),
    cam_rot: Rotation,
    light: Option<LightView>,
    w: int,
    h: int,
    upto: int,
) -> Seq<ProjectedTri>
    decreases upto,
{
    if upto <= 0 {
        Seq::empty()
    } else {
        mesh_frame_spec(m, object, cam_pos, cam_rot, light, w, h, upto - 1) + opt_to_seq(
            mesh_tri_spec(m, object, cam_pos, cam_rot, light, w, h, upto - 1),
        )
    }
}

/// The accepted triangles of the scene's first `upto` objects, in order.
pub open spec fn frame_upto_spec(s: SceneView, w: int, h: int, upto: int) -> Seq<ProjectedTri>
    decreases upto,
{
    if upto <= 0 {
        Seq::empty()
    } else {
        frame_upto_spec(s, w, h, upto - 1) + mesh_frame_spec(
            s.objects[upto - 1],
            (upto - 1) as usize,
            s.camera_position,
            s.camera_rotation,
            s.light,
            w,
            h,
            s.objects[upto - 1].indices.len() as int / 3,
        )
    }
}

/// Every triangle the scene puts on screen this frame, in scene order,
/// before sorting.
pub open spec fn frame_spec(s: SceneView, w: int, h: int) -> Seq<ProjectedTri> {
    frame_upto_spec(s, w, h, s.objects.len() as int)
}

/// Renders one frame: every triangle of every object is transformed, lit,
/// clipped and projected, and the survivors are depth-sorted back to front.
#[verifier::loop_isolation(false)]
#[verifier::rlimit(80)]
pub fn render_scene(scene: &Scene, canvas_width: i64, canvas_height: i64) -> (r: Vec<ProjectedTri>)
    requires
        0 <= canvas_width <= CANVAS_MAX as int,
        0 <= canvas_height <= CANVAS_MAX as int,
    ensures
        r@ == sort_spec(frame_spec(scene@, canvas_width as int, canvas_height as int)),
        sorted_back_to_front(r@),
        r@.to_multiset() == frame_spec(
            scene@,
            canvas_width as int,
            canvas_height as int,
        ).to_multiset(),
{
    proof {
        use_type_invariant(&*scene);
    }
    let ghost w = canvas_width as int;
    let ghost h = canvas_height as int;
    let mut tris: Vec<ProjectedTri> = Vec::new();
    let mut oi: usize = 0;
    proof {
        assert(tris@ =~= frame_upto_spec(scene@, w, h, 0));
    }
    while oi < scene.objects.len()
        invariant
            oi <= scene@.objects.len(),
            tris@ == frame_upto_spec(scene@, w, h, oi as int),
        decreases scene@.objects.len() - oi,
    {
        let mesh = &scene.objects[oi];
        proof {
            use_type_invariant(&*mesh);
            assert(scene@.objects[oi as int] == mesh@);
        }
        let ghost mv = mesh@;
        let tri_count = mesh.indices.len() / 3;
        proof {
            lemma_fundamental_div_mod(mesh.indices@.len() as int, 3);
            assert(mv.indices.len() == mesh.indices@.len());
        }
        let mut k: usize = 0;
        while k < tri_count
            invariant
                k <= tri_count,
                tris@ == frame_upto_spec(scene@, w, h, oi as int) + mesh_frame_spec(
                    mv,
                    oi,
                    scene@.camera_position,
                    scene@.camera_rotation,
                    scene@.light,
                    w,
                    h,
                    k as int,
                ),
            decreases tri_count - k,
        {
            proof {
                assert(3 * (k as int) + 2 < mesh.indices@.len());
            }
            let base = 3 * k;
            let ia = mesh.indices[base] as usize;
            let ib = mesh.indices[base + 1] as usize;
            let ic = mesh.indices[base + 2] as usize;
            proof {
                assert(mv.indices[base as int] == mesh.indices@[base as int] as int);
                assert(mv.indices[base as int + 1] == mesh.indices@[base as int + 1] as int);
                assert(mv.indices[base as int + 2] == mesh.indices@[base as int + 2] as int);
                assert(mv.vertices.len() == mesh.vertices@.len());
                assert(ia < mesh.vertices@.len());
                assert(ib < mesh.vertices@.len());
                assert(ic < mesh.vertices@.len());
            }
            let va = mesh.vertices[ia];
            let vb = mesh.vertices[ib];
            let vc = mesh.vertices[ic];
            proof {
                assert(mv.vertices[ia as int] == va@);
                assert(mv.vertices[ib as int] == vb@);
                assert(mv.vertices[ic as int] == vc@);
            }
            let t = project_triangle(
                oi,
                va,
                vb,
                vc,
                &mesh.rotation,
                mesh.position,
                scene.camera_position,
                &scene.camera_rotation,
                scene.light,
                canvas_width,
                canvas_height,
            );
            proof {
                assert(opt_light_view(scene.light) == scene@.light);
                assert(t == mesh_tri_spec(
                    mv,
                    oi,
                    scene@.camera_position,
                    scene@.camera_rotation,
                    scene@.light,
                    w,
                    h,
                    k as int,
                ));
            }
            let ghost before = tris@;
            match t {
                Some(tri) => {
                    tris.push(tri);
                },
                None => {},
            }
            proof {
                assert(tris@ =~= before + opt_to_seq(t));
                assert(tris@ =~= frame_upto_spec(scene@, w, h, oi as int) + mesh_frame_spec(
                    mv,
                    oi,
                    scene@.camera_position,
                    scene@.camera_rotation,
                    scene@.light,
                    w,
                    h,
                    k as int + 1,
                ));
            }
            k = k + 1;
        }
        proof {
            assert(tri_count as int == mv.indices.len() as int / 3);
            assert(frame_upto_spec(scene@, w, h, oi as int + 1) == frame_upto_spec(
                scene@,
                w,
                h,
                oi as int,
            ) + mesh_frame_spec(
                mv,
                oi,
                scene@.camera_position,
                scene@.camera_rotation,
                scene@.light,
                w,
                h,
                mv.indices.len() as int / 3,
            ));
        }
        oi = oi + 1;
    }
    proof {
        assert(tris@ == frame_spec(scene@, w, h));
    }
    sort_triangles(tris)
}

/// One vertex of the combined frame mesh: a screen point and its shade.
#[derive(Clone, Copy, PartialEq, Eq, Structural, Debug)]
pub struct DrawVertex {
    pub x: i64,
    pub y: i64,
    pub shade: u8,
}

/// The single renderable mesh a frame compiles to: three shaded vertices per
/// triangle and one index triple per triangle, in draw order.
pub struct DrawMesh {
    pub vertices: Vec<DrawVertex>,
    pub triangles: Vec<(u32, u32, u32)>,
}

/// Flattens an ordered triangle list into one combined draw mesh: triangle
/// `i` becomes vertices `3i, 3i+1, 3i+2` and the index triple
/// `(3i, 3i+1, 3i+2)`, in the order given.
#[verifier::loop_isolation(false)]
pub fn build_draw_mesh(tris: &Vec<ProjectedTri>) -> (r: DrawMesh)
    requires
        3 * tris@.len() <= u32::MAX,
    ensures
        r.vertices@.len() == 3 * tris@.len(),
        r.triangles@.len() == tris@.len(),
        forall|i: int|
            0 <= i < tris@.len() ==> {
                let t = #[trigger] tris@[i];
                &&& r.vertices@[3 * i] == (DrawVertex { x: t.ax, y: t.ay, shade: t.shade })
                &&& r.vertices@[3 * i + 1] == (DrawVertex { x: t.bx, y: t.by, shade: t.shade })
                &&& r.vertices@[3 * i + 2] == (DrawVertex { x: t.cx, y: t.cy, shade: t.shade })
                &&& r.triangles@[i] == (((3 * i) as u32, (3 * i + 1) as u32, (3 * i + 2) as u32))
            },
{
    let mut vertices: Vec<DrawVertex> = Vec::new();
    let mut triangles: Vec<(u32, u32, u32)> = Vec::new();
    let mut i: usize = 0;
    while i < tris.len()
        invariant
            i <= tris@.len(),
            vertices@.len() == 3 * i,
            triangles@.len() == i,
            forall|j: int|
                0 <= j < i ==> {
                    let t = #[trigger] tris@[j];
                    &&& vertices@[3 * j] == (DrawVertex { x: t.ax, y: t.ay, shade: t.shade })
                    &&& vertices@[3 * j + 1] == (DrawVertex { x: t.bx, y: t.by, shade: t.shade })
                    &&& vertices@[3 * j + 2] == (DrawVertex { x: t.cx, y: t.cy, shade: t.shade })
                    &&& triangles@[j] == (((3 * j) as u32, (3 * j + 1) as u32, (3 * j + 2) as u32))
                },
        decreases tris@.len() - i,
    {
        let t = tris[i];
        let base = (3 * i) as u32;
        vertices.push(DrawVertex { x: t.ax, y: t.ay, shade: t.shade });
        vertices.push(DrawVertex { x: t.bx, y: t.by, shade: t.shade });
        vertices.push(DrawVertex { x: t.cx, y: t.cy, shade: t.shade });
        triangles.push((base, base + 1, base + 2));
        i = i + 1;
    }
    DrawMesh { vertices, triangles }
}

/// Runs a whole frame: render, depth-sort, and compile into one draw mesh.
/// `None` only if the frame has too many triangles for 32-bit indexing.
pub fn render_frame(scene: &Scene, canvas_width: i64, canvas_height: i64) -> (r: Option<DrawMesh>)
    requires
        0 <= canvas_width <= CANVAS_MAX as int,
        0 <= canvas_height <= CANVAS_MAX as int,
    ensures
        ({
            let frame = sort_spec(frame_spec(scene@, canvas_width as int, canvas_height as int));
            match r {
                Some(dm) => {
                    &&& 3 * frame.len() <= u32::MAX
                    &&& dm.vertices@.len() == 3 * frame.len()
                    &&& dm.triangles@.len() == frame.len()
                    &&& forall|i: int|
                        0 <= i < frame.len() ==> {
                            let t = #[trigger] frame[i];
                            &&& dm.vertices@[3 * i] == (DrawVertex {
                                x: t.ax,
                                y: t.ay,
                                shade: t.shade,
                            })
                            &&& dm.vertices@[3 * i + 1] == (DrawVertex {
                                x: t.bx,
                                y: t.by,
                                shade: t.shade,
                            })
                            &&& dm.vertices@[3 * i + 2] == (DrawVertex {
                                x: t.cx,
                                y: t.cy,
                                shade: t.shade,
                            })
                            &&& dm.triangles@[i] == (((3 * i) as u32, (3 * i + 1) as u32, (3 * i
                                + 2) as u32))
                        }
                },
                None => 3 * frame.len() > u32::MAX,
            }
        }),
{
    let tris = render_scene(scene, canvas_width, canvas_height);
    if tris.len() <= 1431655765 {
        Some(build_draw_mesh(&tris))
    } else {
        None
    }
}

} // verus!
