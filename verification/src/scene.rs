//! The scene model: triangle meshes with validated geometry, a camera, and
//! an optional point light.
//!
//! A `Mesh` can only be built through `Mesh::new`, which rejects geometry
//! the pipeline cannot accept — a triangle index past the vertex list, an
//! index list whose length is not a multiple of three, or a coordinate out
//! of range — so every `Mesh` that exists is safe to render.  Lookups into
//! the scene's object list are checked and return `None` instead of
//! panicking.

use crate::fixed::MAX_COORD;
use crate::fixed::MAX_INTENSITY;
use crate::rotation::Rotation;
use crate::vec3::Vec3;
use crate::vec3::mag;
use vstd::prelude::*;

verus! {

/// Runtime check that every component of `v` is a legal scene coordinate.
pub fn coord_in_range(v: &Vec3) -> (r: bool)
    ensures
        r == (mag(v@) <= MAX_COORD as int),
{
    v.x >= -MAX_COORD && v.x <= MAX_COORD && v.y >= -MAX_COORD && v.y <= MAX_COORD && v.z
        >= -MAX_COORD && v.z <= MAX_COORD
}

/// The mathematical content of a `Light`.
pub struct LightView {
    pub position: (int, int, int),
    pub intensity: int,
}

impl LightView {
    pub open spec fn wf(self) -> bool {
        &&& mag(self.position) <= MAX_COORD as int
        &&& 0 <= self.intensity <= MAX_INTENSITY as int
    }
}

/// A point light: a world position and a nonnegative intensity
/// (fixed-point, `SCALE` steps per unit of either).
#[derive(Clone, Copy, Debug)]
pub struct Light {
    pub(crate) position: Vec3,
    pub(crate) intensity: i64,
}

impl View for Light {
    type V = LightView;

    open(crate) spec fn view(&self) -> LightView {
        LightView { position: self.position@, intensity: self.intensity as int }
    }
}

impl Light {
    #[verifier::type_invariant]
    pub(crate) open spec fn inv(self) -> bool {
        self@.wf()
    }

    /// Builds a light, rejecting an out-of-range position or intensity.
    pub fn new(position: Vec3, intensity: i64) -> (r: Option<Light>)
        ensures
            match r {
                Some(l) => l@ == (LightView { position: position@, intensity: intensity as int }),
                None => !(LightView { position: position@, intensity: intensity as int }).wf(),
            },
    {
        if coord_in_range(&position) && intensity >= 0 && intensity <= MAX_INTENSITY {
            Some(Light { position, intensity })
        } else {
            None
        }
    }

    pub fn position(&self) -> (r: Vec3)
        ensures
            r@ == self@.position,
    {
        self.position
    }

    pub fn intensity(&self) -> (r: i64)
        ensures
            r == self@.intensity,
    {
        self.intensity
    }
}

/// The mathematical content of a `Mesh`.
pub struct MeshView {
    pub name: Seq<char>,
    pub vertices: Seq<(int, int, int)>,
    pub indices: Seq<int>,
    pub position: (int, int, int),
    pub rotation: Rotation,
}

impl MeshView {
    /// Valid geometry: whole triangles only, every index inside the vertex
    /// list, every coordinate in range, and a well-formed rotation.
    pub open spec fn wf(self) -> bool {
        &&& self.indices.len() % 3 == 0
        &&& forall|k: int|
            0 <= k < self.indices.len() ==> 0 <= #[trigger] self.indices[k] < self.vertices.len()
        &&& forall|k: int|
            0 <= k < self.vertices.len() ==> mag(#[trigger] self.vertices[k]) <= MAX_COORD as int
        &&& mag(self.position) <= MAX_COORD as int
        &&& self.rotation.wf()
    }
}

/// One renderable object: local-space triangle geometry plus a world
/// transform (translation and Euler rotation) and a display name.
#[derive(Debug)]
pub struct Mesh {
    pub(crate) name: String,
    pub(crate) vertices: Vec<Vec3>,
    pub(crate) indices: Vec<u32>,
    pub(crate) position: Vec3,
    pub(crate) rotation: Rotation,
}

impl View for Mesh {
    type V = MeshView;

    open(crate) spec fn view(&self) -> MeshView {
        MeshView {
            name: self.name@,
            vertices: self.vertices@.map_values(|v: Vec3| v@),
            indices: self.indices@.map_values(|i: u32| i as int),
            position: self.position@,
            rotation: self.rotation,
        }
    }
}

impl Mesh {
    #[verifier::type_invariant]
    pub(crate) open spec fn inv(self) -> bool {
        self@.wf()
    }

    /// Builds a mesh, rejecting invalid geometry outright: `None` exactly
    /// when an index is out of range, the index list is not whole triangles,
    /// a coordinate is out of range, or the rotation is malformed.
    #[verifier::loop_isolation(false)]
    pub fn new(
        name: String,
        vertices: Vec<Vec3>,
        indices: Vec<u32>,
        position: Vec3,
        rotation: Rotation,
    ) -> (r: Option<Mesh>)
        ensures
            ({
                let v = MeshView {
                    name: name@,
                    vertices: vertices@.map_values(|v: Vec3| v@),
                    indices: indices@.map_values(|i: u32| i as int),
                    position: position@,
                    rotation: rotation,
                };
                match r {
                    Some(m) => m@ == v && v.wf(),
                    None => !v.wf(),
                }
            }),
    {
        let ghost view = MeshView {
            name: name@,
            vertices: vertices@.map_values(|v: Vec3| v@),
            indices: indices@.map_values(|i: u32| i as int),
            position: position@,
            rotation: rotation,
        };
        if indices.len() % 3 != 0 {
            return None;
        }
        if !coord_in_range(&position) {
            return None;
        }
        if !rotation.is_wf() {
            return None;
        }
        let mut k: usize = 0;
        while k < indices.len()
            invariant
                0 <= k <= indices.len(),
                view.indices == indices@.map_values(|i: u32| i as int),
                view.vertices == vertices@.map_values(|v: Vec3| v@),
                forall|j: int| 0 <= j < k ==> 0 <= #[trigger] view.indices[j] < view.vertices.len(),
            decreases indices.len() - k,
        {
            if (indices[k] as usize) >= vertices.len() {
                proof {
                    assert(view.indices[k as int] == indices@[k as int] as int);
                    assert(view.vertices.len() == vertices@.len());
                }
                return None;
            }
            k = k + 1;
        }
        let mut k: usize = 0;
        while k < vertices.len()
            invariant
                0 <= k <= vertices.len(),
                view.vertices == vertices@.map_values(|v: Vec3| v@),
                forall|j: int| 0 <= j < k ==> mag(#[trigger] view.vertices[j]) <= MAX_COORD as int,
            decreases vertices.len() - k,
        {
            if !coord_in_range(&vertices[k]) {
                proof {
                    assert(view.vertices.len() == vertices@.len());
                    assert(view.vertices[k as int] == vertices@[k as int]@);
                    assert(!view.wf());
                }
                return None;
            }
            k = k + 1;
        }
        proof {
            assert(view.wf());
        }
        Some(Mesh { name, vertices, indices, position, rotation })
    }

    pub fn name(&self) -> (r: &String)
        ensures
            r@ == self@.name,
    {
        &self.name
    }

    pub fn position(&self) -> (r: Vec3)
        ensures
            r@ == self@.position,
    {
        self.position
    }

    pub fn rotation(&self) -> (r: Rotation)
        ensures
            r == self@.rotation,
    {
        self.rotation
    }

    pub fn vertex_count(&self) -> (r: usize)
        ensures
            r == self@.vertices.len(),
    {
        self.vertices.len()
    }

    /// Number of whole triangles the index list names.
    pub fn triangle_count(&self) -> (r: usize)
        ensures
            r == self@.indices.len() / 3,
    {
        self.indices.len() / 3
    }

    /// Moves the mesh, rejecting an out-of-range position.
    pub fn set_position(&mut self, position: Vec3) -> (ok: bool)
        ensures
            ok == (mag(position@) <= MAX_COORD as int),
            ok ==> final (self)@ == (MeshView { position: position@, ..old(self)@ }),
            !ok ==> final (self)@ == old(self)@,
    {
        proof {
            use_type_invariant(&*self);
        }
        if coord_in_range(&position) {
            self.position = position;
            true
        } else {
            false
        }
    }

    /// Re-orients the mesh, rejecting a malformed rotation.
    pub fn set_rotation(&mut self, rotation: Rotation) -> (ok: bool)
        ensures
            ok == rotation.wf(),
            ok ==> final (self)@ == (MeshView { rotation: rotation, ..old(self)@ }),
            !ok ==> final (self)@ == old(self)@,
    {
        proof {
            use_type_invariant(&*self);
        }
        if rotation.is_wf() {
            self.rotation = rotation;
            true
        } else {
            false
        }
    }

    pub fn set_name(&mut self, name: String)
        ensures
            final (self)@ == (MeshView { name: name@, ..old(self)@ }),
    {
        proof {
            use_type_invariant(&*self);
        }
        self.name = name;
    }
}

/// The mathematical content of a `Scene`.
pub struct SceneView {
    pub camera_position: (int, int, int),
    pub camera_rotation: Rotation,
    pub objects: Seq<MeshView>,
    pub light: Option<LightView>,
}

/// The scene a frame is rendered from: a camera, an ordered list of meshes
/// (order is the depth-sort tie-break), and at most one point light.
pub struct Scene {
    pub(crate) camera_position: Vec3,
    pub(crate) camera_rotation: Rotation,
    pub(crate) objects: Vec<Mesh>,
    pub(crate) light: Option<Light>,
}

impl View for Scene {
    type V = SceneView;

    open(crate) spec fn view(&self) -> SceneView {
        SceneView {
            camera_position: self.camera_position@,
            camera_rotation: self.camera_rotation,
            objects: self.objects@.map_values(|m: Mesh| m@),
            light: match self.light {
                Some(l) => Some(l@),
                None => None,
            },
        }
    }
}

impl Scene {
    #[verifier::type_invariant]
    pub(crate) open spec fn inv(self) -> bool {
        &&& mag(self.camera_position@) <= MAX_COORD as int
        &&& self.camera_rotation.wf()
    }

    /// Builds a scene with no objects and no light, rejecting an
    /// out-of-range camera position or a malformed camera rotation.
    pub fn new(camera_position: Vec3, camera_rotation: Rotation) -> (r: Option<Scene>)
        ensures
            match r {
                Some(s) => s@ == (SceneView {
                    camera_position: camera_position@,
                    camera_rotation: camera_rotation,
                    objects: Seq::empty(),
                    light: None,
                }),
                None => !(mag(camera_position@) <= MAX_COORD as int && camera_rotation.wf()),
            },
    {
        if coord_in_range(&camera_position) && camera_rotation.is_wf() {
            let s = Scene {
                camera_position,
                camera_rotation,
                objects: Vec::new(),
                light: None,
            };
            proof {
                assert(s@.objects =~= Seq::<MeshView>::empty());
            }
            Some(s)
        } else {
            None
        }
    }

    pub fn object_count(&self) -> (r: usize)
        ensures
            r == self@.objects.len(),
    {
        self.objects.len()
    }

    /// Checked lookup: `None` instead of a panic for a stale index.
    pub fn get_object(&self, index: usize) -> (r: Option<&Mesh>)
        ensures
            match r {
                Some(m) => index < self@.objects.len() && m@ == self@.objects[index as int],
                None => index >= self@.objects.len(),
            },
    {
        if index < self.objects.len() {
            Some(&self.objects[index])
        } else {
            None
        }
    }

    /// Appends a mesh; it will draw after existing objects at equal depth.
    pub fn add_object(&mut self, mesh: Mesh)
        ensures
            final (self)@ == (SceneView {
                objects: old(self)@.objects.push(mesh@),
                ..old(self)@
            }),
    {
        proof {
            use_type_invariant(&*self);
        }
        let mut objects: Vec<Mesh> = Vec::new();
        std::mem::swap(&mut objects, &mut self.objects);
        objects.push(mesh);
        self.objects = objects;
        proof {
            assert(self@.objects =~= old(self)@.objects.push(mesh@));
        }
    }

    /// Checked removal: `false` (and no change) for a stale index.
    pub fn remove_object(&mut self, index: usize) -> (ok: bool)
        ensures
            ok == (index < old(self)@.objects.len()),
            ok ==> final (self)@ == (SceneView {
                objects: old(self)@.objects.remove(index as int),
                ..old(self)@
            }),
            !ok ==> final (self)@ == old(self)@,
    {
        proof {
            use_type_invariant(&*self);
        }
        if index < self.objects.len() {
            let mut objects: Vec<Mesh> = Vec::new();
            std::mem::swap(&mut objects, &mut self.objects);
            objects.remove(index);
            self.objects = objects;
            proof {
                assert(self@.objects =~= old(self)@.objects.remove(index as int));
            }
            true
        } else {
            false
        }
    }

    pub fn camera_position(&self) -> (r: Vec3)
        ensures
            r@ == self@.camera_position,
    {
        self.camera_position
    }

    pub fn camera_rotation(&self) -> (r: Rotation)
        ensures
            r == self@.camera_rotation,
    {
        self.camera_rotation
    }

    pub fn light(&self) -> (r: Option<Light>)
        ensures
            match r {
                Some(l) => self@.light == Some(l@),
                None => self@.light is None,
            },
    {
        self.light
    }

    /// Moves the camera, rejecting an out-of-range position.
    pub fn set_camera_position(&mut self, position: Vec3) -> (ok: bool)
        ensures
            ok == (mag(position@) <= MAX_COORD as int),
            ok ==> final (self)@ == (SceneView { camera_position: position@, ..old(self)@ }),
            !ok ==> final (self)@ == old(self)@,
    {
        proof {
            use_type_invariant(&*self);
        }
        if coord_in_range(&position) {
            self.camera_position = position;
            true
        } else {
            false
        }
    }

    /// Re-orients the camera, rejecting a malformed rotation.
    pub fn set_camera_rotation(&mut self, rotation: Rotation) -> (ok: bool)
        ensures
            ok == rotation.wf(),
            ok ==> final (self)@ == (SceneView { camera_rotation: rotation, ..old(self)@ }),
            !ok ==> final (self)@ == old(self)@,
    {
        proof {
            use_type_invariant(&*self);
        }
        if rotation.is_wf() {
            self.camera_rotation = rotation;
            true
        } else {
            false
        }
    }

    /// Installs or clears the single light.
    pub fn set_light(&mut self, light: Option<Light>)
        ensures
            final (self)@ == (SceneView {
                light: match light {
                    Some(l) => Some(l@),
                    None => None,
                },
                ..old(self)@
            }),
    {
        proof {
            use_type_invariant(&*self);
        }
        self.light = light;
    }

    /// Moves one object, rejecting a stale index or an out-of-range
    /// position; the object keeps its place in draw order.
    pub fn set_object_position(&mut self, index: usize, position: Vec3) -> (ok: bool)
        ensures
            ok == (index < old(self)@.objects.len() && mag(position@) <= MAX_COORD as int),
            ok ==> final (self)@ == (SceneView {
                objects: old(self)@.objects.update(
                    index as int,
                    MeshView { position: position@, ..old(self)@.objects[index as int] },
                ),
                ..old(self)@
            }),
            !ok ==> final (self)@ == old(self)@,
    {
        proof {
            use_type_invariant(&*self);
        }
        if index < self.objects.len() && coord_in_range(&position) {
            let mut objects: Vec<Mesh> = Vec::new();
            std::mem::swap(&mut objects, &mut self.objects);
            let mut m = objects.remove(index);
            let ok = m.set_position(position);
            assert(ok);
            objects.insert(index, m);
            self.objects = objects;
            proof {
                assert(final (self)@.objects =~= old(self)@.objects.update(
                    index as int,
                    MeshView { position: position@, ..old(self)@.objects[index as int] },
                ));
            }
            true
        } else {
            false
        }
    }

    /// Re-orients one object, rejecting a stale index or a malformed
    /// rotation; the object keeps its place in draw order.
    pub fn set_object_rotation(&mut self, index: usize, rotation: Rotation) -> (ok: bool)
        ensures
            ok == (index < old(self)@.objects.len() && rotation.wf()),
            ok ==> final (self)@ == (SceneView {
                objects: old(self)@.objects.update(
                    index as int,
                    MeshView { rotation: rotation, ..old(self)@.objects[index as int] },
                ),
                ..old(self)@
            }),
            !ok ==> final (self)@ == old(self)@,
    {
        proof {
            use_type_invariant(&*self);
        }
        if index < self.objects.len() && rotation.is_wf() {
            let mut objects: Vec<Mesh> = Vec::new();
            std::mem::swap(&mut objects, &mut self.objects);
            let mut m = objects.remove(index);
            let ok = m.set_rotation(rotation);
            assert(ok);
            objects.insert(index, m);
            self.objects = objects;
            proof {
                assert(final (self)@.objects =~= old(self)@.objects.update(
                    index as int,
                    MeshView { rotation: rotation, ..old(self)@.objects[index as int] },
                ));
            }
            true
        } else {
            false
        }
    }
}

} // verus!
