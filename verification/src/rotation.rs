//! Euler-angle rotation applied as three sequential single-axis rotations,
//! in the fixed order X, then Y, then Z (right-handed).
//!
//! The pipeline never evaluates a sine or cosine itself: a `Rotation` carries
//! the six trigonometric values as fixed-point integers, precomputed by the
//! caller, so that the rotation arithmetic here is exact and verified.

use crate::fixed::tdiv;
use crate::fixed::SCALE;
use crate::fixed::lemma_tdiv_close;
use crate::fixed::lemma_tdiv_exact;
use crate::fixed::lemma_tdiv_le;
use crate::vec3::Vec3;
use crate::vec3::lemma_mul_bound;
use crate::vec3::mag;
use vstd::math::abs;
use vstd::math::max;
use vstd::prelude::*;

verus! {

/// Largest coordinate magnitude `apply_rotation` accepts.
pub const ROT_MAX: i64 = 1099511627776;

/// Largest coordinate magnitude a single-axis step accepts; intermediate
/// points of the three-step composition stay within this.
const PAIR_MAX: i64 = 17592186044416;

/// The sines and cosines of three Euler angles, as fixed-point integers
/// (`SCALE` stands for 1.0).
#[derive(Clone, Copy, PartialEq, Eq, Structural, Debug)]
pub struct Rotation {
    pub sin_x: i64,
    pub cos_x: i64,
    pub sin_y: i64,
    pub cos_y: i64,
    pub sin_z: i64,
    pub cos_z: i64,
}

impl Rotation {
    /// Every stored sine and cosine lies in [-1, 1] (scaled).
    pub open spec fn wf(self) -> bool {
        &&& abs(self.sin_x as int) <= SCALE as int
        &&& abs(self.cos_x as int) <= SCALE as int
        &&& abs(self.sin_y as int) <= SCALE as int
        &&& abs(self.cos_y as int) <= SCALE as int
        &&& abs(self.sin_z as int) <= SCALE as int
        &&& abs(self.cos_z as int) <= SCALE as int
    }

    /// The rotation by zero about every axis.
    pub open spec fn identity_spec() -> Rotation {
        Rotation { sin_x: 0, cos_x: SCALE, sin_y: 0, cos_y: SCALE, sin_z: 0, cos_z: SCALE }
    }

    pub fn identity() -> (r: Rotation)
        ensures
            r == Rotation::identity_spec(),
            r.wf(),
    {
        Rotation { sin_x: 0, cos_x: SCALE, sin_y: 0, cos_y: SCALE, sin_z: 0, cos_z: SCALE }
    }

    /// Runtime check of `wf`.
    pub fn is_wf(&self) -> (r: bool)
        ensures
            r == self.wf(),
    {
        self.sin_x >= -SCALE && self.sin_x <= SCALE && self.cos_x >= -SCALE && self.cos_x <= SCALE
            && self.sin_y >= -SCALE && self.sin_y <= SCALE && self.cos_y >= -SCALE && self.cos_y
            <= SCALE && self.sin_z >= -SCALE && self.sin_z <= SCALE && self.cos_z >= -SCALE
            && self.cos_z <= SCALE
    }

    /// Builds a rotation from six scaled trigonometric values, rejecting any
    /// outside [-SCALE, SCALE].
    pub fn new(sin_x: i64, cos_x: i64, sin_y: i64, cos_y: i64, sin_z: i64, cos_z: i64) -> (r:
        Option<Rotation>)
        ensures
            match r {
                Some(rot) => {
                    &&& rot.wf()
                    &&& rot == (Rotation { sin_x, cos_x, sin_y, cos_y, sin_z, cos_z })
                },
                None => !(Rotation { sin_x, cos_x, sin_y, cos_y, sin_z, cos_z }).wf(),
            },
    {
        if sin_x >= -SCALE && sin_x <= SCALE && cos_x >= -SCALE && cos_x <= SCALE && sin_y
            >= -SCALE && sin_y <= SCALE && cos_y >= -SCALE && cos_y <= SCALE && sin_z >= -SCALE
            && sin_z <= SCALE && cos_z >= -SCALE && cos_z <= SCALE {
            Some(Rotation { sin_x, cos_x, sin_y, cos_y, sin_z, cos_z })
        } else {
            None
        }
    }
}

/// One single-axis rotation step on the affected coordinate pair:
/// `(c*u - s*v, s*u + c*v)`, scaled back down by `SCALE`.
pub open spec fn rot_pair(u: int, v: int, s: int, c: int) -> (int, int) {
    (tdiv(c * u - s * v, SCALE as int), tdiv(s * u + c * v, SCALE as int))
}

/// Rotation about the X axis: Y and Z move, X is untouched.
pub open spec fn rot_x_spec(p: (int, int, int), s: int, c: int) -> (int, int, int) {
    (p.0, rot_pair(p.1, p.2, s, c).0, rot_pair(p.1, p.2, s, c).1)
}

/// Rotation about the Y axis: X and Z move, Y is untouched.
pub open spec fn rot_y_spec(p: (int, int, int), s: int, c: int) -> (int, int, int) {
    (rot_pair(p.0, p.2, -s, c).0, p.1, rot_pair(p.0, p.2, -s, c).1)
}

/// Rotation about the Z axis: X and Y move, Z is untouched.
pub open spec fn rot_z_spec(p: (int, int, int), s: int, c: int) -> (int, int, int) {
    (rot_pair(p.0, p.1, s, c).0, rot_pair(p.0, p.1, s, c).1, p.2)
}

/// The full Euler rotation: X, then Y, then Z.
pub open spec fn rot_spec(p: (int, int, int), r: Rotation) -> (int, int, int) {
    rot_z_spec(
        rot_y_spec(rot_x_spec(p, r.sin_x as int, r.cos_x as int), r.sin_y as int, r.cos_y as int),
        r.sin_z as int,
        r.cos_z as int,
    )
}

/// One exact single-axis step on a coordinate pair.
fn rotate_pair(u: i64, v: i64, s: i64, c: i64) -> (r: (i64, i64))
    requires
        abs(s as int) <= SCALE as int,
        abs(c as int) <= SCALE as int,
        abs(u as int) <= PAIR_MAX as int,
        abs(v as int) <= PAIR_MAX as int,
    ensures
        (r.0 as int, r.1 as int) == rot_pair(u as int, v as int, s as int, c as int),
        abs(r.0 as int) <= 2 * max(abs(u as int) as int, abs(v as int) as int),
        abs(r.1 as int) <= 2 * max(abs(u as int) as int, abs(v as int) as int),
{
    proof {
        lemma_mul_bound(c as int, u as int, SCALE as int, PAIR_MAX as int);
        lemma_mul_bound(s as int, v as int, SCALE as int, PAIR_MAX as int);
        lemma_mul_bound(s as int, u as int, SCALE as int, PAIR_MAX as int);
        lemma_mul_bound(c as int, v as int, SCALE as int, PAIR_MAX as int);
    }
    let p = c * u - s * v;
    let q = s * u + c * v;
    proof {
        let m = max(abs(u as int) as int, abs(v as int) as int);
        lemma_mul_bound(c as int, u as int, SCALE as int, m);
        lemma_mul_bound(s as int, v as int, SCALE as int, m);
        lemma_mul_bound(s as int, u as int, SCALE as int, m);
        lemma_mul_bound(c as int, v as int, SCALE as int, m);
        assert(abs(p as int) <= (SCALE as int) * m + (SCALE as int) * m);
        assert(abs(q as int) <= (SCALE as int) * m + (SCALE as int) * m);
        assert((SCALE as int) * m + (SCALE as int) * m == (2 * m) * (SCALE as int))
            by (nonlinear_arith);
        lemma_tdiv_le(p as int, SCALE as int, 2 * m);
        lemma_tdiv_le(q as int, SCALE as int, 2 * m);
    }
    (crate::fixed::div_trunc(p, SCALE), crate::fixed::div_trunc(q, SCALE))
}

/// Rotates a point by three Euler angles, applied about X, then Y, then Z.
pub fn apply_rotation(v: Vec3, rot: &Rotation) -> (r: Vec3)
    requires
        rot.wf(),
        mag(v@) <= ROT_MAX as int,
    ensures
        r@ == rot_spec(v@, *rot),
        mag(r@) <= 8 * mag(v@),
{
    let (y1, z1) = rotate_pair(v.y, v.z, rot.sin_x, rot.cos_x);
    let (x2, z2) = rotate_pair(v.x, z1, -rot.sin_y, rot.cos_y);
    let (x3, y3) = rotate_pair(x2, y1, rot.sin_z, rot.cos_z);
    Vec3 { x: x3, y: y3, z: z2 }
}

/// Rotating a point by zero angles about every axis returns it unchanged.
pub proof fn lemma_rotation_identity(p: (int, int, int))
    ensures
        rot_spec(p, Rotation::identity_spec()) == p,
{
    lemma_tdiv_exact(p.0, SCALE as int);
    lemma_tdiv_exact(p.1, SCALE as int);
    lemma_tdiv_exact(p.2, SCALE as int);
}

/// A single-axis step with `(s, c)` followed by one with `(-s, c)` — the
/// same angle with its sign flipped — returns each coordinate of the pair to
/// within a few fixed-point steps.  `m` bounds the input coordinates and
/// `tol` bounds how far `s^2 + c^2` misses `SCALE^2`; for an exact
/// sine/cosine pair the round trip errs by less than 3 steps.
pub proof fn lemma_rot_pair_round_trip(u: int, v: int, s: int, c: int, m: int, tol: int)
    requires
        abs(u) <= m,
        abs(v) <= m,
        abs(s) <= SCALE as int,
        abs(c) <= SCALE as int,
        abs(s * s + c * c - (SCALE as int) * (SCALE as int)) <= tol,
    ensures
        ({
            let p1 = rot_pair(u, v, s, c);
            let p2 = rot_pair(p1.0, p1.1, -s, c);
            &&& abs(p2.0 - u) * ((SCALE as int) * (SCALE as int)) <= tol * m + 3 * ((SCALE as int)
                * (SCALE as int))
            &&& abs(p2.1 - v) * ((SCALE as int) * (SCALE as int)) <= tol * m + 3 * ((SCALE as int)
                * (SCALE as int))
        }),
{
    let sc = SCALE as int;
    let qq = sc * sc;
    let e = s * s + c * c - qq;
    let a1 = c * u - s * v;
    let b1 = s * u + c * v;
    let u1 = tdiv(a1, sc);
    let v1 = tdiv(b1, sc);
    lemma_tdiv_close(a1, sc);
    lemma_tdiv_close(b1, sc);
    let r1 = a1 - sc * u1;
    let r2 = b1 - sc * v1;
    assert((-s) * v1 == -(s * v1)) by (nonlinear_arith);
    assert((-s) * u1 == -(s * u1)) by (nonlinear_arith);
    let a2 = c * u1 + s * v1;
    let b2 = c * v1 - s * u1;
    let u2 = tdiv(a2, sc);
    let v2 = tdiv(b2, sc);
    lemma_tdiv_close(a2, sc);
    lemma_tdiv_close(b2, sc);
    let r3 = a2 - sc * u2;
    let r4 = b2 - sc * v2;
    assert(sc * a2 == c * a1 + s * b1 - c * r1 - s * r2) by (nonlinear_arith)
        requires
            a2 == c * u1 + s * v1,
            sc * u1 == a1 - r1,
            sc * v1 == b1 - r2,
    ;
    assert(c * a1 + s * b1 == (s * s + c * c) * u) by (nonlinear_arith)
        requires
            a1 == c * u - s * v,
            b1 == s * u + c * v,
    ;
    assert((s * s + c * c) * u == qq * u + e * u) by (nonlinear_arith)
        requires
            e == s * s + c * c - qq,
    ;
    assert(qq * u2 == sc * a2 - sc * r3) by (nonlinear_arith)
        requires
            qq == sc * sc,
            sc * u2 == a2 - r3,
    ;
    assert(qq * u2 == qq * u + e * u - c * r1 - s * r2 - sc * r3);
    assert(sc * b2 == c * b1 - s * a1 + s * r1 - c * r2) by (nonlinear_arith)
        requires
            b2 == c * v1 - s * u1,
            sc * u1 == a1 - r1,
            sc * v1 == b1 - r2,
    ;
    assert(c * b1 - s * a1 == (s * s + c * c) * v) by (nonlinear_arith)
        requires
            a1 == c * u - s * v,
            b1 == s * u + c * v,
    ;
    assert((s * s + c * c) * v == qq * v + e * v) by (nonlinear_arith)
        requires
            e == s * s + c * c - qq,
    ;
    assert(qq * v2 == sc * b2 - sc * r4) by (nonlinear_arith)
        requires
            qq == sc * sc,
            sc * v2 == b2 - r4,
    ;
    assert(qq * v2 == qq * v + e * v + s * r1 - c * r2 - sc * r4);
    lemma_mul_bound(e, u, tol, m);
    lemma_mul_bound(e, v, tol, m);
    lemma_mul_bound(c, r1, sc, sc);
    lemma_mul_bound(s, r2, sc, sc);
    lemma_mul_bound(sc, r3, sc, sc);
    lemma_mul_bound(s, r1, sc, sc);
    lemma_mul_bound(c, r2, sc, sc);
    lemma_mul_bound(sc, r4, sc, sc);
    let du = u2 - u;
    let dv = v2 - v;
    assert(qq * du == qq * u2 - qq * u) by (nonlinear_arith)
        requires
            du == u2 - u,
    ;
    assert(qq * dv == qq * v2 - qq * v) by (nonlinear_arith)
        requires
            dv == v2 - v,
    ;
    assert(-(tol * m + 3 * qq) <= qq * du <= tol * m + 3 * qq);
    assert(-(tol * m + 3 * qq) <= qq * dv <= tol * m + 3 * qq);
    assert(abs(du) * qq == abs(qq * du)) by (nonlinear_arith)
        requires
            qq > 0,
    ;
    assert(abs(dv) * qq == abs(qq * dv)) by (nonlinear_arith)
        requires
            qq > 0,
    ;
}

/// Rotating about the X axis by an angle and then by its negation restores
/// the point: Y and Z return to within a few steps, X is untouched.
pub proof fn lemma_rotation_round_trip_x(p: (int, int, int), s: int, c: int, m: int, tol: int)
    requires
        abs(p.1) <= m,
        abs(p.2) <= m,
        abs(s) <= SCALE as int,
        abs(c) <= SCALE as int,
        abs(s * s + c * c - (SCALE as int) * (SCALE as int)) <= tol,
    ensures
        ({
            let q = rot_x_spec(rot_x_spec(p, s, c), -s, c);
            &&& q.0 == p.0
            &&& abs(q.1 - p.1) * ((SCALE as int) * (SCALE as int)) <= tol * m + 3 * ((SCALE as int)
                * (SCALE as int))
            &&& abs(q.2 - p.2) * ((SCALE as int) * (SCALE as int)) <= tol * m + 3 * ((SCALE as int)
                * (SCALE as int))
        }),
{
    lemma_rot_pair_round_trip(p.1, p.2, s, c, m, tol);
}

/// Rotating about the Y axis by an angle and then by its negation restores
/// the point: X and Z return to within a few steps, Y is untouched.
pub proof fn lemma_rotation_round_trip_y(p: (int, int, int), s: int, c: int, m: int, tol: int)
    requires
        abs(p.0) <= m,
        abs(p.2) <= m,
        abs(s) <= SCALE as int,
        abs(c) <= SCALE as int,
        abs(s * s + c * c - (SCALE as int) * (SCALE as int)) <= tol,
    ensures
        ({
            let q = rot_y_spec(rot_y_spec(p, s, c), -s, c);
            &&& q.1 == p.1
            &&& abs(q.0 - p.0) * ((SCALE as int) * (SCALE as int)) <= tol * m + 3 * ((SCALE as int)
                * (SCALE as int))
            &&& abs(q.2 - p.2) * ((SCALE as int) * (SCALE as int)) <= tol * m + 3 * ((SCALE as int)
                * (SCALE as int))
        }),
{
    assert((-s) * (-s) == s * s) by (nonlinear_arith);
    lemma_rot_pair_round_trip(p.0, p.2, -s, c, m, tol);
    assert(-(-s) == s);
}

/// Rotating about the Z axis by an angle and then by its negation restores
/// the point: X and Y return to within a few steps, Z is untouched.
pub proof fn lemma_rotation_round_trip_z(p: (int, int, int), s: int, c: int, m: int, tol: int)
    requires
        abs(p.0) <= m,
        abs(p.1) <= m,
        abs(s) <= SCALE as int,
        abs(c) <= SCALE as int,
        abs(s * s + c * c - (SCALE as int) * (SCALE as int)) <= tol,
    ensures
        ({
            let q = rot_z_spec(rot_z_spec(p, s, c), -s, c);
            &&& q.2 == p.2
            &&& abs(q.0 - p.0) * ((SCALE as int) * (SCALE as int)) <= tol * m + 3 * ((SCALE as int)
                * (SCALE as int))
            &&& abs(q.1 - p.1) * ((SCALE as int) * (SCALE as int)) <= tol * m + 3 * ((SCALE as int)
                * (SCALE as int))
        }),
{
    lemma_rot_pair_round_trip(p.0, p.1, s, c, m, tol);
}

/// In a rotation whose Y and Z angles are zero, only the X step acts: the
/// identity steps reproduce their input exactly.
pub proof fn lemma_single_axis_x(p: (int, int, int), r: Rotation)
    requires
        r.sin_y == 0,
        r.cos_y == SCALE,
        r.sin_z == 0,
        r.cos_z == SCALE,
    ensures
        rot_spec(p, r) == rot_x_spec(p, r.sin_x as int, r.cos_x as int),
{
    let p1 = rot_x_spec(p, r.sin_x as int, r.cos_x as int);
    lemma_tdiv_exact(p1.0, SCALE as int);
    lemma_tdiv_exact(p1.1, SCALE as int);
    lemma_tdiv_exact(p1.2, SCALE as int);
}

/// In a rotation whose X and Z angles are zero, only the Y step acts.
pub proof fn lemma_single_axis_y(p: (int, int, int), r: Rotation)
    requires
        r.sin_x == 0,
        r.cos_x == SCALE,
        r.sin_z == 0,
        r.cos_z == SCALE,
    ensures
        rot_spec(p, r) == rot_y_spec(p, r.sin_y as int, r.cos_y as int),
{
    lemma_tdiv_exact(p.1, SCALE as int);
    lemma_tdiv_exact(p.2, SCALE as int);
    let p2 = rot_y_spec(p, r.sin_y as int, r.cos_y as int);
    lemma_tdiv_exact(p2.0, SCALE as int);
    lemma_tdiv_exact(p2.1, SCALE as int);
}

/// In a rotation whose X and Y angles are zero, only the Z step acts.
pub proof fn lemma_single_axis_z(p: (int, int, int), r: Rotation)
    requires
        r.sin_x == 0,
        r.cos_x == SCALE,
        r.sin_y == 0,
        r.cos_y == SCALE,
    ensures
        rot_spec(p, r) == rot_z_spec(p, r.sin_z as int, r.cos_z as int),
{
    lemma_tdiv_exact(p.1, SCALE as int);
    lemma_tdiv_exact(p.2, SCALE as int);
    lemma_tdiv_exact(p.0, SCALE as int);
}

} // verus!
