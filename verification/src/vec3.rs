//! Three-component vectors of fixed-point coordinates, and the vector
//! algebra the pipeline states its contracts with.

use vstd::math::abs;
use vstd::math::max3;
use vstd::prelude::*;

verus! {

/// A point or direction in 3-D space; each component counts 1/`SCALE` units.
#[derive(Clone, Copy, PartialEq, Eq, Structural, Debug)]
pub struct Vec3 {
    pub x: i64,
    pub y: i64,
    pub z: i64,
}

impl View for Vec3 {
    type V = (int, int, int);

    open spec fn view(&self) -> (int, int, int) {
        (self.x as int, self.y as int, self.z as int)
    }
}

impl Vec3 {
    pub fn new(x: i64, y: i64, z: i64) -> (v: Vec3)
        ensures
            v@ == (x as int, y as int, z as int),
    {
        Vec3 { x, y, z }
    }
}

/// Magnitude of the largest component.
pub open spec fn mag(p: (int, int, int)) -> int {
    max3(abs(p.0) as int, abs(p.1) as int, abs(p.2) as int)
}

pub open spec fn vadd(a: (int, int, int), b: (int, int, int)) -> (int, int, int) {
    (a.0 + b.0, a.1 + b.1, a.2 + b.2)
}

pub open spec fn vsub(a: (int, int, int), b: (int, int, int)) -> (int, int, int) {
    (a.0 - b.0, a.1 - b.1, a.2 - b.2)
}

pub open spec fn dot(a: (int, int, int), b: (int, int, int)) -> int {
    a.0 * b.0 + a.1 * b.1 + a.2 * b.2
}

pub open spec fn cross(a: (int, int, int), b: (int, int, int)) -> (int, int, int) {
    (a.1 * b.2 - a.2 * b.1, a.2 * b.0 - a.0 * b.2, a.0 * b.1 - a.1 * b.0)
}

/// Squared Euclidean length.
pub open spec fn norm_sq(p: (int, int, int)) -> int {
    dot(p, p)
}

/// A squared length is never negative, and vanishes only on the zero vector.
pub proof fn lemma_norm_sq_nonneg(p: (int, int, int))
    ensures
        norm_sq(p) >= 0,
        norm_sq(p) == 0 <==> p == ((0int, 0int, 0int)),
{
    assert(p.0 * p.0 >= 0) by (nonlinear_arith);
    assert(p.1 * p.1 >= 0) by (nonlinear_arith);
    assert(p.2 * p.2 >= 0) by (nonlinear_arith);
    if norm_sq(p) == 0 {
        assert(p.0 == 0) by (nonlinear_arith)
            requires
                p.0 * p.0 >= 0,
                p.1 * p.1 >= 0,
                p.2 * p.2 >= 0,
                p.0 * p.0 + p.1 * p.1 + p.2 * p.2 == 0,
        ;
        assert(p.1 == 0) by (nonlinear_arith)
            requires
                p.0 * p.0 >= 0,
                p.1 * p.1 >= 0,
                p.2 * p.2 >= 0,
                p.0 * p.0 + p.1 * p.1 + p.2 * p.2 == 0,
        ;
        assert(p.2 == 0) by (nonlinear_arith)
            requires
                p.0 * p.0 >= 0,
                p.1 * p.1 >= 0,
                p.2 * p.2 >= 0,
                p.0 * p.0 + p.1 * p.1 + p.2 * p.2 == 0,
        ;
    }
}

/// Bounded factors give a bounded product.
pub proof fn lemma_mul_bound(x: int, y: int, bx: int, by: int)
    by (nonlinear_arith)
    requires
        -bx <= x <= bx,
        -by <= y <= by,
    ensures
        -(bx * by) <= x * y <= bx * by,
{
}

} // verus!
