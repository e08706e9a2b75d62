//! Flat Lambertian shading from a single point light: the outward unit
//! normal of a triangle, the distance to the light, and the resulting
//! monochrome intensity with inverse-square falloff and a range cutoff.
//!
//! All of it is fixed-point: a unit vector has Euclidean length `SCALE`, a
//! distance of one world unit is `SCALE` steps, and the emitted intensity is
//! again a count of 1/`SCALE` units.

use crate::fixed::MAX_INTENSITY;
use crate::fixed::SCALE;
use crate::fixed::div_trunc;
use crate::fixed::is_isqrt;
use crate::fixed::isqrt;
use crate::fixed::isqrt_spec;
use crate::fixed::lemma_isqrt_dominates;
use crate::fixed::lemma_isqrt_exists;
use crate::fixed::lemma_tdiv_close;
use crate::fixed::lemma_tdiv_le;
use crate::fixed::tdiv;
use crate::vec3::Vec3;
use crate::vec3::cross;
use crate::vec3::dot;
use crate::vec3::lemma_mul_bound;
use crate::vec3::lemma_norm_sq_nonneg;
use crate::vec3::mag;
use crate::vec3::norm_sq;
use crate::vec3::vsub;
use vstd::math::abs;
use vstd::prelude::*;

verus! {

/// Largest coordinate magnitude the lighting evaluator accepts.  World-space
/// triangle vertices (a rotated in-range vertex plus an in-range position)
/// stay well inside this.
pub const LIGHT_MAX: i64 = 12582912;

/// Largest edge or to-light component: twice `LIGHT_MAX`.
const EDGE_MAX: i64 = 25165824;

/// Largest cross-product component: twice `EDGE_MAX` squared.
const CROSS_MAX: i64 = 1266637395197952;

/// The (unnormalized) outward normal: the cross product of the two edges
/// anchored at vertex `a`.
pub open spec fn normal_scaled(a: (int, int, int), b: (int, int, int), c: (int, int, int)) -> (
    int,
    int,
    int,
) {
    cross(vsub(b, a), vsub(c, a))
}

/// Euclidean length of the unnormalized normal, rounded down.
pub open spec fn normal_len(a: (int, int, int), b: (int, int, int), c: (int, int, int)) -> int {
    isqrt_spec(norm_sq(normal_scaled(a, b, c)))
}

/// The unit normal of the triangle, scaled so that length 1 reads `SCALE`.
pub open spec fn unit_normal(a: (int, int, int), b: (int, int, int), c: (int, int, int)) -> (
    int,
    int,
    int,
) {
    let n = normal_scaled(a, b, c);
    let l = normal_len(a, b, c);
    (tdiv(n.0 * SCALE, l), tdiv(n.1 * SCALE, l), tdiv(n.2 * SCALE, l))
}

/// Distance from vertex `a` to the light, in fixed-point steps, rounded down.
pub open spec fn light_distance(a: (int, int, int), light: (int, int, int)) -> int {
    isqrt_spec(norm_sq(vsub(light, a)))
}

/// Cosine of the angle between the unit normal and the direction to the
/// light, scaled by `SCALE`.
pub open spec fn cos_theta(
    a: (int, int, int),
    b: (int, int, int),
    c: (int, int, int),
    light: (int, int, int),
) -> int {
    tdiv(dot(unit_normal(a, b, c), vsub(light, a)), light_distance(a, light))
}

/// The grayscale intensity a triangle receives: zero for a degenerate
/// triangle, a light out of range, a light sitting on vertex `a`, or a light
/// behind the face; otherwise Lambert's cosine law with inverse-square
/// falloff, `intensity * cos(theta) / distance^2`.
pub open spec fn lighting_spec(
    a: (int, int, int),
    b: (int, int, int),
    c: (int, int, int),
    light: (int, int, int),
    intensity: int,
    max_distance: int,
) -> int {
    let d = light_distance(a, light);
    if normal_scaled(a, b, c) == ((0int, 0int, 0int)) {
        0
    } else if d > max_distance {
        0
    } else if d == 0 {
        0
    } else if cos_theta(a, b, c, light) <= 0 {
        0
    } else {
        tdiv(intensity * cos_theta(a, b, c, light) * SCALE, d * d)
    }
}

/// Computes the triangle's outward unit normal, or `None` for a degenerate
/// (zero-area) triangle.
pub fn calculate_normal(vertex_a: Vec3, vertex_b: Vec3, vertex_c: Vec3) -> (r: Option<Vec3>)
    requires
        mag(vertex_a@) <= LIGHT_MAX as int,
        mag(vertex_b@) <= LIGHT_MAX as int,
        mag(vertex_c@) <= LIGHT_MAX as int,
    ensures
        match r {
            Some(n) => {
                &&& normal_scaled(vertex_a@, vertex_b@, vertex_c@) != ((0int, 0int, 0int))
                &&& n@ == unit_normal(vertex_a@, vertex_b@, vertex_c@)
                &&& mag(n@) <= SCALE as int
            },
            None => normal_scaled(vertex_a@, vertex_b@, vertex_c@) == ((0int, 0int, 0int)),
        },
{
    let e1x = vertex_b.x - vertex_a.x;
    let e1y = vertex_b.y - vertex_a.y;
    let e1z = vertex_b.z - vertex_a.z;
    let e2x = vertex_c.x - vertex_a.x;
    let e2y = vertex_c.y - vertex_a.y;
    let e2z = vertex_c.z - vertex_a.z;
    proof {
        lemma_mul_bound(e1y as int, e2z as int, EDGE_MAX as int, EDGE_MAX as int);
        lemma_mul_bound(e1z as int, e2y as int, EDGE_MAX as int, EDGE_MAX as int);
        lemma_mul_bound(e1z as int, e2x as int, EDGE_MAX as int, EDGE_MAX as int);
        lemma_mul_bound(e1x as int, e2z as int, EDGE_MAX as int, EDGE_MAX as int);
        lemma_mul_bound(e1x as int, e2y as int, EDGE_MAX as int, EDGE_MAX as int);
        lemma_mul_bound(e1y as int, e2x as int, EDGE_MAX as int, EDGE_MAX as int);
    }
    let nx = e1y * e2z - e1z * e2y;
    let ny = e1z * e2x - e1x * e2z;
    let nz = e1x * e2y - e1y * e2x;
    let ghost n = normal_scaled(vertex_a@, vertex_b@, vertex_c@);
    proof {
        assert(n == ((nx as int, ny as int, nz as int)));
        lemma_mul_bound(nx as int, nx as int, CROSS_MAX as int, CROSS_MAX as int);
        lemma_mul_bound(ny as int, ny as int, CROSS_MAX as int, CROSS_MAX as int);
        lemma_mul_bound(nz as int, nz as int, CROSS_MAX as int, CROSS_MAX as int);
        lemma_norm_sq_nonneg(n);
    }
    let nsq: i128 = (nx as i128) * (nx as i128) + (ny as i128) * (ny as i128) + (nz as i128) * (
    nz as i128);
    proof {
        assert(nsq as int == norm_sq(n));
        assert(nsq >= 0);
        assert((nsq as u128) as int == nsq as int);
    }
    let l: u64 = isqrt(nsq as u128);
    if l == 0 {
        proof {
            assert(norm_sq(n) == 0);
        }
        None
    } else {
        proof {
            assert((l as int) * (l as int) <= nsq as int);
            assert((l as int) * (l as int) >= 1) by (nonlinear_arith)
                requires
                    l as int >= 1,
            ;
            assert(norm_sq(n) != 0);
            assert(l as int <= 2250000000000000int) by (nonlinear_arith)
                requires
                    (l as int) * (l as int) <= nsq as int,
                    nsq as int <= 3 * (1266637395197952int * 1266637395197952int),
            ;
            assert(nx as int * nx as int <= nsq as int) by (nonlinear_arith)
                requires
                    nsq as int == nx as int * nx as int + ny as int * ny as int + nz as int
                        * nz as int,
            ;
            assert(ny as int * ny as int <= nsq as int) by (nonlinear_arith)
                requires
                    nsq as int == nx as int * nx as int + ny as int * ny as int + nz as int
                        * nz as int,
            ;
            assert(nz as int * nz as int <= nsq as int) by (nonlinear_arith)
                requires
                    nsq as int == nx as int * nx as int + ny as int * ny as int + nz as int
                        * nz as int,
            ;
            lemma_isqrt_dominates(nsq as int, nx as int);
            lemma_isqrt_dominates(nsq as int, ny as int);
            lemma_isqrt_dominates(nsq as int, nz as int);
            lemma_mul_bound(nx as int, SCALE as int, l as int, SCALE as int);
            lemma_mul_bound(ny as int, SCALE as int, l as int, SCALE as int);
            lemma_mul_bound(nz as int, SCALE as int, l as int, SCALE as int);
            assert((l as int) * (SCALE as int) == (SCALE as int) * (l as int)) by (nonlinear_arith);
            lemma_tdiv_le(nx as int * SCALE as int, l as int, SCALE as int);
            lemma_tdiv_le(ny as int * SCALE as int, l as int, SCALE as int);
            lemma_tdiv_le(nz as int * SCALE as int, l as int, SCALE as int);
        }
        let ux = div_trunc(nx * SCALE, l as i64);
        let uy = div_trunc(ny * SCALE, l as i64);
        let uz = div_trunc(nz * SCALE, l as i64);
        Some(Vec3 { x: ux, y: uy, z: uz })
    }
}

/// Evaluates the light a triangle receives from a point light, by Lambert's
/// cosine law with inverse-square falloff.  Out-of-range, coincident or
/// back-facing lights, and degenerate triangles, contribute exactly zero.
pub fn calculate_lighting(
    vertex_a: Vec3,
    vertex_b: Vec3,
    vertex_c: Vec3,
    light_position: Vec3,
    intensity: i64,
    max_distance: i64,
) -> (r: i64)
    requires
        mag(vertex_a@) <= LIGHT_MAX as int,
        mag(vertex_b@) <= LIGHT_MAX as int,
        mag(vertex_c@) <= LIGHT_MAX as int,
        mag(light_position@) <= LIGHT_MAX as int,
        0 <= intensity <= MAX_INTENSITY as int,
    ensures
        r == lighting_spec(
            vertex_a@,
            vertex_b@,
            vertex_c@,
            light_position@,
            intensity as int,
            max_distance as int,
        ),
        r >= 0,
        light_distance(vertex_a@, light_position@) > max_distance ==> r == 0,
        cos_theta(vertex_a@, vertex_b@, vertex_c@, light_position@) <= 0 ==> r == 0,
{
    let normal = calculate_normal(vertex_a, vertex_b, vertex_c);
    let n = match normal {
        Some(n) => n,
        None => {
            return 0;
        },
    };
    let tx = light_position.x - vertex_a.x;
    let ty = light_position.y - vertex_a.y;
    let tz = light_position.z - vertex_a.z;
    proof {
        lemma_mul_bound(tx as int, tx as int, EDGE_MAX as int, EDGE_MAX as int);
        lemma_mul_bound(ty as int, ty as int, EDGE_MAX as int, EDGE_MAX as int);
        lemma_mul_bound(tz as int, tz as int, EDGE_MAX as int, EDGE_MAX as int);
        lemma_norm_sq_nonneg(vsub(light_position@, vertex_a@));
        assert(vsub(light_position@, vertex_a@) == ((tx as int, ty as int, tz as int)));
    }
    let dsq: i64 = tx * tx + ty * ty + tz * tz;
    let d: u64 = isqrt(dsq as u128);
    proof {
        assert(dsq as int == norm_sq(vsub(light_position@, vertex_a@)));
        assert((d as int) * (d as int) <= dsq as int);
        assert(d as int <= 50000000int) by (nonlinear_arith)
            requires
                (d as int) * (d as int) <= dsq as int,
                dsq as int <= 3 * (25165824int * 25165824int),
        ;
    }
    if (d as i64) > max_distance {
        return 0;
    }
    if d == 0 {
        return 0;
    }
    proof {
        assert(tx as int * tx as int <= dsq as int) by (nonlinear_arith)
            requires
                dsq as int == tx as int * tx as int + ty as int * ty as int + tz as int
                    * tz as int,
        ;
        assert(ty as int * ty as int <= dsq as int) by (nonlinear_arith)
            requires
                dsq as int == tx as int * tx as int + ty as int * ty as int + tz as int
                    * tz as int,
        ;
        assert(tz as int * tz as int <= dsq as int) by (nonlinear_arith)
            requires
                dsq as int == tx as int * tx as int + ty as int * ty as int + tz as int
                    * tz as int,
        ;
        lemma_isqrt_dominates(dsq as int, tx as int);
        lemma_isqrt_dominates(dsq as int, ty as int);
        lemma_isqrt_dominates(dsq as int, tz as int);
        lemma_mul_bound(n.x as int, tx as int, SCALE as int, d as int);
        lemma_mul_bound(n.y as int, ty as int, SCALE as int, d as int);
        lemma_mul_bound(n.z as int, tz as int, SCALE as int, d as int);
    }
    let dp: i64 = n.x * tx + n.y * ty + n.z * tz;
    proof {
        assert(abs(dp as int) <= (3 * SCALE as int) * (d as int)) by (nonlinear_arith)
            requires
                abs(dp as int) <= 3 * ((SCALE as int) * (d as int)),
        ;
        lemma_tdiv_le(dp as int, d as int, 3 * SCALE as int);
        assert(dp as int == dot(
            unit_normal(vertex_a@, vertex_b@, vertex_c@),
            vsub(light_position@, vertex_a@),
        ));
    }
    let cos: i64 = div_trunc(dp, d as i64);
    if cos <= 0 {
        return 0;
    }
    proof {
        lemma_mul_bound(intensity as int, cos as int, MAX_INTENSITY as int, 3 * SCALE as int);
        lemma_mul_bound(d as int, d as int, 50000000int, 50000000int);
        assert((intensity as int) * (cos as int) >= 0) by (nonlinear_arith)
            requires
                intensity as int >= 0,
                cos as int >= 0,
        ;
        assert((intensity as int) * (cos as int) * (SCALE as int) >= 0) by (nonlinear_arith)
            requires
                (intensity as int) * (cos as int) >= 0,
                SCALE as int > 0,
        ;
        assert((d as int) * (d as int) >= 1) by (nonlinear_arith)
            requires
                d as int >= 1,
        ;
        lemma_mul_bound(
            (intensity as int) * (cos as int),
            SCALE as int,
            (MAX_INTENSITY as int) * (3 * SCALE as int),
            SCALE as int,
        );
    }
    let num: i64 = intensity * cos * SCALE;
    let den: i64 = (d as i64) * (d as i64);
    let r = div_trunc(num, den);
    proof {
        lemma_tdiv_close(num as int, den as int);
    }
    r
}

/// For a triangle whose unnormalized normal is at least one world unit long
/// (`normal_len >= SCALE`), the computed unit normal really has unit length:
/// its squared norm misses `SCALE^2` by at most `8*SCALE + 3` — a relative
/// error of about 0.2%.
pub proof fn lemma_unit_normal_is_unit(a: (int, int, int), b: (int, int, int), c: (int, int, int))
    requires
        normal_len(a, b, c) >= SCALE as int,
    ensures
        abs(norm_sq(unit_normal(a, b, c)) - (SCALE as int) * (SCALE as int)) <= 8 * (SCALE as int)
            + 3,
{
    let n = normal_scaled(a, b, c);
    let q = norm_sq(n);
    lemma_norm_sq_nonneg(n);
    lemma_isqrt_exists(q);
    let l = normal_len(a, b, c);
    assert(is_isqrt(q, l));
    assert(q <= l * l + 2 * l) by (nonlinear_arith)
        requires
            q < (l + 1) * (l + 1),
    ;
    assert(n.0 * n.0 <= q && n.1 * n.1 <= q && n.2 * n.2 <= q) by (nonlinear_arith)
        requires
            q == n.0 * n.0 + n.1 * n.1 + n.2 * n.2,
    ;
    lemma_isqrt_dominates(q, n.0);
    lemma_isqrt_dominates(q, n.1);
    lemma_isqrt_dominates(q, n.2);
    let u0 = tdiv(n.0 * (SCALE as int), l);
    let u1 = tdiv(n.1 * (SCALE as int), l);
    let u2 = tdiv(n.2 * (SCALE as int), l);
    lemma_tdiv_close(n.0 * (SCALE as int), l);
    lemma_tdiv_close(n.1 * (SCALE as int), l);
    lemma_tdiv_close(n.2 * (SCALE as int), l);
    let r0 = n.0 * (SCALE as int) - l * u0;
    let r1 = n.1 * (SCALE as int) - l * u1;
    let r2 = n.2 * (SCALE as int) - l * u2;
    assert((l * l) * (u0 * u0) == 16777216 * (n.0 * n.0) - 8192 * (n.0 * r0) + r0 * r0)
        by (nonlinear_arith)
        requires
            l * u0 == n.0 * 4096 - r0,
    ;
    assert((l * l) * (u1 * u1) == 16777216 * (n.1 * n.1) - 8192 * (n.1 * r1) + r1 * r1)
        by (nonlinear_arith)
        requires
            l * u1 == n.1 * 4096 - r1,
    ;
    assert((l * l) * (u2 * u2) == 16777216 * (n.2 * n.2) - 8192 * (n.2 * r2) + r2 * r2)
        by (nonlinear_arith)
        requires
            l * u2 == n.2 * 4096 - r2,
    ;
    lemma_mul_bound(n.0, r0, l, l);
    lemma_mul_bound(n.1, r1, l, l);
    lemma_mul_bound(n.2, r2, l, l);
    lemma_mul_bound(r0, r0, l, l);
    lemma_mul_bound(r1, r1, l, l);
    lemma_mul_bound(r2, r2, l, l);
    assert(r0 * r0 >= 0) by (nonlinear_arith);
    assert(r1 * r1 >= 0) by (nonlinear_arith);
    assert(r2 * r2 >= 0) by (nonlinear_arith);
    let su = norm_sq(unit_normal(a, b, c));
    assert(su == u0 * u0 + u1 * u1 + u2 * u2);
    assert((l * l) * su == (l * l) * (u0 * u0) + (l * l) * (u1 * u1) + (l * l) * (u2 * u2))
        by (nonlinear_arith)
        requires
            su == u0 * u0 + u1 * u1 + u2 * u2,
    ;
    assert(16777216 * q == 16777216 * (n.0 * n.0) + 16777216 * (n.1 * n.1) + 16777216 * (n.2
        * n.2));
    assert(16777216 * q >= 16777216 * (l * l)) by (nonlinear_arith)
        requires
            q >= l * l,
    ;
    assert((l * l) * su >= 16752640 * (l * l));
    assert(16777216 * q <= 16777216 * (l * l) + 33554432 * l) by (nonlinear_arith)
        requires
            q <= l * l + 2 * l,
    ;
    assert(33554432 * l <= 8192 * (l * l)) by (nonlinear_arith)
        requires
            l >= 4096,
    ;
    assert((l * l) * su <= 16809987 * (l * l));
    assert(l * l >= 1) by (nonlinear_arith)
        requires
            l >= 1,
    ;
    assert(su >= 16752640) by (nonlinear_arith)
        requires
            (l * l) * su >= 16752640 * (l * l),
            l * l >= 1,
    ;
    assert(su <= 16809987) by (nonlinear_arith)
        requires
            (l * l) * su <= 16809987 * (l * l),
            l * l >= 1,
    ;
}

} // verus!
