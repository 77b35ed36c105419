//! Three-component vector algebra over Q16.16 fixed point. Every operation
//! is pure and its contract states the exact resulting components.

use vstd::prelude::*;
use crate::fx::abs_spec;
use crate::fx::fx_div;
use crate::fx::fx_mul;
use crate::fx::fx_mul_spec;
use crate::fx::isqrt_u128;
use crate::fx::lemma_sqrt_floor_bounds;
use crate::fx::lemma_tz_div;
use crate::fx::sqrt_floor;
use crate::fx::tz_div;
use crate::fx::wide_mul;

verus! {

/// A screen position in whole pixels.
pub type Point2d = (i32, i32);

/// A position in space: three Q16.16 coordinates.
pub type Point3d = (i64, i64, i64);

/// An 8-bit RGB color.
pub type Color = (u8, u8, u8);

/// Conversion of some foreign coordinate triple into a `Point3d`.
pub trait ToPoint3d {
    fn to_p3d(self) -> Point3d;
}

/// A direction or position vector, components in Q16.16.
#[derive(Debug, Copy, Clone, PartialEq, Eq, Structural)]
pub struct Vec3 {
    pub x: i64,
    pub y: i64,
    pub z: i64,
}

/// A vertex carrying a resolved color.
pub struct Vertex {
    pub pos: Vec3,
    pub color: Color,
}

/// A projected vertex: screen x/y, an inverse-depth value for the depth
/// test, and a resolved color to interpolate.
#[derive(Copy, Clone)]
pub struct Vec3WithColor {
    pub x: i64,
    pub y: i64,
    pub z: i64,
    pub c: Color,
}

/// All three components within `b` in magnitude.
pub open spec fn vec3_bounded(v: Vec3, b: int) -> bool {
    abs_spec(v.x as int) <= b && abs_spec(v.y as int) <= b && abs_spec(v.z as int) <= b
}

/// Safe magnitude for components entering a Q16.16 product: products of two
/// such components, summed three times, stay within `i64` after scaling.
pub const VEC_MUL_MAX: i64 = 0x40_0000_0000;

/// Safe magnitude for components entering an addition or subtraction.
pub const VEC_ADD_MAX: i64 = 0x3fff_ffff_ffff_ffff;

/// Safe magnitude for components entering `length` or `normalize`.
pub const VEC_LEN_MAX: i64 = 0x1_0000_0000_0000;

impl Vec3 {
    /// The exact sum of the squared components (a Q32.32 integer).
    pub open spec fn sq_len_wide(self) -> int {
        self.x * self.x + self.y * self.y + self.z * self.z
    }

    /// The Q16.16 length: the integer square root of the squared length.
    pub open spec fn len_spec(self) -> int {
        sqrt_floor(self.sq_len_wide())
    }

    /// The Q16.16 dot product.
    pub open spec fn dot_spec(self, other: Vec3) -> int {
        tz_div(self.x * other.x + self.y * other.y + self.z * other.z, 65536)
    }

    /// The Q16.16 cross product.
    pub open spec fn cross_spec(self, other: Vec3) -> Vec3 {
        Vec3 {
            x: (fx_mul_spec(self.y as int, other.z as int) - fx_mul_spec(
                self.z as int,
                other.y as int,
            )) as i64,
            y: (fx_mul_spec(self.z as int, other.x as int) - fx_mul_spec(
                self.x as int,
                other.z as int,
            )) as i64,
            z: (fx_mul_spec(self.x as int, other.y as int) - fx_mul_spec(
                self.y as int,
                other.x as int,
            )) as i64,
        }
    }

    /// The normalized vector: each component divided by the length, or the
    /// zero vector when the length is zero.
    pub open spec fn normalize_spec(self) -> Vec3 {
        let l = self.len_spec();
        if l <= 0 {
            Vec3 { x: 0, y: 0, z: 0 }
        } else {
            Vec3 {
                x: tz_div(self.x * 65536, l) as i64,
                y: tz_div(self.y * 65536, l) as i64,
                z: tz_div(self.z * 65536, l) as i64,
            }
        }
    }

    pub fn new(x: i64, y: i64, z: i64) -> (r: Vec3)
        ensures
            r == (Vec3 { x, y, z }),
    {
        Vec3 { x, y, z }
    }

    pub fn new_from_point3d(p: Point3d) -> (r: Vec3)
        ensures
            r == (Vec3 { x: p.0, y: p.1, z: p.2 }),
    {
        Vec3 { x: p.0, y: p.1, z: p.2 }
    }

    pub(crate) fn from(p: Point3d) -> (r: Vec3)
        ensures
            r == (Vec3 { x: p.0, y: p.1, z: p.2 }),
    {
        Vec3 { x: p.0, y: p.1, z: p.2 }
    }

    pub(crate) fn from_point3d(p: Point3d) -> (r: Vec3)
        ensures
            r == (Vec3 { x: p.0, y: p.1, z: p.2 }),
    {
        Vec3 { x: p.0, y: p.1, z: p.2 }
    }

    pub(crate) fn to_point3d(&self) -> (r: Point3d)
        ensures
            r == (self.x, self.y, self.z),
    {
        (self.x, self.y, self.z)
    }

    /// Componentwise sum.
    pub fn add(&self, other: Vec3) -> (r: Vec3)
        requires
            vec3_bounded(*self, VEC_ADD_MAX as int),
            vec3_bounded(other, VEC_ADD_MAX as int),
        ensures
            r.x == self.x + other.x,
            r.y == self.y + other.y,
            r.z == self.z + other.z,
    {
        Vec3::new(self.x + other.x, self.y + other.y, self.z + other.z)
    }

    /// Componentwise difference.
    pub fn sub(&self, other: Vec3) -> (r: Vec3)
        requires
            vec3_bounded(*self, VEC_ADD_MAX as int),
            vec3_bounded(other, VEC_ADD_MAX as int),
        ensures
            r.x == self.x - other.x,
            r.y == self.y - other.y,
            r.z == self.z - other.z,
    {
        Vec3::new(self.x - other.x, self.y - other.y, self.z - other.z)
    }

    /// The Q16.16 dot product.
    pub fn dot(&self, other: Vec3) -> (r: i64)
        requires
            vec3_bounded(*self, VEC_MUL_MAX as int),
            vec3_bounded(other, VEC_MUL_MAX as int),
        ensures
            r == self.dot_spec(other),
    {
        let px = wide_mul(self.x, other.x);
        let py = wide_mul(self.y, other.y);
        let pz = wide_mul(self.z, other.z);
        proof {
            lemma_wide_products_bounded(self.x as int, other.x as int, VEC_MUL_MAX as int);
            lemma_wide_products_bounded(self.y as int, other.y as int, VEC_MUL_MAX as int);
            lemma_wide_products_bounded(self.z as int, other.z as int, VEC_MUL_MAX as int);
            crate::fx::lemma_tz_div_bound(
                px + py + pz,
                65536,
                3 * (0x40_0000_0000int * 0x40_0000_0000int),
                65536,
            );
            assert(3 * (0x40_0000_0000int * 0x40_0000_0000int) / 65536int
                == 0x3000_0000_0000_0000);
        }
        let q = crate::fx::div_tz_i128(px + py + pz, 65536);
        q as i64
    }

    /// Componentwise negation.
    pub fn neg(&self) -> (r: Vec3)
        requires
            vec3_bounded(*self, VEC_ADD_MAX as int),
        ensures
            r.x == -self.x,
            r.y == -self.y,
            r.z == -self.z,
    {
        Vec3::new(-self.x, -self.y, -self.z)
    }

    /// Scaling by a Q16.16 scalar.
    pub fn mul(&self, scalar: i64) -> (r: Vec3)
        requires
            vec3_bounded(*self, VEC_MUL_MAX as int),
            abs_spec(scalar as int) <= VEC_MUL_MAX as int,
        ensures
            r.x == fx_mul_spec(self.x as int, scalar as int),
            r.y == fx_mul_spec(self.y as int, scalar as int),
            r.z == fx_mul_spec(self.z as int, scalar as int),
    {
        proof {
            lemma_fx_mul_bounded(self.x as int, scalar as int);
            lemma_fx_mul_bounded(self.y as int, scalar as int);
            lemma_fx_mul_bounded(self.z as int, scalar as int);
        }
        Vec3 { x: fx_mul(self.x, scalar), y: fx_mul(self.y, scalar), z: fx_mul(self.z, scalar) }
    }

    /// Componentwise Q16.16 product.
    pub fn mul_vec(&self, other: &Vec3) -> (r: Vec3)
        requires
            vec3_bounded(*self, VEC_MUL_MAX as int),
            vec3_bounded(*other, VEC_MUL_MAX as int),
        ensures
            r.x == fx_mul_spec(self.x as int, other.x as int),
            r.y == fx_mul_spec(self.y as int, other.y as int),
            r.z == fx_mul_spec(self.z as int, other.z as int),
    {
        proof {
            lemma_fx_mul_bounded(self.x as int, other.x as int);
            lemma_fx_mul_bounded(self.y as int, other.y as int);
            lemma_fx_mul_bounded(self.z as int, other.z as int);
        }
        Vec3 { x: fx_mul(self.x, other.x), y: fx_mul(self.y, other.y), z: fx_mul(self.z, other.z) }
    }

    /// The Q16.16 cross product, a vector perpendicular to both operands.
    pub fn cross(&self, other: Vec3) -> (r: Vec3)
        requires
            vec3_bounded(*self, VEC_MUL_MAX as int),
            vec3_bounded(other, VEC_MUL_MAX as int),
        ensures
            r == self.cross_spec(other),
    {
        proof {
            lemma_cross_bounds(*self, other);
        }
        Vec3::new(
            fx_mul(self.y, other.z) - fx_mul(self.z, other.y),
            fx_mul(self.z, other.x) - fx_mul(self.x, other.z),
            fx_mul(self.x, other.y) - fx_mul(self.y, other.x),
        )
    }

    /// The Q16.16 length of the vector.
    pub fn length(&self) -> (r: i64)
        requires
            vec3_bounded(*self, VEC_LEN_MAX as int),
        ensures
            r == self.len_spec(),
            0 <= r <= 0x2_0000_0000_0000,
    {
        proof {
            lemma_sq_len_wide_bounds(*self, VEC_LEN_MAX as int);
        }
        let px = wide_mul(self.x, self.x);
        let py = wide_mul(self.y, self.y);
        let pz = wide_mul(self.z, self.z);
        let s = (px + py + pz) as u128;
        let r = isqrt_u128(s);
        proof {
            lemma_sqrt_floor_bounds(s as int);
            assert(sqrt_floor(s as int) <= 0x2_0000_0000_0000) by (nonlinear_arith)
                requires
                    sqrt_floor(s as int) >= 0,
                    sqrt_floor(s as int) * sqrt_floor(s as int) <= s,
                    s as int <= 3 * (0x1_0000_0000_0000 * 0x1_0000_0000_0000),
            ;
        }
        r as i64
    }

    /// The unit vector in this vector's direction, or the zero vector for a
    /// zero-length input.
    pub fn normalize(&self) -> (r: Vec3)
        requires
            vec3_bounded(*self, VEC_LEN_MAX as int),
        ensures
            r == self.normalize_spec(),
            vec3_bounded(r, 65536),
    {
        let len = self.length();
        proof {
            lemma_normalize_components(*self);
        }
        if len > 0 {
            Vec3::new(fx_div(self.x, len), fx_div(self.y, len), fx_div(self.z, len))
        } else {
            Vec3::new(0, 0, 0)
        }
    }
}

/// The squared length of a bounded vector is nonnegative and at most three
/// times the squared bound.
proof fn lemma_sq_len_wide_bounds(v: Vec3, b: int)
    requires
        vec3_bounded(v, b),
        b >= 0,
    ensures
        0 <= v.sq_len_wide() <= 3 * (b * b),
        0 <= v.x * v.x <= b * b,
        0 <= v.y * v.y <= b * b,
        0 <= v.z * v.z <= b * b,
{
    assert(0 <= v.x * v.x <= b * b) by (nonlinear_arith)
        requires
            abs_spec(v.x as int) <= b,
    ;
    assert(0 <= v.y * v.y <= b * b) by (nonlinear_arith)
        requires
            abs_spec(v.y as int) <= b,
    ;
    assert(0 <= v.z * v.z <= b * b) by (nonlinear_arith)
        requires
            abs_spec(v.z as int) <= b,
    ;
}

/// A product of two components bounded by `m` is bounded by `m * m`.
proof fn lemma_wide_products_bounded(a: int, b: int, m: int)
    requires
        abs_spec(a) <= m,
        abs_spec(b) <= m,
        0 <= m,
    ensures
        -(m * m) <= a * b <= m * m,
{
    assert(-(m * m) <= a * b <= m * m) by (nonlinear_arith)
        requires
            abs_spec(a) <= m,
            abs_spec(b) <= m,
            0 <= m,
    ;
}

/// Each component of a cross product of vectors bounded by `VEC_MUL_MAX`
/// fits comfortably in `i64`.
proof fn lemma_cross_bounds(a: Vec3, b: Vec3)
    requires
        vec3_bounded(a, VEC_MUL_MAX as int),
        vec3_bounded(b, VEC_MUL_MAX as int),
    ensures
        abs_spec(fx_mul_spec(a.y as int, b.z as int)) <= 0x1000_0000_0000_0000,
        abs_spec(fx_mul_spec(a.z as int, b.y as int)) <= 0x1000_0000_0000_0000,
        abs_spec(fx_mul_spec(a.z as int, b.x as int)) <= 0x1000_0000_0000_0000,
        abs_spec(fx_mul_spec(a.x as int, b.z as int)) <= 0x1000_0000_0000_0000,
        abs_spec(fx_mul_spec(a.x as int, b.y as int)) <= 0x1000_0000_0000_0000,
        abs_spec(fx_mul_spec(a.y as int, b.x as int)) <= 0x1000_0000_0000_0000,
{
    lemma_fx_mul_bounded(a.y as int, b.z as int);
    lemma_fx_mul_bounded(a.z as int, b.y as int);
    lemma_fx_mul_bounded(a.z as int, b.x as int);
    lemma_fx_mul_bounded(a.x as int, b.z as int);
    lemma_fx_mul_bounded(a.x as int, b.y as int);
    lemma_fx_mul_bounded(a.y as int, b.x as int);
}

/// A Q16.16 product of factors bounded by `VEC_MUL_MAX` is bounded by
/// `VEC_MUL_MAX * VEC_MUL_MAX / 65536`.
proof fn lemma_fx_mul_bounded(a: int, b: int)
    requires
        abs_spec(a) <= VEC_MUL_MAX as int,
        abs_spec(b) <= VEC_MUL_MAX as int,
    ensures
        abs_spec(fx_mul_spec(a, b)) <= 0x1000_0000_0000_0000,
{
    lemma_wide_products_bounded(a, b, VEC_MUL_MAX as int);
    crate::fx::lemma_tz_div_bound(
        a * b,
        65536,
        0x40_0000_0000int * 0x40_0000_0000int,
        65536,
    );
    assert(0x40_0000_0000int * 0x40_0000_0000int / 65536int == 0x1000_0000_0000_0000);
}

/// Each component of a vector is bounded in magnitude by the vector's
/// length, so a normalized component never exceeds one in Q16.16.
pub proof fn lemma_normalize_components(v: Vec3)
    requires
        vec3_bounded(v, VEC_LEN_MAX as int),
    ensures
        abs_spec(v.x as int) <= v.len_spec(),
        abs_spec(v.y as int) <= v.len_spec(),
        abs_spec(v.z as int) <= v.len_spec(),
        v.len_spec() > 0 ==> abs_spec(tz_div(v.x * 65536, v.len_spec())) <= 65536,
        v.len_spec() > 0 ==> abs_spec(tz_div(v.y * 65536, v.len_spec())) <= 65536,
        v.len_spec() > 0 ==> abs_spec(tz_div(v.z * 65536, v.len_spec())) <= 65536,
        v.len_spec() == 0 ==> v.x == 0 && v.y == 0 && v.z == 0,
        vec3_bounded(v.normalize_spec(), 65536),
        v.len_spec() >= 0,
{
    lemma_sq_len_wide_bounds(v, VEC_LEN_MAX as int);
    let s = v.sq_len_wide();
    let l = v.len_spec();
    lemma_sqrt_floor_bounds(s);
    lemma_component_le_len(v.x as int, v.y as int, v.z as int, s, l);
    lemma_component_le_len(v.y as int, v.x as int, v.z as int, s, l);
    lemma_component_le_len(v.z as int, v.x as int, v.y as int, s, l);
    if l > 0 {
        lemma_norm_quotient(v.x as int, l);
        lemma_norm_quotient(v.y as int, l);
        lemma_norm_quotient(v.z as int, l);
    } else {
        assert(v.x == 0 && v.y == 0 && v.z == 0) by (nonlinear_arith)
            requires
                s == v.x * v.x + v.y * v.y + v.z * v.z,
                s < (l + 1) * (l + 1),
                l == 0,
        ;
    }
}

/// Normalization yields a unit vector: for every vector of length at least
/// one, the squared length of `normalize` stays within `2^20` of one in
/// Q32.32 (a relative error below one part in four thousand); the zero
/// vector normalizes to the zero vector (shown by `normalize_spec` itself).
/// Vectors shorter than half a unit are left out: their relative
/// quantization error genuinely grows without bound as the length shrinks.
pub proof fn lemma_normalize_unit_length(v: Vec3)
    requires
        vec3_bounded(v, VEC_LEN_MAX as int),
        v.sq_len_wide() >= 0x4000_0000,
    ensures
        ({
            let n = v.normalize_spec();
            let sq = n.x * n.x + n.y * n.y + n.z * n.z;
            0x1_0000_0000 - 0x10_0000 <= sq <= 0x1_0000_0000 + 0x10_0000
        }),
{
    let s = v.sq_len_wide();
    let l = v.len_spec();
    lemma_sq_len_wide_bounds(v, VEC_LEN_MAX as int);
    lemma_sqrt_floor_bounds(s);
    assert(l >= 32768) by (nonlinear_arith)
        requires
            s >= 0x4000_0000,
            l >= 0,
            s < (l + 1) * (l + 1),
    ;
    lemma_component_le_len(v.x as int, v.y as int, v.z as int, s, l);
    lemma_component_le_len(v.y as int, v.x as int, v.z as int, s, l);
    lemma_component_le_len(v.z as int, v.x as int, v.y as int, s, l);
    lemma_norm_quotient(v.x as int, l);
    lemma_norm_quotient(v.y as int, l);
    lemma_norm_quotient(v.z as int, l);

    let nx = tz_div(v.x * 65536, l);
    let ny = tz_div(v.y * 65536, l);
    let nz = tz_div(v.z * 65536, l);
    lemma_norm_comp_expansion(v.x as int, l);
    lemma_norm_comp_expansion(v.y as int, l);
    lemma_norm_comp_expansion(v.z as int, l);
    let rx = v.x * 65536 - nx * l;
    let ry = v.y * 65536 - ny * l;
    let rz = v.z * 65536 - nz * l;
    let big = nx * nx + ny * ny + nz * nz;
    assert(big * (l * l) == nx * nx * (l * l) + ny * ny * (l * l) + nz * nz * (l * l))
        by (nonlinear_arith)
        requires
            big == nx * nx + ny * ny + nz * nz,
    ;
    assert(s * (65536 * 65536) == (v.x as int) * (v.x as int) * (65536 * 65536) + (v.y as int) * (
    v.y as int) * (65536 * 65536) + (v.z as int) * (v.z as int) * (65536 * 65536))
        by (nonlinear_arith)
        requires
            s == (v.x as int) * (v.x as int) + (v.y as int) * (v.y as int) + (v.z as int) * (
            v.z as int),
    ;
    assert(big * (l * l) == s * (65536 * 65536) - 2 * ((v.x * 65536) * rx + (v.y * 65536) * ry + (
    v.z * 65536) * rz) + (rx * rx + ry * ry + rz * rz));
    // Bound the cross terms and the remainder squares by the squared length.
    lemma_norm_cross_bound(v.x as int, rx, l);
    lemma_norm_cross_bound(v.y as int, ry, l);
    lemma_norm_cross_bound(v.z as int, rz, l);
    let c_all = (v.x * 65536) * rx + (v.y * 65536) * ry + (v.z * 65536) * rz;
    let r_all = rx * rx + ry * ry + rz * rz;
    assert(-(196608 * (l * l)) <= c_all && c_all <= 196608 * (l * l));
    assert(0 <= r_all && r_all <= 3 * (l * l));
    // Bound the true squared length by the integer root.
    assert(l * l <= s && s <= l * l + 2 * l) by (nonlinear_arith)
        requires
            l >= 0,
            l * l <= s,
            s < (l + 1) * (l + 1),
    ;
    assert(s * (65536 * 65536) <= 4294967296 * (l * l) + 8589934592 * l) by (nonlinear_arith)
        requires
            s <= l * l + 2 * l,
    ;
    assert(l * l >= 32768 * l) by (nonlinear_arith)
        requires
            l >= 32768,
    ;
    assert(8589934592 * l <= 262144 * (l * l));
    assert(s * (65536 * 65536) >= 4294967296 * (l * l)) by (nonlinear_arith)
        requires
            s >= l * l,
    ;
    assert(big * (l * l) == s * (65536 * 65536) - 2 * c_all + r_all);
    assert(big * (l * l) <= 4294967296 * (l * l) + 262144 * (l * l) + 2 * (196608 * (l * l)) + 3
        * (l * l));
    assert(big * (l * l) >= 4294967296 * (l * l) - 2 * (196608 * (l * l)));
    assert(0x1_0000_0000 - 0x10_0000 <= big <= 0x1_0000_0000 + 0x10_0000) by (nonlinear_arith)
        requires
            l >= 1,
            big * (l * l) <= 4294967296 * (l * l) + 262144 * (l * l) + 2 * (196608 * (l * l)) + 3
                * (l * l),
            big * (l * l) >= 4294967296 * (l * l) - 2 * (196608 * (l * l)),
    ;
    let n = v.normalize_spec();
    assert(n.x == nx && n.y == ny && n.z == nz);
}

/// The square of a truncated normalized component expands against the
/// exact scaled component and its remainder.
proof fn lemma_norm_comp_expansion(x: int, l: int)
    requires
        l >= 1,
        abs_spec(x) <= l,
    ensures
        ({
            let n = tz_div(x * 65536, l);
            let r = x * 65536 - n * l;
            &&& abs_spec(r) < l
            &&& n * n * (l * l) == x * x * (65536 * 65536) - 2 * ((x * 65536) * r) + r * r
        }),
{
    lemma_tz_div(x * 65536, l);
    let n = tz_div(x * 65536, l);
    let r = x * 65536 - n * l;
    assert(n * n * (l * l) == x * x * (65536 * 65536) - 2 * ((x * 65536) * r) + r * r)
        by (nonlinear_arith)
        requires
            r == x * 65536 - n * l,
    ;
}

/// The cross term of one component is bounded by the squared length, and
/// so is the squared remainder.
proof fn lemma_norm_cross_bound(x: int, r: int, l: int)
    requires
        l >= 1,
        abs_spec(x) <= l,
        abs_spec(r) < l,
    ensures
        -(65536 * (l * l)) <= (x * 65536) * r <= 65536 * (l * l),
        0 <= r * r <= l * l,
{
    assert(-(65536 * (l * l)) <= (x * 65536) * r <= 65536 * (l * l)) by (nonlinear_arith)
        requires
            abs_spec(x) <= l,
            abs_spec(r) < l,
            l >= 1,
    ;
    assert(0 <= r * r <= l * l) by (nonlinear_arith)
        requires
            abs_spec(r) < l,
            l >= 1,
    ;
}

/// A component whose square is part of `s` is at most `sqrt_floor(s)`.
proof fn lemma_component_le_len(c: int, o1: int, o2: int, s: int, l: int)
    requires
        s == c * c + o1 * o1 + o2 * o2,
        l >= 0,
        s < (l + 1) * (l + 1),
    ensures
        abs_spec(c) <= l,
{
    assert(abs_spec(c) <= l) by (nonlinear_arith)
        requires
            s == c * c + o1 * o1 + o2 * o2,
            l >= 0,
            s < (l + 1) * (l + 1),
    ;
}

/// The normalized component `c * 65536 / l` is at most one in Q16.16 when
/// the component is at most the length.
proof fn lemma_norm_quotient(c: int, l: int)
    requires
        l > 0,
        abs_spec(c) <= l,
    ensures
        abs_spec(tz_div(c * 65536, l)) <= 65536,
{
    assert(abs_spec(c * 65536) <= l * 65536) by (nonlinear_arith)
        requires
            abs_spec(c) <= l,
            l > 0,
    ;
    crate::fx::lemma_tz_div_bound(c * 65536, l, l * 65536, l);
    vstd::arithmetic::div_mod::lemma_div_multiples_vanish(65536, l);
}

} // verus!
