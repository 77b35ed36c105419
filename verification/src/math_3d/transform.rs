//! Scale-rotate-translate transforms. A rotation about an axis is carried
//! as the Q16.16 cosine and sine of its angle, so the whole transform is
//! exact fixed-point arithmetic; the rotations apply in the fixed order
//! Y, then X, then Z. Translation applies to points, never to directions.

use vstd::prelude::*;
use crate::fx::abs_spec;
use crate::fx::fx_mul;
use crate::fx::fx_mul_spec;
use crate::math_3d::vec3::Point3d;
use crate::math_3d::vec3::Vec3;
use crate::math_3d::vec3::vec3_bounded;

verus! {

/// A rotation about one axis, as the Q16.16 cosine and sine of its angle.
#[derive(Clone, Copy, PartialEq, Eq, Structural, Debug)]
pub struct AxisRotation {
    pub cos: i64,
    pub sin: i64,
}

/// A uniform scale, three axis rotations (about x, y and z), and a
/// translation, all in Q16.16.
#[derive(Clone, Copy, Debug)]
pub struct Transform {
    pub scale: i64,
    pub rotation: (AxisRotation, AxisRotation, AxisRotation),
    pub translation: (i64, i64, i64),
}

/// Largest magnitude of a coordinate fed to a transform.
pub const TRANSFORM_IN_MAX: i64 = 0x8000_0000;

/// Largest magnitude of a coordinate coming out of a transform.
pub const TRANSFORM_OUT_MAX: i64 = 0x4000_0000_0000;

/// Largest magnitude of a scale factor.
pub const SCALE_MAX: i64 = 0x100_0000;

/// Largest magnitude of a stored cosine or sine: a proper rotation stays
/// within one, with room for quantization.
pub const ROT_MAX: i64 = 131072;

impl AxisRotation {
    /// The cosine and sine stay within twice one in Q16.16.
    pub open spec fn wf(self) -> bool {
        abs_spec(self.cos as int) <= ROT_MAX && abs_spec(self.sin as int) <= ROT_MAX
    }

    /// Rotation in the plane: `(a, b)` becomes
    /// `(a cos + b sin, -a sin + b cos)`, each product truncated.
    pub open spec fn apply_spec(self, a: int, b: int) -> (int, int) {
        (
            fx_mul_spec(a, self.cos as int) + fx_mul_spec(b, self.sin as int),
            fx_mul_spec(b, self.cos as int) - fx_mul_spec(a, self.sin as int),
        )
    }
}

impl Transform {
    /// Bounds under which every step of the transform stays within `i64`.
    pub open spec fn wf(self) -> bool {
        &&& abs_spec(self.scale as int) <= SCALE_MAX
        &&& self.rotation.0.wf() && self.rotation.1.wf() && self.rotation.2.wf()
        &&& abs_spec(self.translation.0 as int) <= TRANSFORM_IN_MAX
        &&& abs_spec(self.translation.1 as int) <= TRANSFORM_IN_MAX
        &&& abs_spec(self.translation.2 as int) <= TRANSFORM_IN_MAX
    }

    /// Scaling then rotating `p`, without the final translation: the shared
    /// first part of transforming points and directions.
    pub open spec fn scale_rotate_spec(p: (int, int, int), t: Transform) -> (int, int, int) {
        let sx = fx_mul_spec(p.0, t.scale as int);
        let sy = fx_mul_spec(p.1, t.scale as int);
        let sz = fx_mul_spec(p.2, t.scale as int);
        let (xy, zy) = t.rotation.1.apply_spec(sx, sz);
        let (yx, zx) = t.rotation.0.apply_spec(sy, zy);
        let (xz, yz) = t.rotation.2.apply_spec(xy, yx);
        (xz, yz, zx)
    }

    /// The full transform of a point: scale, rotate, translate.
    pub open spec fn transform_point_spec(p: (int, int, int), t: Transform) -> (int, int, int) {
        let (x, y, z) = Self::scale_rotate_spec(p, t);
        (x + t.translation.0, y + t.translation.1, z + t.translation.2)
    }

    /// The transform of a direction: scale, rotate, then re-normalize;
    /// no translation.
    pub open spec fn transform_vec3_spec(v: Vec3, t: Transform) -> Vec3 {
        let (x, y, z) = Self::scale_rotate_spec((v.x as int, v.y as int, v.z as int), t);
        (Vec3 { x: x as i64, y: y as i64, z: z as i64 }).normalize_spec()
    }

    /// Applies `t` to the point `p`: scale, the three rotations in the
    /// order y, x, z, then the translation.
    pub fn transform_point(p: Point3d, t: &Transform) -> (r: Point3d)
        requires
            t.wf(),
            abs_spec(p.0 as int) <= TRANSFORM_IN_MAX,
            abs_spec(p.1 as int) <= TRANSFORM_IN_MAX,
            abs_spec(p.2 as int) <= TRANSFORM_IN_MAX,
        ensures
            (r.0 as int, r.1 as int, r.2 as int) == Self::transform_point_spec(
                (p.0 as int, p.1 as int, p.2 as int),
                *t,
            ),
            abs_spec(r.0 as int) <= TRANSFORM_OUT_MAX,
            abs_spec(r.1 as int) <= TRANSFORM_OUT_MAX,
            abs_spec(r.2 as int) <= TRANSFORM_OUT_MAX,
    {
        let (x, y, z) = Self::scale_rotate(p, t);
        (x + t.translation.0, y + t.translation.1, z + t.translation.2)
    }

    /// Applies `t` to the direction `v`: scale and the three rotations as
    /// for a point, never the translation, then re-normalization, so a
    /// normal keeps unit length for the shading dot products.
    pub fn transform_vec3(v: Vec3, t: &Transform) -> (r: Vec3)
        requires
            t.wf(),
            vec3_bounded(v, TRANSFORM_IN_MAX as int),
        ensures
            r == Self::transform_vec3_spec(v, *t),
            vec3_bounded(r, 65536),
    {
        let (x, y, z) = Self::scale_rotate((v.x, v.y, v.z), t);
        Vec3::new(x, y, z).normalize()
    }

    /// The scale and rotation steps shared by points and directions.
    fn scale_rotate(p: Point3d, t: &Transform) -> (r: Point3d)
        requires
            t.wf(),
            abs_spec(p.0 as int) <= TRANSFORM_IN_MAX,
            abs_spec(p.1 as int) <= TRANSFORM_IN_MAX,
            abs_spec(p.2 as int) <= TRANSFORM_IN_MAX,
        ensures
            (r.0 as int, r.1 as int, r.2 as int) == Self::scale_rotate_spec(
                (p.0 as int, p.1 as int, p.2 as int),
                *t,
            ),
            abs_spec(r.0 as int) <= 0x2000_0000_0000,
            abs_spec(r.1 as int) <= 0x2000_0000_0000,
            abs_spec(r.2 as int) <= 0x2000_0000_0000,
    {
        proof {
            crate::fx::lemma_fx_mul_bound(p.0 as int, t.scale as int, TRANSFORM_IN_MAX as int, SCALE_MAX as int);
            crate::fx::lemma_fx_mul_bound(p.1 as int, t.scale as int, TRANSFORM_IN_MAX as int, SCALE_MAX as int);
            crate::fx::lemma_fx_mul_bound(p.2 as int, t.scale as int, TRANSFORM_IN_MAX as int, SCALE_MAX as int);
        }
        let sx = fx_mul(p.0, t.scale);
        let sy = fx_mul(p.1, t.scale);
        let sz = fx_mul(p.2, t.scale);
        let (xy, zy) = Self::rotate_pair(sx, sz, t.rotation.1, 0x80_0000_0000);
        let (yx, zx) = Self::rotate_pair(sy, zy, t.rotation.0, 0x200_0000_0000);
        let (xz, yz) = Self::rotate_pair(xy, yx, t.rotation.2, 0x800_0000_0000);
        (xz, yz, zx)
    }

    /// One planar rotation step, with a bound `m` on the incoming pair that
    /// doubles on the way out.
    fn rotate_pair(a: i64, b: i64, rot: AxisRotation, m: i64) -> (r: (i64, i64))
        requires
            rot.wf(),
            abs_spec(a as int) <= m,
            abs_spec(b as int) <= m,
            0 <= m <= 0x800_0000_0000,
        ensures
            (r.0 as int, r.1 as int) == rot.apply_spec(a as int, b as int),
            abs_spec(r.0 as int) <= 4 * m,
            abs_spec(r.1 as int) <= 4 * m,
    {
        proof {
            crate::fx::lemma_fx_mul_bound(a as int, rot.cos as int, m as int, ROT_MAX as int);
            crate::fx::lemma_fx_mul_bound(b as int, rot.sin as int, m as int, ROT_MAX as int);
            crate::fx::lemma_fx_mul_bound(b as int, rot.cos as int, m as int, ROT_MAX as int);
            crate::fx::lemma_fx_mul_bound(a as int, rot.sin as int, m as int, ROT_MAX as int);
            assert(m as int * 131072 / 65536 == 2 * m) by (nonlinear_arith)
                requires
                    0 <= m,
            ;
        }
        let ac = fx_mul(a, rot.cos);
        let bs = fx_mul(b, rot.sin);
        let bc = fx_mul(b, rot.cos);
        let a_s = fx_mul(a, rot.sin);
        (ac + bs, bc - a_s)
    }
}

/// A transform with unit scale and no translation preserves a direction's
/// length: the transformed direction comes out a unit vector, its squared
/// length within `2^20` of one in Q32.32 (normalization is idempotent on
/// already-unit vectors up to this tolerance). Inputs whose scaled-rotated
/// image drops below half a unit are left out: there the quantization
/// error genuinely dominates the result.
pub proof fn lemma_transform_vec3_preserves_length(v: Vec3, t: Transform)
    requires
        t.wf(),
        t.scale == 65536,
        t.translation == (0i64, 0i64, 0i64),
        vec3_bounded(v, 0x4000_0000),
        ({
            let rt = Transform::scale_rotate_spec((v.x as int, v.y as int, v.z as int), t);
            let rv = Vec3 { x: rt.0 as i64, y: rt.1 as i64, z: rt.2 as i64 };
            rv.sq_len_wide() >= 0x4000_0000
        }),
    ensures
        ({
            let r = Transform::transform_vec3_spec(v, t);
            let sq = r.x * r.x + r.y * r.y + r.z * r.z;
            0x1_0000_0000 - 0x10_0000 <= sq <= 0x1_0000_0000 + 0x10_0000
        }),
{
    crate::math_3d::raytrace::lemma_scale_rotate_bounded(
        (v.x as int, v.y as int, v.z as int),
        t,
    );
    let rt = Transform::scale_rotate_spec((v.x as int, v.y as int, v.z as int), t);
    let rv = Vec3 { x: rt.0 as i64, y: rt.1 as i64, z: rt.2 as i64 };
    crate::math_3d::vec3::lemma_normalize_unit_length(rv);
}

} // verus!
