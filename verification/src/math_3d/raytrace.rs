//! The BVH-accelerated ray tracer: triangle preparation, the transform
//! pipeline, the bounding-volume hierarchy over centroid-median splits,
//! ray-box and ray-triangle intersection, recursive traversal, and the
//! parallel per-row renderer.

use vstd::prelude::*;
use rayon::iter::IntoParallelIterator;
use rayon::iter::ParallelIterator;
use crate::frame_buffer::FrameBuffer;
use crate::fx::abs_spec;
use crate::fx::div_tz_i128;
use crate::fx::tz_div;
use crate::math_3d::material::Material;
use crate::math_3d::transform::Transform;
use crate::math_3d::utils::SCENE_MAX;
use crate::math_3d::vec3::Color;
use crate::math_3d::vec3::Point3d;
use crate::math_3d::vec3::Vec3;
use crate::math_3d::vec3::vec3_bounded;

verus! {

/// One triangle prepared for tracing: vertices, vertex normals, and the
/// centroid used by the median split.
#[derive(Clone, Copy)]
pub struct TriData {
    pub v0: Vec3,
    pub v1: Vec3,
    pub v2: Vec3,
    pub n0: Vec3,
    pub n1: Vec3,
    pub n2: Vec3,
    pub center: Vec3,
}

/// What a ray hit: the distance along the ray, the interpolated unit
/// normal, and the hit point.
#[derive(Clone, Copy)]
pub struct HitInfo {
    pub t: i64,
    pub normal: Vec3,
    pub hit_p: Vec3,
}

/// One node of the bounding-volume hierarchy: an axis-aligned box and
/// either two child indices (interior, `tri_count == 0`) or a contiguous
/// run of triangles (leaf, `tri_count > 0`).
#[derive(Clone, Copy)]
pub struct BVHNode {
    pub bbox_min: Vec3,
    pub bbox_max: Vec3,
    pub left_child: usize,
    pub right_child: usize,
    pub first_tri: usize,
    pub tri_count: usize,
}

impl Default for BVHNode {
    /// An empty leaf with a zero box.
    fn default() -> (r: Self)
        ensures
            r.bbox_min == (Vec3 { x: 0, y: 0, z: 0 }),
            r.bbox_max == (Vec3 { x: 0, y: 0, z: 0 }),
            r.left_child == 0,
            r.right_child == 0,
            r.first_tri == 0,
            r.tri_count == 0,
    {
        BVHNode {
            bbox_min: Vec3 { x: 0, y: 0, z: 0 },
            bbox_max: Vec3 { x: 0, y: 0, z: 0 },
            left_child: 0,
            right_child: 0,
            first_tri: 0,
            tri_count: 0,
        }
    }
}

/// Every coordinate of the triangle (vertices, normals, centroid) fits the
/// scene bound.
pub open spec fn tri_data_wf(t: TriData) -> bool {
    &&& vec3_bounded(t.v0, SCENE_MAX as int) && vec3_bounded(t.v1, SCENE_MAX as int)
        && vec3_bounded(t.v2, SCENE_MAX as int)
    &&& vec3_bounded(t.n0, SCENE_MAX as int) && vec3_bounded(t.n1, SCENE_MAX as int)
        && vec3_bounded(t.n2, SCENE_MAX as int)
    &&& vec3_bounded(t.center, SCENE_MAX as int)
}

pub open spec fn tris_wf(tris: Seq<TriData>) -> bool {
    forall|i: int| 0 <= i < tris.len() ==> tri_data_wf(#[trigger] tris[i])
}

/// The least distance along the ray at which a hit is accepted, guarding
/// against self-intersection (about 1e-6 world units rounds to one raw
/// Q16.16 step).
pub const RAY_T_MIN_STEP: i64 = 1;

/// The largest accepted hit distance in Q16.16; a quotient beyond it (only
/// possible for nearly degenerate triangles) is treated as a miss.
pub const RAY_T_CAP: i64 = 0x40_0000_0000;

/// How far (in Q16.16 world units) the computed hit point may stray from
/// the triangle's own axis-aligned bounds before the hit is discarded as
/// degenerate: one whole unit. A straying hit point is possible only when
/// the determinant is nearly zero, where the truncated quotients carry no
/// geometric meaning; discarding it extends the explicit
/// degenerate-triangle policy, and ties every accepted hit to the
/// triangle's position, which the traversal's box pruning relies on.
pub const HIT_SLACK: i64 = 65536;

/// The computed hit coordinate lies within the triangle's extent on one
/// axis, with the fixed slack.
pub open spec fn hit_on_axis(h: int, a: int, b: int, c: int) -> bool {
    crate::math_3d::utils::min3_spec(a, b, c) - HIT_SLACK <= h
        <= crate::math_3d::utils::max3_spec(a, b, c) + HIT_SLACK
}

/// The Moeller-Trumbore ray-triangle intersection over exact Q16.16
/// arithmetic: `None` when the ray is parallel (zero determinant), a
/// barycentric coordinate leaves the triangle, the hit is behind the
/// origin, the distance exceeds the cap, or the computed hit point strays
/// from the triangle's bounds (a nearly degenerate determinant); otherwise
/// the distance and the barycentric pair `(u, v)`.
pub open spec fn intersect_tri_spec(orig: Vec3, dir: Vec3, v0: Vec3, v1: Vec3, v2: Vec3) -> Option<
    (i64, i64, i64),
> {
    let e1 = sub3(w3(v1), w3(v0));
    let e2 = sub3(w3(v2), w3(v0));
    let h = cross_w(w3(dir), e2);
    let a = dot_w(e1, h);
    if a == 0 {
        None
    } else {
        let s = sub3(w3(orig), w3(v0));
        let u = tz_div(dot_w(s, h) * 65536, a);
        if u < 0 || u > 65536 {
            None
        } else {
            let q = cross_w(s, e1);
            let v = tz_div(dot_w(w3(dir), q) * 65536, a);
            if v < 0 || u + v > 65536 {
                None
            } else {
                let t = tz_div(dot_w(e2, q) * 65536, a);
                if t >= RAY_T_MIN_STEP && t <= RAY_T_CAP && hit_on_axis(
                    orig.x + crate::fx::fx_mul_spec(dir.x as int, t),
                    v0.x as int,
                    v1.x as int,
                    v2.x as int,
                ) && hit_on_axis(
                    orig.y + crate::fx::fx_mul_spec(dir.y as int, t),
                    v0.y as int,
                    v1.y as int,
                    v2.y as int,
                ) && hit_on_axis(
                    orig.z + crate::fx::fx_mul_spec(dir.z as int, t),
                    v0.z as int,
                    v1.z as int,
                    v2.z as int,
                ) {
                    Some((t as i64, u as i64, v as i64))
                } else {
                    None
                }
            }
        }
    }
}

/// A vector as a wide integer triple.
pub open spec fn w3(v: Vec3) -> (int, int, int) {
    (v.x as int, v.y as int, v.z as int)
}

/// The componentwise difference of two wide triples.
pub open spec fn sub3(a: (int, int, int), b: (int, int, int)) -> (int, int, int) {
    (a.0 - b.0, a.1 - b.1, a.2 - b.2)
}

/// The Q16.16 cross product over wide triples: each component is a product
/// difference scaled down by 65536, truncating toward zero.
pub open spec fn cross_w(a: (int, int, int), b: (int, int, int)) -> (int, int, int) {
    (
        tz_div(a.1 * b.2 - a.2 * b.1, 65536),
        tz_div(a.2 * b.0 - a.0 * b.2, 65536),
        tz_div(a.0 * b.1 - a.1 * b.0, 65536),
    )
}

/// The Q16.16 dot product over wide triples.
pub open spec fn dot_w(a: (int, int, int), b: (int, int, int)) -> int {
    tz_div(a.0 * b.0 + a.1 * b.1 + a.2 * b.2, 65536)
}

/// The exec form of a wide triple.
pub type W3 = (i128, i128, i128);

/// Cap on the product of the two component bounds of a wide product, under
/// which every intermediate stays far inside `i128`.
pub const W3_PROD_CAP: i128 = 0x10_0000_0000_0000_0000_0000_0000;

fn w_sub(a: W3, b: W3, ba: Ghost<int>, bb: Ghost<int>) -> (r: W3)
    requires
        abs_spec(a.0 as int) <= ba@ && abs_spec(a.1 as int) <= ba@ && abs_spec(a.2 as int) <= ba@,
        abs_spec(b.0 as int) <= bb@ && abs_spec(b.1 as int) <= bb@ && abs_spec(b.2 as int) <= bb@,
        0 <= ba@ <= W3_PROD_CAP as int,
        0 <= bb@ <= W3_PROD_CAP as int,
    ensures
        (r.0 as int, r.1 as int, r.2 as int) == sub3(
            (a.0 as int, a.1 as int, a.2 as int),
            (b.0 as int, b.1 as int, b.2 as int),
        ),
        abs_spec(r.0 as int) <= ba@ + bb@,
        abs_spec(r.1 as int) <= ba@ + bb@,
        abs_spec(r.2 as int) <= ba@ + bb@,
{
    (a.0 - b.0, a.1 - b.1, a.2 - b.2)
}

fn w_cross(a: W3, b: W3, ba: Ghost<int>, bb: Ghost<int>) -> (r: W3)
    requires
        abs_spec(a.0 as int) <= ba@ && abs_spec(a.1 as int) <= ba@ && abs_spec(a.2 as int) <= ba@,
        abs_spec(b.0 as int) <= bb@ && abs_spec(b.1 as int) <= bb@ && abs_spec(b.2 as int) <= bb@,
        0 <= ba@,
        0 <= bb@,
        ba@ * bb@ <= W3_PROD_CAP as int,
    ensures
        (r.0 as int, r.1 as int, r.2 as int) == cross_w(
            (a.0 as int, a.1 as int, a.2 as int),
            (b.0 as int, b.1 as int, b.2 as int),
        ),
        abs_spec(r.0 as int) <= 2 * (ba@ * bb@),
        abs_spec(r.1 as int) <= 2 * (ba@ * bb@),
        abs_spec(r.2 as int) <= 2 * (ba@ * bb@),
{
    proof {
        lemma_w3_products(
            a.0 as int,
            a.1 as int,
            a.2 as int,
            b.0 as int,
            b.1 as int,
            b.2 as int,
            ba@,
            bb@,
        );
    }
    let c0 = div_tz_i128(a.1 * b.2 - a.2 * b.1, 65536);
    let c1 = div_tz_i128(a.2 * b.0 - a.0 * b.2, 65536);
    let c2 = div_tz_i128(a.0 * b.1 - a.1 * b.0, 65536);
    proof {
        crate::fx::lemma_tz_div(a.1 as int * b.2 as int - a.2 as int * b.1 as int, 65536);
        crate::fx::lemma_tz_div(a.2 as int * b.0 as int - a.0 as int * b.2 as int, 65536);
        crate::fx::lemma_tz_div(a.0 as int * b.1 as int - a.1 as int * b.0 as int, 65536);
    }
    (c0, c1, c2)
}

fn w_dot(a: W3, b: W3, ba: Ghost<int>, bb: Ghost<int>) -> (r: i128)
    requires
        abs_spec(a.0 as int) <= ba@ && abs_spec(a.1 as int) <= ba@ && abs_spec(a.2 as int) <= ba@,
        abs_spec(b.0 as int) <= bb@ && abs_spec(b.1 as int) <= bb@ && abs_spec(b.2 as int) <= bb@,
        0 <= ba@,
        0 <= bb@,
        ba@ * bb@ <= W3_PROD_CAP as int,
    ensures
        r as int == dot_w(
            (a.0 as int, a.1 as int, a.2 as int),
            (b.0 as int, b.1 as int, b.2 as int),
        ),
        abs_spec(r as int) <= 3 * (ba@ * bb@),
{
    proof {
        lemma_w3_products(
            a.0 as int,
            a.1 as int,
            a.2 as int,
            b.0 as int,
            b.1 as int,
            b.2 as int,
            ba@,
            bb@,
        );
    }
    let p = a.0 * b.0 + a.1 * b.1 + a.2 * b.2;
    proof {
        crate::fx::lemma_tz_div(
            a.0 as int * b.0 as int + a.1 as int * b.1 as int + a.2 as int * b.2 as int,
            65536,
        );
    }
    div_tz_i128(p, 65536)
}

/// All pairwise products of two bounded wide triples are bounded by the
/// product of the bounds.
proof fn lemma_w3_products(
    a0: int,
    a1: int,
    a2: int,
    b0: int,
    b1: int,
    b2: int,
    ba: int,
    bb: int,
)
    requires
        abs_spec(a0) <= ba && abs_spec(a1) <= ba && abs_spec(a2) <= ba,
        abs_spec(b0) <= bb && abs_spec(b1) <= bb && abs_spec(b2) <= bb,
        0 <= ba,
        0 <= bb,
    ensures
        abs_spec(a0 * b0) <= ba * bb,
        abs_spec(a1 * b1) <= ba * bb,
        abs_spec(a2 * b2) <= ba * bb,
        abs_spec(a0 * b1) <= ba * bb,
        abs_spec(a0 * b2) <= ba * bb,
        abs_spec(a1 * b0) <= ba * bb,
        abs_spec(a1 * b2) <= ba * bb,
        abs_spec(a2 * b0) <= ba * bb,
        abs_spec(a2 * b1) <= ba * bb,
{
    crate::fx::lemma_abs_mul_bound(a0, b0, ba, bb);
    crate::fx::lemma_abs_mul_bound(a1, b1, ba, bb);
    crate::fx::lemma_abs_mul_bound(a2, b2, ba, bb);
    crate::fx::lemma_abs_mul_bound(a0, b1, ba, bb);
    crate::fx::lemma_abs_mul_bound(a0, b2, ba, bb);
    crate::fx::lemma_abs_mul_bound(a1, b0, ba, bb);
    crate::fx::lemma_abs_mul_bound(a1, b2, ba, bb);
    crate::fx::lemma_abs_mul_bound(a2, b0, ba, bb);
    crate::fx::lemma_abs_mul_bound(a2, b1, ba, bb);
}

/// The ray-triangle intersection: the distance along the ray and the two
/// barycentric coordinates of the hit, or `None` when the ray is parallel
/// to the plane, the point falls outside the triangle, or the hit lies
/// behind the origin.
pub fn intersect_triangle_barycentric(orig: Vec3, dir: Vec3, v0: Vec3, v1: Vec3, v2: Vec3) -> (r:
    Option<(i64, i64, i64)>)
    requires
        vec3_bounded(orig, SCENE_MAX as int),
        vec3_bounded(dir, SCENE_MAX as int),
        vec3_bounded(v0, SCENE_MAX as int),
        vec3_bounded(v1, SCENE_MAX as int),
        vec3_bounded(v2, SCENE_MAX as int),
    ensures
        r == intersect_tri_spec(orig, dir, v0, v1, v2),
        r is Some ==> RAY_T_MIN_STEP <= r.unwrap().0 <= RAY_T_CAP && 0 <= r.unwrap().1 <= 65536
            && 0 <= r.unwrap().2 <= 65536 && r.unwrap().1 + r.unwrap().2 <= 65536,
{
    let ow: W3 = (orig.x as i128, orig.y as i128, orig.z as i128);
    let dw: W3 = (dir.x as i128, dir.y as i128, dir.z as i128);
    let v0w: W3 = (v0.x as i128, v0.y as i128, v0.z as i128);
    let v1w: W3 = (v1.x as i128, v1.y as i128, v1.z as i128);
    let v2w: W3 = (v2.x as i128, v2.y as i128, v2.z as i128);
    let edge1 = w_sub(v1w, v0w, Ghost(SCENE_MAX as int), Ghost(SCENE_MAX as int));
    let edge2 = w_sub(v2w, v0w, Ghost(SCENE_MAX as int), Ghost(SCENE_MAX as int));
    let h = w_cross(dw, edge2, Ghost(SCENE_MAX as int), Ghost(2 * SCENE_MAX as int));
    let a = w_dot(edge1, h, Ghost(2 * SCENE_MAX as int), Ghost(4 * (SCENE_MAX as int * SCENE_MAX as int)));
    if a == 0 {
        return None;
    }
    let s = w_sub(ow, v0w, Ghost(SCENE_MAX as int), Ghost(SCENE_MAX as int));
    let un = w_dot(s, h, Ghost(2 * SCENE_MAX as int), Ghost(4 * (SCENE_MAX as int * SCENE_MAX as int)));
    proof {
        crate::fx::lemma_tz_div(un as int * 65536, a as int);
    }
    let u = div_tz_i128(un * 65536, a);
    if u < 0 || u > 65536 {
        return None;
    }
    let q = w_cross(s, edge1, Ghost(2 * SCENE_MAX as int), Ghost(2 * SCENE_MAX as int));
    let vn = w_dot(dw, q, Ghost(SCENE_MAX as int), Ghost(8 * (SCENE_MAX as int * SCENE_MAX as int)));
    proof {
        crate::fx::lemma_tz_div(vn as int * 65536, a as int);
    }
    let v = div_tz_i128(vn * 65536, a);
    if v < 0 || u + v > 65536 {
        return None;
    }
    let tn = w_dot(edge2, q, Ghost(2 * SCENE_MAX as int), Ghost(8 * (SCENE_MAX as int * SCENE_MAX as int)));
    proof {
        crate::fx::lemma_tz_div(tn as int * 65536, a as int);
    }
    let t = div_tz_i128(tn * 65536, a);
    if t < RAY_T_MIN_STEP as i128 || t > RAY_T_CAP as i128 {
        return None;
    }
    let ts = t as i64;
    proof {
        crate::fx::lemma_fx_mul_bound(dir.x as int, ts as int, SCENE_MAX as int, RAY_T_CAP as int);
        crate::fx::lemma_fx_mul_bound(dir.y as int, ts as int, SCENE_MAX as int, RAY_T_CAP as int);
        crate::fx::lemma_fx_mul_bound(dir.z as int, ts as int, SCENE_MAX as int, RAY_T_CAP as int);
    }
    let hx = orig.x + crate::fx::fx_mul(dir.x, ts);
    let hy = orig.y + crate::fx::fx_mul(dir.y, ts);
    let hz = orig.z + crate::fx::fx_mul(dir.z, ts);
    let ok_x = {
        let mn = crate::math_3d::utils::min3(v0.x, v1.x, v2.x);
        let mx = crate::math_3d::utils::max3(v0.x, v1.x, v2.x);
        mn - HIT_SLACK <= hx && hx <= mx + HIT_SLACK
    };
    let ok_y = {
        let mn = crate::math_3d::utils::min3(v0.y, v1.y, v2.y);
        let mx = crate::math_3d::utils::max3(v0.y, v1.y, v2.y);
        mn - HIT_SLACK <= hy && hy <= mx + HIT_SLACK
    };
    let ok_z = {
        let mn = crate::math_3d::utils::min3(v0.z, v1.z, v2.z);
        let mx = crate::math_3d::utils::max3(v0.z, v1.z, v2.z);
        mn - HIT_SLACK <= hz && hz <= mx + HIT_SLACK
    };
    if ok_x && ok_y && ok_z {
        Some((ts, u as i64, v as i64))
    } else {
        None
    }
}

/// A very large slab endpoint standing in for an unbounded axis interval.
pub open spec fn slab_big() -> int {
    0x1000_0000_0000_0000_0000_0000_0000
}

/// The widening of one axis interval of the slab test: enough quanta that
/// a hit accepted within `HIT_SLACK` of a contained triangle always lands
/// inside the interval, despite the truncated quotients on both sides.
pub open spec fn axis_widening(d: int) -> int {
    tz_div(65537int * 65536int, abs_spec(d)) + 4
}

/// The parameter interval in which the ray is inside one axis slab,
/// widened conservatively: the whole line when the ray is parallel to the
/// axis and starts inside the slack-widened slab, nothing when parallel
/// outside, and otherwise the ordered pair of the two plane crossings,
/// each pushed outward by the axis widening.
pub open spec fn axis_range_spec(o: int, d: int, mn: int, mx: int) -> Option<(int, int)> {
    if d == 0 {
        if mn - HIT_SLACK <= o <= mx + HIT_SLACK {
            Some((-slab_big(), slab_big()))
        } else {
            None
        }
    } else {
        let t0 = tz_div((mn - o) * 65536, d);
        let t1 = tz_div((mx - o) * 65536, d);
        let w = axis_widening(d);
        if t0 <= t1 {
            Some((t0 - w, t1 + w))
        } else {
            Some((t1 - w, t0 + w))
        }
    }
}

/// The slab test: the ray meets the box when the three axis intervals and
/// the forward half-line have a common point.
pub open spec fn intersect_aabb_spec(origin: Vec3, dir: Vec3, bmin: Vec3, bmax: Vec3) -> bool {
    let rx = axis_range_spec(origin.x as int, dir.x as int, bmin.x as int, bmax.x as int);
    let ry = axis_range_spec(origin.y as int, dir.y as int, bmin.y as int, bmax.y as int);
    let rz = axis_range_spec(origin.z as int, dir.z as int, bmin.z as int, bmax.z as int);
    if rx is None || ry is None || rz is None {
        false
    } else {
        let (lx, hx) = rx.unwrap();
        let (ly, hy) = ry.unwrap();
        let (lz, hz) = rz.unwrap();
        let tmin = if lx >= ly && lx >= lz {
            lx
        } else if ly >= lz {
            ly
        } else {
            lz
        };
        let tmax = if hx <= hy && hx <= hz {
            hx
        } else if hy <= hz {
            hy
        } else {
            hz
        };
        tmax >= if tmin >= 0 {
            tmin
        } else {
            0
        }
    }
}

/// On one axis, a hit point within the slack of a slab is inside the
/// widened parameter interval of that slab: the widening absorbs both the
/// slack and every truncation on either side.
proof fn lemma_axis_complete(o: int, d: int, mn: int, mx: int, t: int, h: int)
    requires
        1 <= t <= RAY_T_CAP,
        h == o + crate::fx::fx_mul_spec(d, t),
        mn - HIT_SLACK <= h <= mx + HIT_SLACK,
    ensures
        axis_range_spec(o, d, mn, mx) is Some,
        axis_range_spec(o, d, mn, mx).unwrap().0 <= t <= axis_range_spec(o, d, mn, mx).unwrap().1,
{
    if d == 0 {
        assert(crate::fx::fx_mul_spec(0, t) == 0);
        assert(RAY_T_CAP < slab_big());
    } else {
        let q = crate::fx::fx_mul_spec(d, t);
        crate::fx::lemma_tz_div(d * t, 65536);
        assert(d * t - q * 65536 < 65536 && q * 65536 - d * t < 65536);
        let a0 = (mn - o) * 65536;
        let a1 = (mx - o) * 65536;
        let b = 65537int * 65536int;
        assert(d * t < a1 + b && d * t > a0 - b);
        let t0 = tz_div(a0, d);
        let t1 = tz_div(a1, d);
        crate::fx::lemma_tz_div(a0, d);
        crate::fx::lemma_tz_div(a1, d);
        let wr = tz_div(b, abs_spec(d));
        crate::fx::lemma_tz_div(b, abs_spec(d));
        assert(wr >= 0);
        assert(a0 - t0 * d < abs_spec(d) && t0 * d - a0 < abs_spec(d));
        assert(a1 - t1 * d < abs_spec(d) && t1 * d - a1 < abs_spec(d));
        assert(b - wr * abs_spec(d) < abs_spec(d));
        if d > 0 {
            assert(t <= t1 + wr + 1) by (nonlinear_arith)
                requires
                    d >= 1,
                    abs_spec(d) == d,
                    d * t < a1 + b,
                    a1 < t1 * d + d,
                    b - wr * abs_spec(d) < abs_spec(d),
            ;
            assert(t >= t0 - wr - 1) by (nonlinear_arith)
                requires
                    d >= 1,
                    abs_spec(d) == d,
                    d * t > a0 - b,
                    a0 > t0 * d - d,
                    b - wr * abs_spec(d) < abs_spec(d),
            ;
        } else {
            let e = -d;
            assert(t <= t0 + wr + 1) by (nonlinear_arith)
                requires
                    e == -d,
                    e >= 1,
                    abs_spec(d) == e,
                    d * t > a0 - b,
                    a0 > t0 * d - e,
                    b - wr * abs_spec(d) < abs_spec(d),
            ;
            assert(t >= t1 - wr - 1) by (nonlinear_arith)
                requires
                    e == -d,
                    e >= 1,
                    abs_spec(d) == e,
                    d * t < a1 + b,
                    a1 < t1 * d + e,
                    b - wr * abs_spec(d) < abs_spec(d),
            ;
        }
    }
}

/// An accepted hit on a triangle contained in a box passes the box's
/// widened slab test: the pruning of the traversal never discards a
/// subtree holding an accepted intersection.
proof fn lemma_hit_in_box_passes(orig: Vec3, dir: Vec3, tri: TriData, mn: Vec3, mx: Vec3)
    requires
        tri_in_box(tri, mn, mx),
        intersect_tri_spec(orig, dir, tri.v0, tri.v1, tri.v2) is Some,
    ensures
        intersect_aabb_spec(orig, dir, mn, mx),
{
    let r = intersect_tri_spec(orig, dir, tri.v0, tri.v1, tri.v2);
    let t = r.unwrap().0 as int;
    assert(RAY_T_MIN_STEP <= t <= RAY_T_CAP);
    let hx = orig.x + crate::fx::fx_mul_spec(dir.x as int, t);
    let hy = orig.y + crate::fx::fx_mul_spec(dir.y as int, t);
    let hz = orig.z + crate::fx::fx_mul_spec(dir.z as int, t);
    assert(hit_on_axis(hx, tri.v0.x as int, tri.v1.x as int, tri.v2.x as int));
    assert(hit_on_axis(hy, tri.v0.y as int, tri.v1.y as int, tri.v2.y as int));
    assert(hit_on_axis(hz, tri.v0.z as int, tri.v1.z as int, tri.v2.z as int));
    lemma_axis_complete(orig.x as int, dir.x as int, mn.x as int, mx.x as int, t, hx);
    lemma_axis_complete(orig.y as int, dir.y as int, mn.y as int, mx.y as int, t, hy);
    lemma_axis_complete(orig.z as int, dir.z as int, mn.z as int, mx.z as int, t, hz);
}

/// One axis of the slab test.
fn axis_range(o: i64, d: i64, mn: i64, mx: i64) -> (r: Option<(i128, i128)>)
    requires
        abs_spec(o as int) <= SCENE_MAX as int,
    ensures
        match r {
            Some(p) => axis_range_spec(o as int, d as int, mn as int, mx as int) == Some(
                (p.0 as int, p.1 as int),
            ),
            None => axis_range_spec(o as int, d as int, mn as int, mx as int) is None,
        },
{
    if d == 0 {
        if mn as i128 - HIT_SLACK as i128 <= o as i128 && o as i128 <= mx as i128
            + HIT_SLACK as i128 {
            Some((-0x1000_0000_0000_0000_0000_0000_0000i128, 0x1000_0000_0000_0000_0000_0000_0000i128))
        } else {
            None
        }
    } else {
        let num0 = ((mn as i128) - (o as i128)) * 65536;
        let num1 = ((mx as i128) - (o as i128)) * 65536;
        proof {
            crate::fx::lemma_tz_div(num0 as int, d as int);
            crate::fx::lemma_tz_div(num1 as int, d as int);
            crate::fx::lemma_tz_div(65537int * 65536int, abs_spec(d as int));
        }
        let t0 = div_tz_i128(num0, d as i128);
        let t1 = div_tz_i128(num1, d as i128);
        let da: i128 = if d >= 0 {
            d as i128
        } else {
            -(d as i128)
        };
        let w = div_tz_i128(65537 * 65536, da) + 4;
        if t0 <= t1 {
            Some((t0 - w, t1 + w))
        } else {
            Some((t1 - w, t0 + w))
        }
    }
}

/// Whether the ray from `origin` along `dir` meets the axis-aligned box
/// `[min, max]` at some nonnegative parameter: the slab test over exact
/// Q16.16 arithmetic, a ray parallel to an axis passing only when it
/// starts inside that slab.
pub fn intersect_aabb(origin: Vec3, dir: Vec3, min: Vec3, max: Vec3) -> (r: bool)
    requires
        vec3_bounded(origin, SCENE_MAX as int),
        vec3_bounded(dir, SCENE_MAX as int),
    ensures
        r == intersect_aabb_spec(origin, dir, min, max),
{
    let rx = axis_range(origin.x, dir.x, min.x, max.x);
    let ry = axis_range(origin.y, dir.y, min.y, max.y);
    let rz = axis_range(origin.z, dir.z, min.z, max.z);
    match (rx, ry, rz) {
        (Some(px), Some(py), Some(pz)) => {
            let tmin = if px.0 >= py.0 && px.0 >= pz.0 {
                px.0
            } else if py.0 >= pz.0 {
                py.0
            } else {
                pz.0
            };
            let tmax = if px.1 <= py.1 && px.1 <= pz.1 {
                px.1
            } else if py.1 <= pz.1 {
                py.1
            } else {
                pz.1
            };
            let lo = if tmin >= 0 {
                tmin
            } else {
                0
            };
            tmax >= lo
        },
        _ => false,
    }
}

// ---------------------------------------------------------------------
// The bounding-volume hierarchy.
// ---------------------------------------------------------------------

/// How many triangles a leaf may hold.
pub const BVH_LEAF_MAX: usize = 4;

/// A vertex lies inside the axis-aligned box.
pub open spec fn vert_in_box(v: Vec3, mn: Vec3, mx: Vec3) -> bool {
    &&& mn.x <= v.x <= mx.x
    &&& mn.y <= v.y <= mx.y
    &&& mn.z <= v.z <= mx.z
}

/// All three vertices of the triangle lie inside the box.
pub open spec fn tri_in_box(t: TriData, mn: Vec3, mx: Vec3) -> bool {
    vert_in_box(t.v0, mn, mx) && vert_in_box(t.v1, mn, mx) && vert_in_box(t.v2, mn, mx)
}

/// Every triangle of `tris[lo..hi]` lies inside the box.
pub open spec fn range_in_box(tris: Seq<TriData>, lo: int, hi: int, mn: Vec3, mx: Vec3) -> bool {
    forall|t: int| lo <= t < hi ==> tri_in_box(#[trigger] tris[t], mn, mx)
}

/// Well-formedness of the subtree rooted at `idx` over the triangle range
/// `[lo, hi)`: every node's box contains its whole range; a leaf holds the
/// range itself (at most `BVH_LEAF_MAX` triangles); an interior node's two
/// children, at strictly larger indices, split the range at its median, so
/// the leaf ranges of the tree partition `[lo, hi)` exactly.
pub open spec fn bvh_wf(nodes: Seq<BVHNode>, tris: Seq<TriData>, idx: int, lo: int, hi: int) -> bool
    decreases nodes.len() - idx,
{
    &&& 0 <= idx < nodes.len()
    &&& 0 <= lo < hi <= tris.len()
    &&& range_in_box(tris, lo, hi, nodes[idx].bbox_min, nodes[idx].bbox_max)
    &&& if nodes[idx].tri_count > 0 {
        nodes[idx].first_tri == lo && nodes[idx].first_tri + nodes[idx].tri_count == hi
            && nodes[idx].tri_count <= BVH_LEAF_MAX
    } else {
        let mid = lo + (hi - lo) / 2;
        &&& hi - lo > BVH_LEAF_MAX
        &&& idx < nodes[idx].left_child < nodes.len()
        &&& idx < nodes[idx].right_child < nodes.len()
        &&& bvh_wf(nodes, tris, nodes[idx].left_child as int, lo, mid)
        &&& bvh_wf(nodes, tris, nodes[idx].right_child as int, mid, hi)
    }
}

/// Subtree well-formedness depends only on the nodes from `idx` on and the
/// triangles in `[lo, hi)`: growing the node list or changing other
/// triangles preserves it.
pub proof fn lemma_bvh_wf_frame(
    nodes1: Seq<BVHNode>,
    nodes2: Seq<BVHNode>,
    tris1: Seq<TriData>,
    tris2: Seq<TriData>,
    idx: int,
    lo: int,
    hi: int,
)
    requires
        bvh_wf(nodes1, tris1, idx, lo, hi),
        nodes2.len() >= nodes1.len(),
        forall|j: int| idx <= j < nodes1.len() ==> nodes2[j] == nodes1[j],
        tris2.len() >= tris1.len(),
        forall|t: int| lo <= t < hi ==> tris2[t] == tris1[t],
    ensures
        bvh_wf(nodes2, tris2, idx, lo, hi),
    decreases nodes1.len() - idx,
{
    assert(nodes2[idx] == nodes1[idx]);
    assert(range_in_box(tris2, lo, hi, nodes1[idx].bbox_min, nodes1[idx].bbox_max));
    if nodes1[idx].tri_count > 0 {
    } else {
        let mid = lo + (hi - lo) / 2;
        lemma_bvh_wf_frame(
            nodes1,
            nodes2,
            tris1,
            tris2,
            nodes1[idx].left_child as int,
            lo,
            mid,
        );
        lemma_bvh_wf_frame(
            nodes1,
            nodes2,
            tris1,
            tris2,
            nodes1[idx].right_child as int,
            mid,
            hi,
        );
        assert(bvh_wf(nodes2, tris2, nodes2[idx].left_child as int, lo, mid));
        assert(bvh_wf(nodes2, tris2, nodes2[idx].right_child as int, mid, hi));
    }
}

/// A box containing a triangle range keeps containing it after the range
/// is permuted.
pub proof fn lemma_box_permutation(
    tris1: Seq<TriData>,
    tris2: Seq<TriData>,
    lo: int,
    hi: int,
    mn: Vec3,
    mx: Vec3,
)
    requires
        0 <= lo <= hi <= tris1.len(),
        tris2.len() == tris1.len(),
        tris1.subrange(lo, hi).to_multiset() == tris2.subrange(lo, hi).to_multiset(),
        range_in_box(tris1, lo, hi, mn, mx),
    ensures
        range_in_box(tris2, lo, hi, mn, mx),
{
    broadcast use vstd::seq_lib::to_multiset_contains;

    let s1 = tris1.subrange(lo, hi);
    let s2 = tris2.subrange(lo, hi);
    assert forall|t: int| lo <= t < hi implies tri_in_box(#[trigger] tris2[t], mn, mx) by {
        assert(s2[t - lo] == tris2[t]);
        assert(s2.contains(tris2[t]));
        assert(s2.to_multiset().count(tris2[t]) > 0);
        assert(s1.to_multiset().count(tris2[t]) > 0);
        assert(s1.contains(tris2[t]));
        let j = choose|j: int| 0 <= j < s1.len() && s1[j] == tris2[t];
        assert(tris1[lo + j] == tris2[t]);
        assert(tri_in_box(tris1[lo + j], mn, mx));
    }
}

/// Swapping two elements inside `[lo, hi)` keeps the range's multiset and
/// leaves everything outside untouched.
pub proof fn lemma_swap_in_range(s: Seq<TriData>, lo: int, hi: int, i: int, j: int)
    requires
        0 <= lo <= i < hi <= s.len(),
        lo <= j < hi,
    ensures
        ({
            let s2 = s.update(i, s[j]).update(j, s[i]);
            &&& s2.subrange(lo, hi).to_multiset() == s.subrange(lo, hi).to_multiset()
            &&& forall|t: int| 0 <= t < s.len() && t != i && t != j ==> s2[t] == s[t]
            &&& s2.len() == s.len()
        }),
{
    let s2 = s.update(i, s[j]).update(j, s[i]);
    let a = s.subrange(lo, hi);
    let b = s2.subrange(lo, hi);
    assert(b =~= a.update(i - lo, a[j - lo]).update(j - lo, a[i - lo]));
    broadcast use vstd::seq_lib::to_multiset_update;
    broadcast use vstd::multiset::group_multiset_axioms;

    if i == j {
        assert(b =~= a);
    } else {
        let m0 = a.to_multiset();
        let m1 = a.update(i - lo, a[j - lo]).to_multiset();
        vstd::seq_lib::to_multiset_update(a, i - lo, a[j - lo]);
        vstd::seq_lib::to_multiset_update(a.update(i - lo, a[j - lo]), j - lo, a[i - lo]);
        assert(m1 == m0.insert(a[j - lo]).remove(a[i - lo]));
        assert(a.update(i - lo, a[j - lo])[j - lo] == a[j - lo]);
        assert(a.update(i - lo, a[j - lo]).update(j - lo, a[i - lo]).to_multiset()
            == b.to_multiset());
        assert(a.update(i - lo, a[j - lo]).update(j - lo, a[i - lo]).to_multiset() == a.update(
            i - lo,
            a[j - lo],
        ).to_multiset().insert(a[i - lo]).remove(a.update(i - lo, a[j - lo])[j - lo]));
        assert forall|x: TriData| b.to_multiset().count(x) == m0.count(x) by {
            broadcast use vstd::multiset::group_multiset_axioms;
            broadcast use vstd::seq_lib::to_multiset_contains;

            assert(a.contains(a[j - lo]));
            assert(a.contains(a[i - lo]));
            assert(m0.count(a[j - lo]) > 0);
            assert(m0.count(a[i - lo]) > 0);
            assert(b.to_multiset().count(x) == m1.insert(a[i - lo]).remove(
                a.update(i - lo, a[j - lo])[j - lo],
            ).count(x));
            assert(m1.count(x) == m0.insert(a[j - lo]).remove(a[i - lo]).count(x));
        }
        assert(b.to_multiset() =~= m0);
    }
}

/// The centroid coordinate along the split axis.
pub open spec fn axis_key(t: TriData, axis: u8) -> int {
    if axis == 0 {
        t.center.x as int
    } else if axis == 1 {
        t.center.y as int
    } else {
        t.center.z as int
    }
}

/// Sorts `triangles[lo..hi]` by centroid along `axis` with insertion sort:
/// the range becomes ordered by the key, its multiset is unchanged, and
/// nothing outside the range moves.
fn sort_by_centroid(triangles: &mut Vec<TriData>, lo: usize, hi: usize, axis: u8)
    requires
        lo <= hi <= old(triangles).len(),
    ensures
        final(triangles).len() == old(triangles).len(),
        final(triangles)@.subrange(lo as int, hi as int).to_multiset() == old(
            triangles,
        )@.subrange(lo as int, hi as int).to_multiset(),
        forall|t: int|
            0 <= t < old(triangles).len() && !(lo <= t < hi) ==> final(triangles)@[t] == old(
                triangles,
            )@[t],
        forall|a: int, b: int|
            lo <= a < b < hi ==> axis_key(#[trigger] final(triangles)@[a], axis) <= axis_key(
                #[trigger] final(triangles)@[b],
                axis,
            ),
{
    if lo >= hi {
        return ;
    }
    let mut i: usize = lo + 1;
    while i < hi
        invariant
            lo < hi <= triangles.len(),
            lo + 1 <= i <= hi,
            triangles.len() == old(triangles).len(),
            triangles@.subrange(lo as int, hi as int).to_multiset() == old(triangles)@.subrange(
                lo as int,
                hi as int,
            ).to_multiset(),
            forall|t: int|
                0 <= t < old(triangles).len() && !(lo <= t < hi) ==> triangles@[t] == old(
                    triangles,
                )@[t],
            forall|a: int, b: int|
                lo <= a < b < i ==> axis_key(#[trigger] triangles@[a], axis) <= axis_key(
                    #[trigger] triangles@[b],
                    axis,
                ),
        decreases hi - i,
    {
        let mut j: usize = i;
        let mut moving = true;
        while moving && j > lo
            invariant
                lo < hi <= triangles.len(),
                lo <= j <= i < hi,
                triangles.len() == old(triangles).len(),
                triangles@.subrange(lo as int, hi as int).to_multiset() == old(
                    triangles,
                )@.subrange(lo as int, hi as int).to_multiset(),
                forall|t: int|
                    0 <= t < old(triangles).len() && !(lo <= t < hi) ==> triangles@[t] == old(
                        triangles,
                    )@[t],
                forall|a: int, b: int|
                    lo <= a < b <= i && b != j ==> axis_key(#[trigger] triangles@[a], axis)
                        <= axis_key(#[trigger] triangles@[b], axis),
                !moving ==> (j == lo || axis_key(triangles@[j - 1], axis) <= axis_key(
                    triangles@[j as int],
                    axis,
                )),
            decreases j + if moving { 1int } else { 0int },
        {
            let prev = triangles[j - 1];
            let curr = triangles[j];
            if key_of(&prev, axis) > key_of(&curr, axis) {
                let ghost pre = triangles@;
                triangles.set(j - 1, curr);
                triangles.set(j, prev);
                proof {
                    lemma_swap_in_range(pre, lo as int, hi as int, j - 1, j as int);
                    assert(triangles@ =~= pre.update(j - 1, pre[j as int]).update(
                        j as int,
                        pre[j - 1],
                    ));
                }
                j = j - 1;
            } else {
                moving = false;
            }
        }
        proof {
            assert forall|a: int, b: int|
                lo <= a < b <= i implies axis_key(#[trigger] triangles@[a], axis) <= axis_key(
                #[trigger] triangles@[b],
                axis,
            ) by {
                if b == j as int && j > lo {
                    assert(axis_key(triangles@[j - 1], axis) <= axis_key(
                        triangles@[j as int],
                        axis,
                    ));
                    if a < j - 1 {
                        assert(axis_key(triangles@[a], axis) <= axis_key(
                            triangles@[j - 1],
                            axis,
                        ));
                    }
                }
            }
        }
        i = i + 1;
    }
}

/// The centroid key along the axis, as executable code.
fn key_of(t: &TriData, axis: u8) -> (r: i64)
    ensures
        r == axis_key(*t, axis),
{
    if axis == 0 {
        t.center.x
    } else if axis == 1 {
        t.center.y
    } else {
        t.center.z
    }
}

/// Two sequences whose subranges `[lo, mid)` and `[mid, hi)` hold equal
/// multisets hold equal multisets over `[lo, hi)`.
proof fn lemma_multiset_split(s1: Seq<TriData>, s2: Seq<TriData>, lo: int, mid: int, hi: int)
    requires
        0 <= lo <= mid <= hi <= s1.len(),
        s2.len() == s1.len(),
        s1.subrange(lo, mid).to_multiset() == s2.subrange(lo, mid).to_multiset(),
        s1.subrange(mid, hi).to_multiset() == s2.subrange(mid, hi).to_multiset(),
    ensures
        s1.subrange(lo, hi).to_multiset() == s2.subrange(lo, hi).to_multiset(),
{
    assert(s1.subrange(lo, hi) =~= s1.subrange(lo, mid) + s1.subrange(mid, hi));
    assert(s2.subrange(lo, hi) =~= s2.subrange(lo, mid) + s2.subrange(mid, hi));
    vstd::seq_lib::lemma_multiset_commutative(s1.subrange(lo, mid), s1.subrange(mid, hi));
    vstd::seq_lib::lemma_multiset_commutative(s2.subrange(lo, mid), s2.subrange(mid, hi));
}

/// Triangle well-formedness survives a permutation of a subrange.
proof fn lemma_tris_wf_permutation(t1: Seq<TriData>, t2: Seq<TriData>, lo: int, hi: int)
    requires
        tris_wf(t1),
        t2.len() == t1.len(),
        0 <= lo <= hi <= t1.len(),
        t1.subrange(lo, hi).to_multiset() == t2.subrange(lo, hi).to_multiset(),
        forall|t: int| 0 <= t < t1.len() && !(lo <= t < hi) ==> t2[t] == t1[t],
    ensures
        tris_wf(t2),
{
    broadcast use vstd::seq_lib::to_multiset_contains;

    let s1 = t1.subrange(lo, hi);
    let s2 = t2.subrange(lo, hi);
    assert forall|t: int| 0 <= t < t2.len() implies tri_data_wf(#[trigger] t2[t]) by {
        if lo <= t < hi {
            assert(s2[t - lo] == t2[t]);
            assert(s2.contains(t2[t]));
            assert(s2.to_multiset().count(t2[t]) > 0);
            assert(s1.to_multiset().count(t2[t]) > 0);
            assert(s1.contains(t2[t]));
            let j = choose|j: int| 0 <= j < s1.len() && s1[j] == t2[t];
            assert(t1[lo + j] == t2[t]);
            assert(tri_data_wf(t1[lo + j]));
        } else {
            assert(tri_data_wf(t1[t]));
        }
    }
}

/// Grows the box to include one vertex.
fn box_include(mn: Vec3, mx: Vec3, v: Vec3) -> (r: (Vec3, Vec3))
    ensures
        r.0.x <= mn.x && r.0.x <= v.x && (r.0.x == mn.x || r.0.x == v.x),
        r.0.y <= mn.y && r.0.y <= v.y && (r.0.y == mn.y || r.0.y == v.y),
        r.0.z <= mn.z && r.0.z <= v.z && (r.0.z == mn.z || r.0.z == v.z),
        r.1.x >= mx.x && r.1.x >= v.x && (r.1.x == mx.x || r.1.x == v.x),
        r.1.y >= mx.y && r.1.y >= v.y && (r.1.y == mx.y || r.1.y == v.y),
        r.1.z >= mx.z && r.1.z >= v.z && (r.1.z == mx.z || r.1.z == v.z),
{
    let nmn = Vec3 {
        x: if v.x < mn.x {
            v.x
        } else {
            mn.x
        },
        y: if v.y < mn.y {
            v.y
        } else {
            mn.y
        },
        z: if v.z < mn.z {
            v.z
        } else {
            mn.z
        },
    };
    let nmx = Vec3 {
        x: if v.x > mx.x {
            v.x
        } else {
            mx.x
        },
        y: if v.y > mx.y {
            v.y
        } else {
            mx.y
        },
        z: if v.z > mx.z {
            v.z
        } else {
            mx.z
        },
    };
    (nmn, nmx)
}

/// Builds the subtree over `triangles[lo..hi]`, appending its nodes and
/// returning the root's index. A range of at most `BVH_LEAF_MAX` triangles
/// becomes a leaf; a larger one is reordered by centroid along the axis of
/// greatest extent and split at its median. The triangles of the range are
/// permuted, never changed or moved outside it, and the finished subtree is
/// well-formed over the range: every node's box contains its triangles and
/// the leaf ranges partition `[lo, hi)` exactly.
#[verifier::rlimit(100)]
pub fn build_bvh(triangles: &mut Vec<TriData>, nodes: &mut Vec<BVHNode>, lo: usize, hi: usize) -> (idx: usize)
    requires
        lo < hi <= old(triangles).len(),
        tris_wf(old(triangles)@),
        old(nodes).len() + 2 * (hi - lo) <= usize::MAX,
    ensures
        final(triangles).len() == old(triangles).len(),
        tris_wf(final(triangles)@),
        final(triangles)@.subrange(lo as int, hi as int).to_multiset() == old(
            triangles,
        )@.subrange(lo as int, hi as int).to_multiset(),
        forall|t: int|
            0 <= t < old(triangles).len() && !(lo <= t < hi) ==> final(triangles)@[t] == old(
                triangles,
            )@[t],
        idx == old(nodes).len(),
        idx < final(nodes).len(),
        final(nodes).len() <= old(nodes).len() + 2 * (hi - lo) - 1,
        forall|j: int| 0 <= j < old(nodes).len() ==> final(nodes)@[j] == old(nodes)@[j],
        bvh_wf(final(nodes)@, final(triangles)@, idx as int, lo as int, hi as int),
    decreases hi - lo,
{
    let node_idx = nodes.len();
    nodes.push(BVHNode::default());

    let mut b_min = Vec3 { x: i64::MAX, y: i64::MAX, z: i64::MAX };
    let mut b_max = Vec3 { x: i64::MIN, y: i64::MIN, z: i64::MIN };
    let mut t: usize = lo;
    while t < hi
        invariant
            lo <= t <= hi <= triangles.len(),
            triangles@ == old(triangles)@,
            tris_wf(triangles@),
            forall|k: int| lo <= k < t ==> tri_in_box(#[trigger] triangles@[k], b_min, b_max),
            t > lo ==> vec3_bounded(b_min, SCENE_MAX as int) && vec3_bounded(
                b_max,
                SCENE_MAX as int,
            ),
            t == lo ==> b_min == (Vec3 { x: i64::MAX, y: i64::MAX, z: i64::MAX }) && b_max == (
            Vec3 { x: i64::MIN, y: i64::MIN, z: i64::MIN }),
        decreases hi - t,
    {
        let ghost pre_min = b_min;
        let ghost pre_max = b_max;
        proof {
            assert(tri_data_wf(triangles@[t as int]));
        }
        let tri = &triangles[t];
        let (m1, x1) = box_include(b_min, b_max, tri.v0);
        let (m2, x2) = box_include(m1, x1, tri.v1);
        proof {
            assert(vec3_bounded(tri.v0, SCENE_MAX as int) && vec3_bounded(tri.v1, SCENE_MAX as int)
                && vec3_bounded(tri.v2, SCENE_MAX as int));
        }
        let (m3, x3) = box_include(m2, x2, tri.v2);
        b_min = m3;
        b_max = x3;
        proof {
            assert(vec3_bounded(b_min, SCENE_MAX as int) && vec3_bounded(b_max, SCENE_MAX as int));
            assert forall|k: int|
                lo <= k < t + 1 implies tri_in_box(#[trigger] triangles@[k], b_min, b_max) by {
                if k < t as int {
                    assert(tri_in_box(triangles@[k], pre_min, pre_max));
                }
            }
        }
        t = t + 1;
    }

    let count = hi - lo;
    if count <= BVH_LEAF_MAX {
        nodes.set(
            node_idx,
            BVHNode {
                bbox_min: b_min,
                bbox_max: b_max,
                left_child: 0,
                right_child: 0,
                first_tri: lo,
                tri_count: count,
            },
        );
        return node_idx;
    }

    let ex = b_max.x - b_min.x;
    let ey = b_max.y - b_min.y;
    let ez = b_max.z - b_min.z;
    let axis: u8 = if ex > ey && ex > ez {
        0
    } else if ey > ez {
        1
    } else {
        2
    };
    let ghost before_sort = triangles@;
    sort_by_centroid(triangles, lo, hi, axis);
    proof {
        lemma_tris_wf_permutation(before_sort, triangles@, lo as int, hi as int);
    }

    let mid = lo + count / 2;
    let ghost after_sort = triangles@;
    let ghost nodes_before_left = nodes@;
    let left = build_bvh(triangles, nodes, lo, mid);
    let ghost after_left_tris = triangles@;
    let ghost after_left_nodes = nodes@;
    let right = build_bvh(triangles, nodes, mid, hi);
    let ghost after_right_tris = triangles@;
    let ghost after_right_nodes = nodes@;
    nodes.set(
        node_idx,
        BVHNode {
            bbox_min: b_min,
            bbox_max: b_max,
            left_child: left,
            right_child: right,
            first_tri: 0,
            tri_count: 0,
        },
    );
    proof {
        // The left subtree survives the right build and the final node write.
        lemma_bvh_wf_frame(
            after_left_nodes,
            nodes@,
            after_left_tris,
            triangles@,
            left as int,
            lo as int,
            mid as int,
        );
        lemma_bvh_wf_frame(
            after_right_nodes,
            nodes@,
            after_right_tris,
            triangles@,
            right as int,
            mid as int,
            hi as int,
        );
        // The range's multiset is preserved through sort and both builds.
        assert(after_left_tris.subrange(mid as int, hi as int) =~= after_sort.subrange(
            mid as int,
            hi as int,
        ));
        lemma_multiset_split(
            after_sort,
            after_left_tris,
            lo as int,
            mid as int,
            hi as int,
        );
        assert(triangles@.subrange(lo as int, mid as int) =~= after_left_tris.subrange(
            lo as int,
            mid as int,
        ));
        lemma_multiset_split(
            after_left_tris,
            triangles@,
            lo as int,
            mid as int,
            hi as int,
        );
        // Containment over the final, permuted range.
        lemma_box_permutation(
            old(triangles)@,
            triangles@,
            lo as int,
            hi as int,
            b_min,
            b_max,
        );
        assert(bvh_wf(nodes@, triangles@, node_idx as int, lo as int, hi as int));
    }
    node_idx
}

// ---------------------------------------------------------------------
// Traversal and rendering.
// ---------------------------------------------------------------------

/// The ray's intersection with triangle `j` of the set.
pub open spec fn tri_hit_at(tris: Seq<TriData>, j: int, origin: Vec3, dir: Vec3) -> Option<
    (i64, i64, i64),
> {
    intersect_tri_spec(origin, dir, tris[j].v0, tris[j].v1, tris[j].v2)
}

/// The interpolated unit normal at barycentric `(u, v)` of the triangle.
pub open spec fn hit_normal_spec(tri: TriData, u: int, v: int) -> Vec3 {
    let w = 65536 - u - v;
    (Vec3 {
        x: (crate::fx::fx_mul_spec(tri.n0.x as int, w) + crate::fx::fx_mul_spec(
            tri.n1.x as int,
            u,
        ) + crate::fx::fx_mul_spec(tri.n2.x as int, v)) as i64,
        y: (crate::fx::fx_mul_spec(tri.n0.y as int, w) + crate::fx::fx_mul_spec(
            tri.n1.y as int,
            u,
        ) + crate::fx::fx_mul_spec(tri.n2.y as int, v)) as i64,
        z: (crate::fx::fx_mul_spec(tri.n0.z as int, w) + crate::fx::fx_mul_spec(
            tri.n1.z as int,
            u,
        ) + crate::fx::fx_mul_spec(tri.n2.z as int, v)) as i64,
    }).normalize_spec()
}

/// The point at distance `t` along the ray.
pub open spec fn hit_point_spec(origin: Vec3, dir: Vec3, t: int) -> Vec3 {
    Vec3 {
        x: (origin.x + crate::fx::fx_mul_spec(dir.x as int, t)) as i64,
        y: (origin.y + crate::fx::fx_mul_spec(dir.y as int, t)) as i64,
        z: (origin.z + crate::fx::fx_mul_spec(dir.z as int, t)) as i64,
    }
}

/// `h` is the genuine hit of the ray on triangle `j`: the triangle
/// intersects at `h.t`, and the normal and hit point are the interpolated
/// values at the intersection.
pub open spec fn hit_matches(tris: Seq<TriData>, j: int, origin: Vec3, dir: Vec3, h: HitInfo) -> bool {
    let r = tri_hit_at(tris, j, origin, dir);
    &&& r is Some
    &&& h.t == r.unwrap().0
    &&& h.normal == hit_normal_spec(tris[j], r.unwrap().1 as int, r.unwrap().2 as int)
    &&& h.hit_p == hit_point_spec(origin, dir, r.unwrap().0 as int)
    &&& vec3_bounded(h.normal, 65536)
    &&& vec3_bounded(h.hit_p, 0x100_0000_0000_0000)
}

/// Tests every triangle of one leaf against the ray, keeping the hit that
/// was accepted last; each accepted hit is nearer than everything accepted
/// before it, and on return every accepted intersection of the leaf beyond
/// the threshold is at least as far as the recorded distance.
#[verifier::rlimit(100)]
#[verifier::spinoff_prover]
fn trace_leaf(
    triangles: &Vec<TriData>,
    n_first: usize,
    n_count: usize,
    origin: Vec3,
    dir: Vec3,
    t_min: i64,
    t_max: &mut i64,
) -> (r: Option<HitInfo>)
    requires
        tris_wf(triangles@),
        n_first + n_count <= triangles@.len(),
        vec3_bounded(origin, SCENE_MAX as int),
        vec3_bounded(dir, SCENE_MAX as int),
        t_min >= 0,
    ensures
        *final(t_max) <= *old(t_max),
        match r {
            Some(h) => {
                &&& exists|j: int|
                    n_first <= j < n_first + n_count && #[trigger] hit_matches(
                        triangles@,
                        j,
                        origin,
                        dir,
                        h,
                    )
                &&& t_min < h.t < *old(t_max)
                &&& *final(t_max) == h.t
            },
            None => *final(t_max) == *old(t_max),
        },
        forall|j: int|
            n_first <= j < n_first + n_count && (#[trigger] tri_hit_at(
                triangles@,
                j,
                origin,
                dir,
            )) is Some && tri_hit_at(triangles@, j, origin, dir).unwrap().0 > t_min
                ==> tri_hit_at(triangles@, j, origin, dir).unwrap().0 >= *final(t_max),
{
    let mut best: Option<HitInfo> = None;
    let mut i: usize = 0;
    let n_len = triangles.len();
    let ghost t_entry = *t_max;
    while i < n_count
        invariant
            tris_wf(triangles@),
            vec3_bounded(origin, SCENE_MAX as int),
            vec3_bounded(dir, SCENE_MAX as int),
            t_min >= 0,
            i <= n_count,
            n_len == triangles@.len(),
            n_first + n_count <= triangles@.len(),
            t_entry == *old(t_max),
            *t_max <= t_entry,
            match best {
                Some(h) => {
                    &&& exists|j: int|
                        n_first <= j < n_first + n_count && #[trigger] hit_matches(
                            triangles@,
                            j,
                            origin,
                            dir,
                            h,
                        )
                    &&& t_min < h.t < t_entry
                    &&& *t_max == h.t
                },
                None => *t_max == t_entry,
            },
            forall|j: int|
                n_first <= j < n_first + i && (#[trigger] tri_hit_at(
                    triangles@,
                    j,
                    origin,
                    dir,
                )) is Some && tri_hit_at(triangles@, j, origin, dir).unwrap().0 > t_min
                    ==> tri_hit_at(triangles@, j, origin, dir).unwrap().0 >= *t_max,
        decreases n_count - i,
    {
        proof {
            assert(tri_data_wf(triangles@[n_first + i]));
        }
        let tri = &triangles[n_first + i];
        proof {
            assert(tri_hit_at(triangles@, n_first + i, origin, dir) == intersect_tri_spec(
                origin,
                dir,
                tri.v0,
                tri.v1,
                tri.v2,
            ));
        }
        match intersect_triangle_barycentric(origin, dir, tri.v0, tri.v1, tri.v2) {
            Some((t, u, v)) => {
                if t < *t_max && t > t_min {
                    *t_max = t;
                    let w = 65536 - u - v;
                    proof {
                        crate::fx::lemma_fx_mul_bound(tri.n0.x as int, w as int, SCENE_MAX as int, 65536);
                        crate::fx::lemma_fx_mul_bound(tri.n0.y as int, w as int, SCENE_MAX as int, 65536);
                        crate::fx::lemma_fx_mul_bound(tri.n0.z as int, w as int, SCENE_MAX as int, 65536);
                        crate::fx::lemma_fx_mul_bound(tri.n1.x as int, u as int, SCENE_MAX as int, 65536);
                        crate::fx::lemma_fx_mul_bound(tri.n1.y as int, u as int, SCENE_MAX as int, 65536);
                        crate::fx::lemma_fx_mul_bound(tri.n1.z as int, u as int, SCENE_MAX as int, 65536);
                        crate::fx::lemma_fx_mul_bound(tri.n2.x as int, v as int, SCENE_MAX as int, 65536);
                        crate::fx::lemma_fx_mul_bound(tri.n2.y as int, v as int, SCENE_MAX as int, 65536);
                        crate::fx::lemma_fx_mul_bound(tri.n2.z as int, v as int, SCENE_MAX as int, 65536);
                    }
                    let normal = tri.n0.mul(w).add(tri.n1.mul(u)).add(tri.n2.mul(v)).normalize();
                    proof {
                        crate::fx::lemma_fx_mul_bound(dir.x as int, t as int, SCENE_MAX as int, RAY_T_CAP as int);
                        crate::fx::lemma_fx_mul_bound(dir.y as int, t as int, SCENE_MAX as int, RAY_T_CAP as int);
                        crate::fx::lemma_fx_mul_bound(dir.z as int, t as int, SCENE_MAX as int, RAY_T_CAP as int);
                    }
                    let hit_p = origin.add(dir.mul(t));
                    let h = HitInfo { t, normal, hit_p };
                    proof {
                        assert(hit_matches(triangles@, n_first + i, origin, dir, h));
                    }
                    best = Some(h);
                }
            },
            None => {},
        }
        i = i + 1;
    }
    best
}

/// Traverses the subtree: skips it when the ray misses the node's
/// (conservatively widened) box; tests every triangle of a leaf; recurses
/// into both children of an interior node, preferring the right child's
/// hit. Every returned hit is a genuine intersection of some triangle in
/// the subtree's range, nearer than both the entry threshold and every
/// previously recorded distance; `t_max` records the returned hit's
/// distance and is untouched on a miss. The traversal is also complete:
/// after the call, every accepted intersection in the range beyond the
/// threshold is at least as far as the recorded distance, so a miss means
/// no triangle of the range has an accepted intersection in the window,
/// and a hit is the nearest one.
#[verifier::rlimit(100)]
fn trace_bvh(
    nodes: &Vec<BVHNode>,
    triangles: &Vec<TriData>,
    node_idx: usize,
    origin: Vec3,
    dir: Vec3,
    t_min: i64,
    t_max: &mut i64,
    rlo: Ghost<int>,
    rhi: Ghost<int>,
) -> (r: Option<HitInfo>)
    requires
        bvh_wf(nodes@, triangles@, node_idx as int, rlo@, rhi@),
        tris_wf(triangles@),
        vec3_bounded(origin, SCENE_MAX as int),
        vec3_bounded(dir, SCENE_MAX as int),
        t_min >= 0,
    ensures
        *final(t_max) <= *old(t_max),
        match r {
            Some(h) => {
                &&& exists|j: int|
                    rlo@ <= j < rhi@ && #[trigger] hit_matches(triangles@, j, origin, dir, h)
                &&& t_min < h.t < *old(t_max)
                &&& *final(t_max) == h.t
            },
            None => *final(t_max) == *old(t_max),
        },
        forall|j: int|
            rlo@ <= j < rhi@ && (#[trigger] tri_hit_at(triangles@, j, origin, dir)) is Some
                && tri_hit_at(triangles@, j, origin, dir).unwrap().0 > t_min ==> tri_hit_at(
                triangles@,
                j,
                origin,
                dir,
            ).unwrap().0 >= *final(t_max),
    decreases nodes.len() - node_idx,
{
    let node = &nodes[node_idx];
    if !intersect_aabb(origin, dir, node.bbox_min, node.bbox_max) {
        proof {
            assert forall|j: int|
                rlo@ <= j < rhi@ implies !((#[trigger] tri_hit_at(
                triangles@,
                j,
                origin,
                dir,
            )) is Some) by {
                if tri_hit_at(triangles@, j, origin, dir) is Some {
                    assert(tri_in_box(triangles@[j], node.bbox_min, node.bbox_max));
                    lemma_hit_in_box_passes(
                        origin,
                        dir,
                        triangles@[j],
                        node.bbox_min,
                        node.bbox_max,
                    );
                }
            }
        }
        return None;
    }
    if node.tri_count > 0 {
        let n_first = node.first_tri;
        let n_count = node.tri_count;
        proof {
            assert(n_first == rlo@ && n_first + n_count == rhi@ && rhi@ <= triangles@.len());
        }
        return trace_leaf(triangles, n_first, n_count, origin, dir, t_min, t_max);
    }
    let ghost mid = rlo@ + (rhi@ - rlo@) / 2;
    let ghost t_entry = *t_max;
    let hit_l = trace_bvh(
        nodes,
        triangles,
        node.left_child,
        origin,
        dir,
        t_min,
        t_max,
        rlo,
        Ghost(mid),
    );
    let hit_r = trace_bvh(
        nodes,
        triangles,
        node.right_child,
        origin,
        dir,
        t_min,
        t_max,
        Ghost(mid),
        rhi,
    );
    proof {
        assert forall|j: int|
            rlo@ <= j < rhi@ && (#[trigger] tri_hit_at(triangles@, j, origin, dir)) is Some
                && tri_hit_at(triangles@, j, origin, dir).unwrap().0 > t_min implies tri_hit_at(
            triangles@,
            j,
            origin,
            dir,
        ).unwrap().0 >= *t_max by {
            if j < mid {
            } else {
            }
        }
    }
    match hit_r {
        Some(h) => Some(h),
        None => hit_l,
    }
}

// ---------------------------------------------------------------------
// Triangle preparation and the transform pipeline.
// ---------------------------------------------------------------------

/// A raw triangle: three vertex positions followed by three vertex
/// normals.
pub type RawTri = (Vec3, Vec3, Vec3, Vec3, Vec3, Vec3);

/// Every coordinate of a raw triangle fits the scene bound.
pub open spec fn raw_tri_wf(t: RawTri) -> bool {
    &&& vec3_bounded(t.0, SCENE_MAX as int) && vec3_bounded(t.1, SCENE_MAX as int)
        && vec3_bounded(t.2, SCENE_MAX as int)
    &&& vec3_bounded(t.3, SCENE_MAX as int) && vec3_bounded(t.4, SCENE_MAX as int)
        && vec3_bounded(t.5, SCENE_MAX as int)
}

pub open spec fn raw_tris_wf(ts: Seq<RawTri>) -> bool {
    forall|i: int| 0 <= i < ts.len() ==> raw_tri_wf(#[trigger] ts[i])
}

/// The raw triangle a mesh face yields: its three positions, and its three
/// normals or the upward default where the mesh carries none.
pub open spec fn face_tri_spec(
    f: (crate::math_3d::utils::MeshVertex, crate::math_3d::utils::MeshVertex, crate::math_3d::utils::MeshVertex),
) -> RawTri {
    (
        Vec3 { x: f.0.pos.0, y: f.0.pos.1, z: f.0.pos.2 },
        Vec3 { x: f.1.pos.0, y: f.1.pos.1, z: f.1.pos.2 },
        Vec3 { x: f.2.pos.0, y: f.2.pos.1, z: f.2.pos.2 },
        crate::math_3d::utils::normal_or_default(f.0),
        crate::math_3d::utils::normal_or_default(f.1),
        crate::math_3d::utils::normal_or_default(f.2),
    )
}

/// Turns triangulated mesh faces into raw triangles: positions copied,
/// missing normals replaced by the fixed upward default.
pub fn get_triangles(
    faces: &Vec<
        (crate::math_3d::utils::MeshVertex, crate::math_3d::utils::MeshVertex, crate::math_3d::utils::MeshVertex),
    >,
) -> (r: Vec<RawTri>)
    ensures
        r@.len() == faces@.len(),
        forall|i: int| 0 <= i < faces@.len() ==> #[trigger] r@[i] == face_tri_spec(faces@[i]),
{
    let n = faces.len();
    let mut out: Vec<RawTri> = Vec::new();
    let mut i: usize = 0;
    while i < n
        invariant
            i <= n,
            n == faces.len(),
            out.len() == i,
            forall|k: int| 0 <= k < i ==> #[trigger] out@[k] == face_tri_spec(faces@[k]),
        decreases n - i,
    {
        let f = faces[i];
        let n0 = match f.0.normal {
            Some(v) => v,
            None => Vec3 { x: 0, y: 65536, z: 0 },
        };
        let n1 = match f.1.normal {
            Some(v) => v,
            None => Vec3 { x: 0, y: 65536, z: 0 },
        };
        let n2 = match f.2.normal {
            Some(v) => v,
            None => Vec3 { x: 0, y: 65536, z: 0 },
        };
        out.push(
            (
                Vec3 { x: f.0.pos.0, y: f.0.pos.1, z: f.0.pos.2 },
                Vec3 { x: f.1.pos.0, y: f.1.pos.1, z: f.1.pos.2 },
                Vec3 { x: f.2.pos.0, y: f.2.pos.1, z: f.2.pos.2 },
                n0,
                n1,
                n2,
            ),
        );
        i = i + 1;
    }
    out
}

/// One raw triangle taken through the transform chain: each vertex through
/// the checked point chain, each normal through the direction chain. A
/// triangle whose transform leaves the coordinate range collapses to the
/// degenerate zero triangle, which every later stage skips.
pub open spec fn tri_transform_spec(t: RawTri, ts: Seq<Transform>) -> RawTri {
    let p0 = crate::math_3d::utils::chain_point_spec((t.0.x, t.0.y, t.0.z), ts, 0);
    let p1 = crate::math_3d::utils::chain_point_spec((t.1.x, t.1.y, t.1.z), ts, 0);
    let p2 = crate::math_3d::utils::chain_point_spec((t.2.x, t.2.y, t.2.z), ts, 0);
    let n0 = crate::math_3d::utils::chain_dir_spec(t.3, ts, 0);
    let n1 = crate::math_3d::utils::chain_dir_spec(t.4, ts, 0);
    let n2 = crate::math_3d::utils::chain_dir_spec(t.5, ts, 0);
    if p0 is Some && p1 is Some && p2 is Some {
        (
            Vec3 { x: p0.unwrap().0, y: p0.unwrap().1, z: p0.unwrap().2 },
            Vec3 { x: p1.unwrap().0, y: p1.unwrap().1, z: p1.unwrap().2 },
            Vec3 { x: p2.unwrap().0, y: p2.unwrap().1, z: p2.unwrap().2 },
            n0,
            n1,
            n2,
        )
    } else {
        (
            Vec3 { x: 0, y: 0, z: 0 },
            Vec3 { x: 0, y: 0, z: 0 },
            Vec3 { x: 0, y: 0, z: 0 },
            n0,
            n1,
            n2,
        )
    }
}

/// Applies the transform chain to one raw triangle.
pub fn transform_tri(t: RawTri, transforms: &Vec<Transform>) -> (r: RawTri)
    requires
        raw_tri_wf(t),
        crate::math_3d::utils::transforms_wf(transforms@),
    ensures
        r == tri_transform_spec(t, transforms@),
        raw_tri_wf(r),
{
    let p0 = crate::math_3d::utils::apply_transforms((t.0.x, t.0.y, t.0.z), transforms);
    let p1 = crate::math_3d::utils::apply_transforms((t.1.x, t.1.y, t.1.z), transforms);
    let p2 = crate::math_3d::utils::apply_transforms((t.2.x, t.2.y, t.2.z), transforms);
    let n0 = crate::math_3d::utils::apply_transforms_dir(t.3, transforms);
    let n1 = crate::math_3d::utils::apply_transforms_dir(t.4, transforms);
    let n2 = crate::math_3d::utils::apply_transforms_dir(t.5, transforms);
    match (p0, p1, p2) {
        (Some(a), Some(b), Some(c)) => (
            Vec3 { x: a.0, y: a.1, z: a.2 },
            Vec3 { x: b.0, y: b.1, z: b.2 },
            Vec3 { x: c.0, y: c.1, z: c.2 },
            n0,
            n1,
            n2,
        ),
        _ => (
            Vec3 { x: 0, y: 0, z: 0 },
            Vec3 { x: 0, y: 0, z: 0 },
            Vec3 { x: 0, y: 0, z: 0 },
            n0,
            n1,
            n2,
        ),
    }
}

/// Relies on rayon's `IntoParallelIterator` for `Vec`, `map` and `collect`
/// into `Vec`: the collected vector holds, in index order, the image of
/// each input element under the mapped function, here the verified
/// `transform_tri`.
#[verifier::external_body]
fn par_transform_tris(all_triangles: Vec<RawTri>, transforms: &Vec<Transform>) -> (r: Vec<RawTri>)
    requires
        raw_tris_wf(all_triangles@),
        crate::math_3d::utils::transforms_wf(transforms@),
    ensures
        r@.len() == all_triangles@.len(),
        forall|i: int|
            0 <= i < all_triangles@.len() ==> #[trigger] r@[i] == tri_transform_spec(
                all_triangles@[i],
                transforms@,
            ),
{
    all_triangles.into_par_iter().map(|t| transform_tri(t, transforms)).collect()
}

/// Applies the whole transform chain to every triangle, in parallel: the
/// result holds each input triangle transformed, in the original order.
pub fn do_transforms(all_triangles: Vec<RawTri>, transforms: &Vec<Transform>) -> (r: Vec<RawTri>)
    requires
        raw_tris_wf(all_triangles@),
        crate::math_3d::utils::transforms_wf(transforms@),
    ensures
        r@.len() == all_triangles@.len(),
        forall|i: int|
            0 <= i < all_triangles@.len() ==> #[trigger] r@[i] == tri_transform_spec(
                all_triangles@[i],
                transforms@,
            ),
        raw_tris_wf(r@),
{
    let ghost in0 = all_triangles@;
    let out = par_transform_tris(all_triangles, transforms);
    proof {
        assert forall|i: int| 0 <= i < out@.len() implies raw_tri_wf(#[trigger] out@[i]) by {
            assert(out@[i] == tri_transform_spec(in0[i], transforms@));
            lemma_tri_transform_wf(in0[i], transforms@);
        }
    }
    out
}

/// A transformed triangle stays within the scene bound: checked points do,
/// and transformed directions are re-normalized.
proof fn lemma_tri_transform_wf(t: RawTri, ts: Seq<Transform>)
    requires
        raw_tri_wf(t),
        crate::math_3d::utils::transforms_wf(ts),
    ensures
        raw_tri_wf(tri_transform_spec(t, ts)),
{
    lemma_chain_point_bounded((t.0.x, t.0.y, t.0.z), ts, 0);
    lemma_chain_point_bounded((t.1.x, t.1.y, t.1.z), ts, 0);
    lemma_chain_point_bounded((t.2.x, t.2.y, t.2.z), ts, 0);
    lemma_chain_dir_bounded(t.3, ts, 0);
    lemma_chain_dir_bounded(t.4, ts, 0);
    lemma_chain_dir_bounded(t.5, ts, 0);
}

/// A surviving chained point stays within the scene bound.
proof fn lemma_chain_point_bounded(p: (i64, i64, i64), ts: Seq<Transform>, k: int)
    ensures
        crate::math_3d::utils::chain_point_spec(p, ts, k) is Some && 0 <= k < ts.len()
            ==> crate::math_3d::utils::p3_bounded(
            crate::math_3d::utils::chain_point_spec(p, ts, k).unwrap(),
            SCENE_MAX as int,
        ),
        !(0 <= k < ts.len()) ==> crate::math_3d::utils::chain_point_spec(p, ts, k) == Some(p),
    decreases ts.len() - k,
{
    if k < 0 || k >= ts.len() {
    } else {
        let q = Transform::transform_point_spec((p.0 as int, p.1 as int, p.2 as int), ts[k]);
        if abs_spec(q.0) <= SCENE_MAX as int && abs_spec(q.1) <= SCENE_MAX as int && abs_spec(q.2)
            <= SCENE_MAX as int {
            lemma_chain_point_bounded((q.0 as i64, q.1 as i64, q.2 as i64), ts, k + 1);
        }
    }
}

/// Scaling and rotating a scene-bounded point keeps every component far
/// inside the normalization range.
pub proof fn lemma_scale_rotate_bounded(p: (int, int, int), t: Transform)
    requires
        abs_spec(p.0) <= SCENE_MAX as int,
        abs_spec(p.1) <= SCENE_MAX as int,
        abs_spec(p.2) <= SCENE_MAX as int,
        t.wf(),
    ensures
        abs_spec(Transform::scale_rotate_spec(p, t).0) <= 0x2000_0000_0000,
        abs_spec(Transform::scale_rotate_spec(p, t).1) <= 0x2000_0000_0000,
        abs_spec(Transform::scale_rotate_spec(p, t).2) <= 0x2000_0000_0000,
{
    let sx = crate::fx::fx_mul_spec(p.0, t.scale as int);
    let sy = crate::fx::fx_mul_spec(p.1, t.scale as int);
    let sz = crate::fx::fx_mul_spec(p.2, t.scale as int);
    crate::fx::lemma_fx_mul_bound(p.0, t.scale as int, SCENE_MAX as int, 0x100_0000);
    crate::fx::lemma_fx_mul_bound(p.1, t.scale as int, SCENE_MAX as int, 0x100_0000);
    crate::fx::lemma_fx_mul_bound(p.2, t.scale as int, SCENE_MAX as int, 0x100_0000);
    lemma_rot_pair_bounded(t.rotation.1, sx, sz, 0x80_0000_0000);
    let (xy, zy) = t.rotation.1.apply_spec(sx, sz);
    lemma_rot_pair_bounded(t.rotation.0, sy, zy, 0x200_0000_0000);
    let (yx, zx) = t.rotation.0.apply_spec(sy, zy);
    lemma_rot_pair_bounded(t.rotation.2, xy, yx, 0x800_0000_0000);
}

/// One planar rotation at most quadruples a bound on its inputs.
proof fn lemma_rot_pair_bounded(rot: crate::math_3d::transform::AxisRotation, a: int, b: int, m: int)
    requires
        rot.wf(),
        abs_spec(a) <= m,
        abs_spec(b) <= m,
        0 <= m,
    ensures
        abs_spec(rot.apply_spec(a, b).0) <= 4 * m,
        abs_spec(rot.apply_spec(a, b).1) <= 4 * m,
{
    crate::fx::lemma_fx_mul_bound(a, rot.cos as int, m, 131072);
    crate::fx::lemma_fx_mul_bound(b, rot.sin as int, m, 131072);
    crate::fx::lemma_fx_mul_bound(b, rot.cos as int, m, 131072);
    crate::fx::lemma_fx_mul_bound(a, rot.sin as int, m, 131072);
    assert(m * 131072 / 65536 == 2 * m) by (nonlinear_arith)
        requires
            0 <= m,
    ;
}

/// A chained direction stays within the scene bound when it starts there.
proof fn lemma_chain_dir_bounded(v: Vec3, ts: Seq<Transform>, k: int)
    requires
        vec3_bounded(v, SCENE_MAX as int),
        crate::math_3d::utils::transforms_wf(ts),
    ensures
        vec3_bounded(crate::math_3d::utils::chain_dir_spec(v, ts, k), SCENE_MAX as int),
    decreases ts.len() - k,
{
    if k < 0 || k >= ts.len() {
    } else {
        lemma_scale_rotate_bounded((v.x as int, v.y as int, v.z as int), ts[k]);
        let rt = Transform::scale_rotate_spec((v.x as int, v.y as int, v.z as int), ts[k]);
        crate::math_3d::vec3::lemma_normalize_components(
            Vec3 { x: rt.0 as i64, y: rt.1 as i64, z: rt.2 as i64 },
        );
        let w = Transform::transform_vec3_spec(v, ts[k]);
        lemma_chain_dir_bounded(w, ts, k + 1);
    }
}

/// The fixed zoom factor of the pinhole camera (3.5 in Q16.16).
pub const RAY_ZOOM: i64 = 229376;

/// The least accepted primary-ray hit distance (one thousandth in Q16.16),
/// guarding against self-intersection.
pub const RAY_NEAR: i64 = 66;

/// The fixed background color of the ray tracer.
pub const RAY_BG: Color = (16u8, 16u8, 16u8);

/// The material the ray tracer shades every hit with.
pub open spec fn tracer_material() -> Material {
    Material { ka: (0, 0, 0), kd: (6554, 22938, 6554), ks: (29491, 36045, 29491), ns: 32 }
}

/// A raw triangle prepared for tracing: its centroid is the truncated
/// average of its vertices.
pub open spec fn tri_data_of(t: RawTri) -> TriData {
    TriData {
        v0: t.0,
        v1: t.1,
        v2: t.2,
        n0: t.3,
        n1: t.4,
        n2: t.5,
        center: Vec3 {
            x: tz_div(t.0.x + t.1.x + t.2.x, 3) as i64,
            y: tz_div(t.0.y + t.1.y + t.2.y, 3) as i64,
            z: tz_div(t.0.z + t.1.z + t.2.z, 3) as i64,
        },
    }
}

/// All input triangles prepared for tracing, in order.
pub open spec fn prepared_tris(ts: Seq<RawTri>) -> Seq<TriData> {
    Seq::new(ts.len(), |i: int| tri_data_of(ts[i]))
}

/// The camera basis of the ray tracer: forward toward the target, right
/// from forward and world-up, up re-orthogonalized and normalized.
pub open spec fn render_basis(eye: (i64, i64, i64), target: (i64, i64, i64)) -> (Vec3, Vec3, Vec3) {
    let ev = Vec3 { x: eye.0, y: eye.1, z: eye.2 };
    let tv = Vec3 { x: target.0, y: target.1, z: target.2 };
    let f = crate::math_3d::utils::sub_v(tv, ev).normalize_spec();
    let r = f.cross_spec(Vec3 { x: 0, y: 65536, z: 0 }).normalize_spec();
    let u = r.cross_spec(f).normalize_spec();
    (f, r, u)
}

/// The primary ray direction through the center of pixel `(x, y)`: the
/// normalized device coordinate scaled by the aspect ratio (horizontally)
/// and the fixed zoom, applied to the camera basis and normalized.
pub open spec fn ray_dir_spec(
    forward: Vec3,
    right: Vec3,
    up: Vec3,
    aspect: i64,
    width: int,
    height: int,
    x: int,
    y: int,
) -> Vec3 {
    let ndc_x = crate::fx::fx_div_spec(2 * (x * 65536 + 32768), width * 65536) - 65536;
    let px = crate::fx::fx_mul_spec(ndc_x, aspect as int);
    let pxz = crate::fx::fx_div_spec(px, RAY_ZOOM as int);
    let ndc_y = 65536 - crate::fx::fx_div_spec(2 * (y * 65536 + 32768), height * 65536);
    let pyz = crate::fx::fx_div_spec(ndc_y, RAY_ZOOM as int);
    (Vec3 {
        x: (forward.x + crate::fx::fx_mul_spec(right.x as int, pxz) + crate::fx::fx_mul_spec(
            up.x as int,
            pyz,
        )) as i64,
        y: (forward.y + crate::fx::fx_mul_spec(right.y as int, pxz) + crate::fx::fx_mul_spec(
            up.y as int,
            pyz,
        )) as i64,
        z: (forward.z + crate::fx::fx_mul_spec(right.z as int, pxz) + crate::fx::fx_mul_spec(
            up.z as int,
            pyz,
        )) as i64,
    }).normalize_spec()
}

/// The color of a shaded hit: the reflectance model with the hit's
/// interpolated normal, the normalized light direction, and the normalized
/// direction from the hit point toward the eye, under the tracer's fixed
/// material.
pub open spec fn shade_hit_spec(h: HitInfo, eyev: Vec3, light: Vec3) -> Color {
    let v = (Vec3 {
        x: (eyev.x - h.hit_p.x) as i64,
        y: (eyev.y - h.hit_p.y) as i64,
        z: (eyev.z - h.hit_p.z) as i64,
    }).normalize_spec();
    let l = light.normalize_spec();
    let i = crate::math_3d::utils::intensity_spec(h.normal, l, v, tracer_material());
    (
        crate::math_3d::utils::intensity_byte_spec(i.0) as u8,
        crate::math_3d::utils::intensity_byte_spec(i.1) as u8,
        crate::math_3d::utils::intensity_byte_spec(i.2) as u8,
    )
}

/// Some triangle of the set has an accepted intersection along the ray,
/// beyond the self-intersection threshold.
pub open spec fn ray_hit_exists(tris: Seq<TriData>, eyev: Vec3, dir: Vec3) -> bool {
    exists|j: int|
        0 <= j < tris.len() && (#[trigger] tri_hit_at(tris, j, eyev, dir)) is Some && tri_hit_at(
            tris,
            j,
            eyev,
            dir,
        ).unwrap().0 > RAY_NEAR
}

/// The color is the shading of a genuine **nearest** hit: some triangle's
/// accepted intersection whose distance is minimal over every accepted
/// intersection along the ray.
pub open spec fn nearest_hit_shading(
    tris: Seq<TriData>,
    eyev: Vec3,
    dir: Vec3,
    light: Vec3,
    c: Color,
) -> bool {
    exists|j: int, h: HitInfo|
        0 <= j < tris.len() && #[trigger] hit_matches(tris, j, eyev, dir, h) && h.t > RAY_NEAR && (
        forall|k: int|
            0 <= k < tris.len() && (#[trigger] tri_hit_at(tris, k, eyev, dir)) is Some
                && tri_hit_at(tris, k, eyev, dir).unwrap().0 > RAY_NEAR ==> tri_hit_at(
                tris,
                k,
                eyev,
                dir,
            ).unwrap().0 >= h.t) && c == shade_hit_spec(h, eyev, light)
}

/// What a rendered pixel must hold: the fixed background exactly when no
/// triangle has an accepted intersection along that pixel's primary ray,
/// and otherwise the shading of the nearest such hit.
pub open spec fn render_pixel_ok(
    tris: Seq<TriData>,
    eyev: Vec3,
    dir: Vec3,
    light: Vec3,
    c: Color,
) -> bool {
    if ray_hit_exists(tris, eyev, dir) {
        nearest_hit_shading(tris, eyev, dir, light, c)
    } else {
        c == RAY_BG
    }
}

/// An accepted intersection's distance lies between the self-intersection
/// step and the distance cap.
pub proof fn lemma_hit_t_range(tris: Seq<TriData>, j: int, eyev: Vec3, dir: Vec3)
    requires
        tri_hit_at(tris, j, eyev, dir) is Some,
    ensures
        RAY_T_MIN_STEP <= tri_hit_at(tris, j, eyev, dir).unwrap().0 <= RAY_T_CAP,
{
}

/// The immutable scene a render pass traces: the prepared triangles, the
/// hierarchy over them, the camera basis, the light, and the viewport.
pub struct RayScene {
    pub tris: Vec<TriData>,
    pub nodes: Vec<BVHNode>,
    pub eye_vec: Vec3,
    pub forward: Vec3,
    pub right: Vec3,
    pub up: Vec3,
    pub aspect: i64,
    pub light_dir: Vec3,
    pub width: u32,
    pub height: u32,
}

impl RayScene {
    pub open spec fn wf(self) -> bool {
        &&& bvh_wf(self.nodes@, self.tris@, 0, 0, self.tris@.len() as int)
        &&& tris_wf(self.tris@)
        &&& vec3_bounded(self.eye_vec, SCENE_MAX as int)
        &&& vec3_bounded(self.forward, 65536) && vec3_bounded(self.right, 65536) && vec3_bounded(
            self.up,
            65536,
        )
        &&& 0 <= self.aspect <= SCENE_MAX
        &&& vec3_bounded(self.light_dir, crate::math_3d::vec3::VEC_LEN_MAX as int)
        &&& 1 <= self.width <= crate::math_3d::utils::VIEW_MAX as u32
        &&& 1 <= self.height <= crate::math_3d::utils::VIEW_MAX as u32
    }
}

/// Traces one row of the image: every pixel is the background exactly when
/// no triangle has an accepted intersection along its primary ray, and
/// otherwise the shading of the nearest such hit.
#[verifier::rlimit(100)]
pub fn trace_row(scene: &RayScene, y: usize) -> (row: Vec<Color>)
    requires
        scene.wf(),
        y < scene.height,
    ensures
        row@.len() == scene.width as int,
        forall|x: int|
            0 <= x < scene.width as int ==> render_pixel_ok(
                scene.tris@,
                scene.eye_vec,
                ray_dir_spec(
                    scene.forward,
                    scene.right,
                    scene.up,
                    scene.aspect,
                    scene.width as int,
                    scene.height as int,
                    x,
                    y as int,
                ),
                scene.light_dir,
                #[trigger] row@[x],
            ),
{
    let w = scene.width as usize;
    let h = scene.height as usize;
    let wq: i64 = (scene.width as i64) * 65536;
    let hq: i64 = (scene.height as i64) * 65536;
    let mut row: Vec<Color> = Vec::new();
    let mut x: usize = 0;
    while x < w
        invariant
            scene.wf(),
            y < scene.height,
            w == scene.width as int,
            h == scene.height as int,
            wq == scene.width as int * 65536,
            hq == scene.height as int * 65536,
            x <= w,
            row@.len() == x as int,
            forall|k: int|
                0 <= k < x as int ==> render_pixel_ok(
                    scene.tris@,
                    scene.eye_vec,
                    ray_dir_spec(
                        scene.forward,
                        scene.right,
                        scene.up,
                        scene.aspect,
                        scene.width as int,
                        scene.height as int,
                        k,
                        y as int,
                    ),
                    scene.light_dir,
                    #[trigger] row@[k],
                ),
        decreases w - x,
    {
        let cx2: i64 = 2 * ((x as i64) * 65536 + 32768);
        let cy2: i64 = 2 * ((y as i64) * 65536 + 32768);
        proof {
            lemma_ndc_bounds(cx2 as int, wq as int, scene.width as int);
            lemma_ndc_bounds(cy2 as int, hq as int, scene.height as int);
        }
        let ndc_x = crate::fx::fx_div(cx2, wq) - 65536;
        let ndc_y = 65536 - crate::fx::fx_div(cy2, hq);
        proof {
            crate::fx::lemma_fx_mul_bound(ndc_x as int, scene.aspect as int, 196608, SCENE_MAX as int);
            crate::fx::lemma_tz_div_bound(
                crate::fx::fx_mul_spec(ndc_x as int, scene.aspect as int) * 65536,
                RAY_ZOOM as int,
                0x3_0000_0000_0000int * 65536,
                RAY_ZOOM as int,
            );
            crate::fx::lemma_tz_div_bound(
                ndc_y as int * 65536,
                RAY_ZOOM as int,
                196608int * 65536,
                RAY_ZOOM as int,
            );
        }
        let px = crate::fx::fx_mul(ndc_x, scene.aspect);
        let pxz = crate::fx::fx_div(px, RAY_ZOOM);
        let pyz = crate::fx::fx_div(ndc_y, RAY_ZOOM);
        proof {
            crate::fx::lemma_fx_mul_bound(scene.right.x as int, pxz as int, 65536, 0x10_0000_0000);
            crate::fx::lemma_fx_mul_bound(scene.right.y as int, pxz as int, 65536, 0x10_0000_0000);
            crate::fx::lemma_fx_mul_bound(scene.right.z as int, pxz as int, 65536, 0x10_0000_0000);
            crate::fx::lemma_fx_mul_bound(scene.up.x as int, pyz as int, 65536, 0x10_0000_0000);
            crate::fx::lemma_fx_mul_bound(scene.up.y as int, pyz as int, 65536, 0x10_0000_0000);
            crate::fx::lemma_fx_mul_bound(scene.up.z as int, pyz as int, 65536, 0x10_0000_0000);
        }
        let ray_dir = scene.forward.add(scene.right.mul(pxz)).add(scene.up.mul(pyz)).normalize();
        let mut t_max: i64 = i64::MAX;
        let hit_opt = trace_bvh(
            &scene.nodes,
            &scene.tris,
            0,
            scene.eye_vec,
            ray_dir,
            RAY_NEAR,
            &mut t_max,
            Ghost(0),
            Ghost(scene.tris@.len() as int),
        );
        match hit_opt {
            Some(hit) => {
                proof {
                    let j = choose|j: int|
                        0 <= j < scene.tris@.len() && #[trigger] hit_matches(
                            scene.tris@,
                            j,
                            scene.eye_vec,
                            ray_dir,
                            hit,
                        );
                    assert(hit_matches(scene.tris@, j, scene.eye_vec, ray_dir, hit));
                    let rr = tri_hit_at(scene.tris@, j, scene.eye_vec, ray_dir);
                    assert(rr is Some && hit.t == rr.unwrap().0);
                    assert(RAY_T_MIN_STEP <= hit.t <= RAY_T_CAP);
                    crate::fx::lemma_fx_mul_bound(ray_dir.x as int, hit.t as int, 65536, RAY_T_CAP as int);
                    crate::fx::lemma_fx_mul_bound(ray_dir.y as int, hit.t as int, 65536, RAY_T_CAP as int);
                    crate::fx::lemma_fx_mul_bound(ray_dir.z as int, hit.t as int, 65536, RAY_T_CAP as int);
                    assert(vec3_bounded(hit.hit_p, 0x80_0000_0000));
                }
                let v = scene.eye_vec.sub(hit.hit_p).normalize();
                let l = scene.light_dir.normalize();
                let material = Material::green_plastic();
                let intensity = crate::math_3d::utils::calculate_intensity(
                    hit.normal,
                    l,
                    v,
                    &material,
                );
                let c = crate::math_3d::utils::intensity_to_color(intensity);
                proof {
                    assert(material == tracer_material());
                    assert(c == shade_hit_spec(hit, scene.eye_vec, scene.light_dir));
                    let j = choose|j: int|
                        0 <= j < scene.tris@.len() && #[trigger] hit_matches(
                            scene.tris@,
                            j,
                            scene.eye_vec,
                            ray_dir,
                            hit,
                        );
                    assert((tri_hit_at(scene.tris@, j, scene.eye_vec, ray_dir)) is Some
                        && tri_hit_at(scene.tris@, j, scene.eye_vec, ray_dir).unwrap().0
                        > RAY_NEAR);
                    assert(ray_hit_exists(scene.tris@, scene.eye_vec, ray_dir));
                    assert forall|k: int|
                        0 <= k < scene.tris@.len() && (#[trigger] tri_hit_at(
                            scene.tris@,
                            k,
                            scene.eye_vec,
                            ray_dir,
                        )) is Some && tri_hit_at(scene.tris@, k, scene.eye_vec, ray_dir).unwrap().0
                        > RAY_NEAR implies tri_hit_at(
                        scene.tris@,
                        k,
                        scene.eye_vec,
                        ray_dir,
                    ).unwrap().0 >= hit.t by {}
                    assert(nearest_hit_shading(
                        scene.tris@,
                        scene.eye_vec,
                        ray_dir,
                        scene.light_dir,
                        c,
                    ));
                }
                row.push(c);
            },
            None => {
                proof {
                    assert forall|k: int|
                        0 <= k < scene.tris@.len() implies !((#[trigger] tri_hit_at(
                        scene.tris@,
                        k,
                        scene.eye_vec,
                        ray_dir,
                    )) is Some && tri_hit_at(scene.tris@, k, scene.eye_vec, ray_dir).unwrap().0
                        > RAY_NEAR) by {
                        if tri_hit_at(scene.tris@, k, scene.eye_vec, ray_dir) is Some {
                            lemma_hit_t_range(scene.tris@, k, scene.eye_vec, ray_dir);
                        }
                    }
                    assert(!ray_hit_exists(scene.tris@, scene.eye_vec, ray_dir));
                }
                row.push((16, 16, 16));
            },
        }
        x = x + 1;
    }
    row
}

/// The normalized device coordinate of a pixel center stays within twice
/// one: the doubled center offset is at most twice the doubled viewport
/// extent.
proof fn lemma_ndc_bounds(c2: int, wq: int, wpx: int)
    requires
        1 <= wpx <= crate::math_3d::utils::VIEW_MAX as int,
        wq == wpx * 65536,
        0 <= c2 <= 2 * wq,
    ensures
        0 <= crate::fx::fx_div_spec(c2, wq) <= 131072,
{
    crate::fx::lemma_tz_div(c2 * 65536, wq);
    crate::fx::lemma_tz_div_bound(c2 * 65536, wq, 131072 * wq, wq);
    vstd::arithmetic::div_mod::lemma_div_multiples_vanish(131072, wq);
    assert(c2 * 65536 <= 131072 * wq) by (nonlinear_arith)
        requires
            0 <= c2 <= 2 * wq,
    ;
    assert(crate::fx::fx_div_spec(c2, wq) >= 0);
}

/// Relies on rayon's `IntoParallelIterator` for ranges, `map` and `collect`
/// into `Vec`: the collected vector holds, in row order, each row traced by
/// the verified `trace_row`, whose contract gives every pixel's property.
#[verifier::external_body]
fn par_trace_rows(scene: &RayScene) -> (rows: Vec<Vec<Color>>)
    requires
        scene.wf(),
    ensures
        rows@.len() == scene.height as int,
        forall|y: int|
            0 <= y < scene.height as int ==> (#[trigger] rows@[y])@.len() == scene.width as int,
        forall|y: int, x: int|
            0 <= y < scene.height as int && 0 <= x < scene.width as int ==> render_pixel_ok(
                scene.tris@,
                scene.eye_vec,
                ray_dir_spec(
                    scene.forward,
                    scene.right,
                    scene.up,
                    scene.aspect,
                    scene.width as int,
                    scene.height as int,
                    x,
                    y,
                ),
                scene.light_dir,
                #[trigger] rows@[y]@[x],
            ),
{
    (0..scene.height as usize).into_par_iter().map(|y| trace_row(scene, y)).collect()
}

/// Every element of one sequence also sits somewhere in any sequence with
/// the same multiset.
proof fn lemma_matching_index(tris1: Seq<TriData>, tris2: Seq<TriData>, j2: int)
    requires
        tris1.to_multiset() == tris2.to_multiset(),
        tris1.len() == tris2.len(),
        0 <= j2 < tris2.len(),
    ensures
        exists|j1: int| 0 <= j1 < tris1.len() && #[trigger] tris1[j1] == tris2[j2],
{
    broadcast use vstd::seq_lib::to_multiset_contains;

    assert(tris2.contains(tris2[j2]));
    assert(tris2.to_multiset().count(tris2[j2]) > 0);
    assert(tris1.to_multiset().count(tris2[j2]) > 0);
    assert(tris1.contains(tris2[j2]));
    let j1 = choose|j1: int| 0 <= j1 < tris1.len() && tris1[j1] == tris2[j2];
    assert(tris1[j1] == tris2[j2]);
}

/// Whether some triangle is hit depends only on which triangles are in the
/// set, not on their order.
proof fn lemma_ray_hit_transfer(tris1: Seq<TriData>, tris2: Seq<TriData>, eyev: Vec3, dir: Vec3)
    requires
        tris1.to_multiset() == tris2.to_multiset(),
        tris1.len() == tris2.len(),
    ensures
        ray_hit_exists(tris1, eyev, dir) == ray_hit_exists(tris2, eyev, dir),
{
    if ray_hit_exists(tris2, eyev, dir) {
        let j2 = choose|j: int|
            0 <= j < tris2.len() && (#[trigger] tri_hit_at(tris2, j, eyev, dir)) is Some
                && tri_hit_at(tris2, j, eyev, dir).unwrap().0 > RAY_NEAR;
        lemma_matching_index(tris1, tris2, j2);
        let j1 = choose|j1: int| 0 <= j1 < tris1.len() && #[trigger] tris1[j1] == tris2[j2];
        assert(tri_hit_at(tris1, j1, eyev, dir) == tri_hit_at(tris2, j2, eyev, dir));
        assert(ray_hit_exists(tris1, eyev, dir));
    }
    if ray_hit_exists(tris1, eyev, dir) {
        let j1 = choose|j: int|
            0 <= j < tris1.len() && (#[trigger] tri_hit_at(tris1, j, eyev, dir)) is Some
                && tri_hit_at(tris1, j, eyev, dir).unwrap().0 > RAY_NEAR;
        lemma_matching_index(tris2, tris1, j1);
        let j2 = choose|j2: int| 0 <= j2 < tris2.len() && #[trigger] tris2[j2] == tris1[j1];
        assert(tri_hit_at(tris2, j2, eyev, dir) == tri_hit_at(tris1, j1, eyev, dir));
        assert(ray_hit_exists(tris2, eyev, dir));
    }
}

/// A pixel property over one triangle set transfers to any set holding the
/// same triangles: hit existence, nearest distance and shading depend only
/// on the triangles themselves.
proof fn lemma_pixel_ok_permutation(
    tris1: Seq<TriData>,
    tris2: Seq<TriData>,
    eyev: Vec3,
    dir: Vec3,
    light: Vec3,
    c: Color,
)
    requires
        tris1.to_multiset() == tris2.to_multiset(),
        tris1.len() == tris2.len(),
        render_pixel_ok(tris2, eyev, dir, light, c),
    ensures
        render_pixel_ok(tris1, eyev, dir, light, c),
{
    lemma_ray_hit_transfer(tris1, tris2, eyev, dir);
    if ray_hit_exists(tris2, eyev, dir) {
        let (j2, h): (int, HitInfo) = choose|j: int, h: HitInfo|
            0 <= j < tris2.len() && #[trigger] hit_matches(tris2, j, eyev, dir, h) && h.t
                > RAY_NEAR && (forall|k: int|
                0 <= k < tris2.len() && (#[trigger] tri_hit_at(tris2, k, eyev, dir)) is Some
                    && tri_hit_at(tris2, k, eyev, dir).unwrap().0 > RAY_NEAR ==> tri_hit_at(
                    tris2,
                    k,
                    eyev,
                    dir,
                ).unwrap().0 >= h.t) && c == shade_hit_spec(h, eyev, light);
        lemma_matching_index(tris1, tris2, j2);
        let j1 = choose|j1: int| 0 <= j1 < tris1.len() && #[trigger] tris1[j1] == tris2[j2];
        assert(tri_hit_at(tris1, j1, eyev, dir) == tri_hit_at(tris2, j2, eyev, dir));
        assert(hit_matches(tris1, j1, eyev, dir, h));
        assert forall|k: int|
            0 <= k < tris1.len() && (#[trigger] tri_hit_at(tris1, k, eyev, dir)) is Some
                && tri_hit_at(tris1, k, eyev, dir).unwrap().0 > RAY_NEAR implies tri_hit_at(
            tris1,
            k,
            eyev,
            dir,
        ).unwrap().0 >= h.t by {
            lemma_matching_index(tris2, tris1, k);
            let k2 = choose|k2: int| 0 <= k2 < tris2.len() && #[trigger] tris2[k2] == tris1[k];
            assert(tri_hit_at(tris2, k2, eyev, dir) == tri_hit_at(tris1, k, eyev, dir));
        }
        assert(nearest_hit_shading(tris1, eyev, dir, light, c));
    }
}

/// The prefix of the surface that already carries its rendered pixels./// The prefix of the surface that already carries its rendered pixels.
pub open spec fn rendered_prefix(
    pix: Seq<u8>,
    tris: Seq<TriData>,
    eyev: Vec3,
    forward: Vec3,
    right: Vec3,
    up: Vec3,
    aspect: i64,
    light: Vec3,
    w: int,
    h: int,
    n: int,
) -> bool {
    forall|k: int|
        0 <= k < n ==> render_pixel_ok(
            tris,
            eyev,
            ray_dir_spec(forward, right, up, aspect, w, h, k % w, k / w),
            light,
            (#[trigger] pix[3 * k], pix[3 * k + 1], pix[3 * k + 2]),
        )
}

/// Renders the scene by ray tracing: prepares the triangles, builds the
/// hierarchy over them, traces every pixel's primary ray (rows in
/// parallel), and writes the image into the surface. Every pixel ends up
/// the fixed background color exactly when no triangle of the input set
/// has an accepted intersection along that pixel's ray, and otherwise the
/// shading of the nearest such hit. An empty scene yields an all-background
/// image.
#[verifier::rlimit(100)]
pub fn render_raytrace(
    triangles: &Vec<RawTri>,
    eye: Point3d,
    target: Point3d,
    light_dir: Vec3,
    width: u32,
    height: u32,
    fb: &mut FrameBuffer,
)
    requires
        old(fb).wf(),
        old(fb).width == width as int,
        old(fb).height == height as int,
        1 <= width <= crate::math_3d::utils::VIEW_MAX as u32,
        1 <= height <= crate::math_3d::utils::VIEW_MAX as u32,
        raw_tris_wf(triangles@),
        triangles.len() <= 0x100_0000,
        crate::math_3d::utils::p3_bounded(eye, SCENE_MAX as int),
        crate::math_3d::utils::p3_bounded(target, SCENE_MAX as int),
        vec3_bounded(light_dir, crate::math_3d::vec3::VEC_LEN_MAX as int),
    ensures
        final(fb).wf(),
        final(fb).width == old(fb).width,
        final(fb).height == old(fb).height,
        ({
            let basis = render_basis(eye, target);
            let eyev = Vec3 { x: eye.0, y: eye.1, z: eye.2 };
            let aspect = crate::fx::fx_div_spec(
                width as int * 65536,
                height as int * 65536,
            ) as i64;
            rendered_prefix(
                final(fb).pixels@,
                prepared_tris(triangles@),
                eyev,
                basis.0,
                basis.1,
                basis.2,
                aspect,
                light_dir,
                width as int,
                height as int,
                width as int * height as int,
            )
        }),
{
    let eye_vec = Vec3::new_from_point3d(eye);
    if triangles.len() == 0 {
        fb.clean((16, 16, 16));
        proof {
            let w = width as int;
            let h = height as int;
            assert forall|k: int| 0 <= k < w * h implies #[trigger] render_pixel_ok(
                prepared_tris(triangles@),
                eye_vec,
                ray_dir_spec(
                    render_basis(eye, target).0,
                    render_basis(eye, target).1,
                    render_basis(eye, target).2,
                    crate::fx::fx_div_spec(w * 65536, h * 65536) as i64,
                    w,
                    h,
                    k % w,
                    k / w,
                ),
                light_dir,
                (fb.pixels@[3 * k], fb.pixels@[3 * k + 1], fb.pixels@[3 * k + 2]),
            ) by {
                assert(3 * k + 2 < fb.pixels@.len()) by (nonlinear_arith)
                    requires
                        0 <= k < w * h,
                        fb.pixels@.len() == w * h * 3,
                ;
                assert((3 * k) % 3 == 0 && (3 * k + 1) % 3 == 1 && (3 * k + 2) % 3 == 2);
                assert(fb.pixels@[3 * k] == crate::frame_buffer::clean_byte_spec(
                    (16u8, 16u8, 16u8),
                    3 * k,
                ));
                assert(fb.pixels@[3 * k + 1] == crate::frame_buffer::clean_byte_spec(
                    (16u8, 16u8, 16u8),
                    3 * k + 1,
                ));
                assert(fb.pixels@[3 * k + 2] == crate::frame_buffer::clean_byte_spec(
                    (16u8, 16u8, 16u8),
                    3 * k + 2,
                ));
                assert(fb.pixels@[3 * k] == 16u8 && fb.pixels@[3 * k + 1] == 16u8 && fb.pixels@[3
                    * k + 2] == 16u8);
                assert(prepared_tris(triangles@).len() == 0);
            }
        }
        return ;
    }
    let target_vec = Vec3 { x: target.0, y: target.1, z: target.2 };
    let forward = target_vec.sub(eye_vec).normalize();
    let right = forward.cross(Vec3 { x: 0, y: 65536, z: 0 }).normalize();
    proof {
        crate::math_3d::utils::lemma_cross_unit_bound(forward, Vec3 { x: 0, y: 65536, z: 0 });
        crate::math_3d::utils::lemma_cross_unit_bound(right, forward);
    }
    let up = right.cross(forward).normalize();
    let wq: i64 = (width as i64) * 65536;
    let hq: i64 = (height as i64) * 65536;
    proof {
        crate::fx::lemma_tz_div(wq as int * 65536, hq as int);
        crate::fx::lemma_tz_div_bound(wq as int * 65536, hq as int, 0x4000_0000int * 65536, 65536);
    }
    let aspect = crate::fx::fx_div(wq, hq);
    proof {
        assert(aspect >= 0) by {
            crate::fx::lemma_tz_div(wq as int * 65536, hq as int);
        }
    }

    let n = triangles.len();
    let mut tris: Vec<TriData> = Vec::new();
    let mut i: usize = 0;
    while i < n
        invariant
            i <= n,
            n == triangles.len(),
            raw_tris_wf(triangles@),
            tris@.len() == i as int,
            tris@ == prepared_tris(triangles@).subrange(0, i as int),
            tris_wf(tris@),
        decreases n - i,
    {
        proof {
            assert(raw_tri_wf(triangles@[i as int]));
        }
        let t = triangles[i];
        let sx = t.0.x + t.1.x + t.2.x;
        let sy = t.0.y + t.1.y + t.2.y;
        let sz = t.0.z + t.1.z + t.2.z;
        proof {
            crate::fx::lemma_tz_div(sx as int, 3);
            crate::fx::lemma_tz_div(sy as int, 3);
            crate::fx::lemma_tz_div(sz as int, 3);
        }
        let cx = crate::fx::div_tz_i128(sx as i128, 3) as i64;
        let cy = crate::fx::div_tz_i128(sy as i128, 3) as i64;
        let cz = crate::fx::div_tz_i128(sz as i128, 3) as i64;
        let td = TriData {
            v0: t.0,
            v1: t.1,
            v2: t.2,
            n0: t.3,
            n1: t.4,
            n2: t.5,
            center: Vec3 { x: cx, y: cy, z: cz },
        };
        proof {
            assert(td == tri_data_of(triangles@[i as int]));
        }
        tris.push(td);
        proof {
            assert(tris@ =~= prepared_tris(triangles@).subrange(0, i + 1));
        }
        i = i + 1;
    }
    proof {
        assert(tris@ =~= prepared_tris(triangles@));
    }
    let ghost prepared = tris@;

    let mut nodes: Vec<BVHNode> = Vec::new();
    let tlen = tris.len();
    build_bvh(&mut tris, &mut nodes, 0, tlen);
    proof {
        assert(tris@.subrange(0, tlen as int) =~= tris@);
        assert(prepared.subrange(0, tlen as int) =~= prepared);
    }

    let scene = RayScene {
        tris,
        nodes,
        eye_vec,
        forward,
        right,
        up,
        aspect,
        light_dir,
        width,
        height,
    };
    let rows = par_trace_rows(&scene);

    let w_us = width as usize;
    let h_us = height as usize;
    let total = w_us * h_us;
    let ghost basis = render_basis(eye, target);
    proof {
        assert(basis.0 == forward && basis.1 == right && basis.2 == up);
    }
    let mut k: usize = 0;
    while k < total
        invariant
            k <= total,
            total == w_us * h_us,
            w_us == width as int,
            h_us == height as int,
            1 <= width <= crate::math_3d::utils::VIEW_MAX as u32,
            1 <= height <= crate::math_3d::utils::VIEW_MAX as u32,
            fb.wf(),
            fb.width == width as int,
            fb.height == height as int,
            scene.wf(),
            scene.width == width,
            scene.height == height,
            scene.eye_vec == (Vec3 { x: eye.0, y: eye.1, z: eye.2 }),
            scene.forward == basis.0 && scene.right == basis.1 && scene.up == basis.2,
            scene.aspect == crate::fx::fx_div_spec(
                width as int * 65536,
                height as int * 65536,
            ) as i64,
            scene.light_dir == light_dir,
            scene.tris@.to_multiset() == prepared.to_multiset(),
            scene.tris@.len() == prepared.len(),
            prepared == prepared_tris(triangles@),
            rows@.len() == height as int,
            forall|y: int| 0 <= y < height as int ==> (#[trigger] rows@[y])@.len() == width as int,
            forall|y: int, x: int|
                0 <= y < height as int && 0 <= x < width as int ==> render_pixel_ok(
                    scene.tris@,
                    scene.eye_vec,
                    ray_dir_spec(
                        scene.forward,
                        scene.right,
                        scene.up,
                        scene.aspect,
                        width as int,
                        height as int,
                        x,
                        y,
                    ),
                    scene.light_dir,
                    #[trigger] rows@[y]@[x],
                ),
            rendered_prefix(
                fb.pixels@,
                prepared,
                scene.eye_vec,
                basis.0,
                basis.1,
                basis.2,
                scene.aspect,
                light_dir,
                width as int,
                height as int,
                k as int,
            ),
        decreases total - k,
    {
        proof {
            vstd::arithmetic::div_mod::lemma_fundamental_div_mod(k as int, w_us as int);
            vstd::arithmetic::div_mod::lemma_mod_bound(k as int, w_us as int);
            assert(0 <= k as int / w_us as int && (k as int / w_us as int) < h_us as int)
                by (nonlinear_arith)
                requires
                    0 <= k as int && (k as int) < w_us as int * h_us as int,
                    w_us as int >= 1,
                    k as int == w_us as int * (k as int / w_us as int) + k as int % w_us as int,
                    0 <= k as int % w_us as int && (k as int % w_us as int) < w_us as int,
            ;
        }
        let x = k % w_us;
        let y = k / w_us;
        let c = rows[y][x];
        let ghost pix_pre = fb.pixels@;
        fb.pixel(x as u32, y as u32, c);
        proof {
            let w = width as int;
            let h = height as int;
            let plen = fb.pixels@.len() as int;
            assert(3 * (y as int * w + x as int) + 2 < plen) by (nonlinear_arith)
                requires
                    0 <= x as int && (x as int) < w,
                    0 <= y as int && (y as int) < h,
                    plen == w * h * 3,
            ;
            assert(y as int * w + x as int == k as int) by (nonlinear_arith)
                requires
                    k as int == w * (k as int / w) + k as int % w,
                    x as int == k as int % w,
                    y as int == k as int / w,
                    w >= 1,
            ;
            assert(fb.pixels@[3 * (k as int)] == c.0 && fb.pixels@[3 * (k as int) + 1] == c.1
                && fb.pixels@[3 * (k as int) + 2] == c.2);
            lemma_pixel_ok_permutation(
                prepared,
                scene.tris@,
                scene.eye_vec,
                ray_dir_spec(
                    scene.forward,
                    scene.right,
                    scene.up,
                    scene.aspect,
                    width as int,
                    height as int,
                    x as int,
                    y as int,
                ),
                light_dir,
                c,
            );
            assert forall|kk: int|
                0 <= kk < k as int + 1 implies render_pixel_ok(
                prepared,
                scene.eye_vec,
                ray_dir_spec(
                    basis.0,
                    basis.1,
                    basis.2,
                    scene.aspect,
                    width as int,
                    height as int,
                    kk % (width as int),
                    kk / (width as int),
                ),
                light_dir,
                (#[trigger] fb.pixels@[3 * kk], fb.pixels@[3 * kk + 1], fb.pixels@[3 * kk + 2]),
            ) by {
                if kk < k as int {
                    assert(3 * kk != 3 * (k as int) && 3 * kk != 3 * (k as int) + 1 && 3 * kk != 3
                        * (k as int) + 2);
                    assert(3 * kk + 1 != 3 * (k as int) && 3 * kk + 1 != 3 * (k as int) + 1 && 3
                        * kk + 1 != 3 * (k as int) + 2);
                    assert(3 * kk + 2 != 3 * (k as int) && 3 * kk + 2 != 3 * (k as int) + 1 && 3
                        * kk + 2 != 3 * (k as int) + 2);
                    assert(fb.pixels@[3 * kk] == pix_pre[3 * kk] && fb.pixels@[3 * kk + 1]
                        == pix_pre[3 * kk + 1] && fb.pixels@[3 * kk + 2] == pix_pre[3 * kk + 2]);
                }
            }
        }
        k = k + 1;
    }
}

} // verus!
