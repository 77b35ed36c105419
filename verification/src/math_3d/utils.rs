//! Camera projection, the Blinn-Phong reflectance model, geometric helpers,
//! and the depth-buffered triangle rasterizer with its per-model driving
//! loops. Every quantity is Q16.16 fixed point; contracts state each
//! function's exact result over spec mirrors of the arithmetic.

use vstd::prelude::*;
use vstd::pervasive::VecAdditionalExecFns;
use crate::frame_buffer::FrameBuffer;
use crate::fx::abs_spec;
use crate::fx::clamp_spec;
use crate::fx::div_tz_i128;
use crate::fx::fx_div;
use crate::fx::fx_div_spec;
use crate::fx::fx_mul;
use crate::fx::fx_mul_spec;
use crate::fx::fx_pow_spec;
use crate::fx::fx_pow_unit;
use crate::fx::lemma_abs_mul_bound;
use crate::fx::lemma_fx_mul_bound;
use crate::fx::lemma_tz_div;
use crate::fx::lemma_tz_div_bound;
use crate::fx::tz_div;
use crate::fx::wide_mul;
use crate::math_3d::material::Material;
use crate::math_3d::transform::Transform;
use crate::math_3d::vec3::Color;
use crate::math_3d::vec3::Point3d;
use crate::math_3d::vec3::Vec3;
use crate::math_3d::vec3::Vec3WithColor;
use crate::math_3d::vec3::vec3_bounded;

verus! {

/// Largest magnitude of a world- or screen-space coordinate accepted by the
/// projection, rasterization and shading entry points.
pub const SCENE_MAX: i64 = 0x4000_0000;

/// The near-plane clip: a camera-space depth at or below this (one tenth,
/// in Q16.16) rejects the point, which also guards the perspective divide.
pub const NEAR_CLIP: i64 = 6553;

/// The sanity bound on projected coordinates (ten thousand pixels in
/// Q16.16): beyond it the point is rejected to protect rasterization.
pub const PROJ_LIMIT: i64 = 655360000;

/// The negative tolerance on barycentric weights (about minus one
/// ten-thousandth in Q16.16), closing seams between adjacent triangles.
pub const BARY_EPS: i64 = -6;

/// The least magnitude (in Q32.32) of a triangle's doubled signed area that
/// is still rasterized; smaller is treated as degenerate (about 1e-6).
pub const DEGEN_DEN: i64 = 4295;

/// One RGB intensity channel of the reflectance model:
/// `ambient + diffuse * cos(light) + specular * cos(half)^shininess`.
pub open spec fn shade_channel_spec(ka: int, kd: int, ks: int, dd: int, si: int) -> int {
    ka + fx_mul_spec(kd, dd) + fx_mul_spec(ks, si)
}

/// The reflectance model: the three inputs are normalized, the diffuse
/// cosine is clamped below at zero, the specular cosine is clamped into
/// `[0, 1]` and raised to the material's shininess, and each channel is
/// `ambient + diffuse + specular`.
pub open spec fn intensity_spec(n: Vec3, light_dir: Vec3, v: Vec3, m: Material) -> (
    int,
    int,
    int,
) {
    let nn = n.normalize_spec();
    let ln = light_dir.normalize_spec();
    let vn = v.normalize_spec();
    let d = nn.dot_spec(ln);
    let dd = if d < 0 {
        0
    } else {
        d
    };
    let h = (Vec3 {
        x: (ln.x + vn.x) as i64,
        y: (ln.y + vn.y) as i64,
        z: (ln.z + vn.z) as i64,
    }).normalize_spec();
    let ds = clamp_spec(nn.dot_spec(h), 0, 65536);
    let si = fx_pow_spec(ds, m.ns as nat);
    (
        shade_channel_spec(m.ka.0 as int, m.kd.0 as int, m.ks.0 as int, dd, si),
        shade_channel_spec(m.ka.1 as int, m.kd.1 as int, m.ks.1 as int, dd, si),
        shade_channel_spec(m.ka.2 as int, m.kd.2 as int, m.ks.2 as int, dd, si),
    )
}

/// Evaluates the ambient + Lambertian-diffuse + Blinn-Phong-specular
/// intensity at a surface point. `n` is the surface normal, `light_dir`
/// points toward the light, `v` toward the camera; all three are
/// normalized here before use. The result is unclamped above one:
/// clamping happens at color conversion.
pub fn calculate_intensity(n: Vec3, light_dir: Vec3, v: Vec3, m: &Material) -> (r: (
    i64,
    i64,
    i64,
))
    requires
        vec3_bounded(n, crate::math_3d::vec3::VEC_LEN_MAX as int),
        vec3_bounded(light_dir, crate::math_3d::vec3::VEC_LEN_MAX as int),
        vec3_bounded(v, crate::math_3d::vec3::VEC_LEN_MAX as int),
        m.wf(),
    ensures
        (r.0 as int, r.1 as int, r.2 as int) == intensity_spec(n, light_dir, v, *m),
        0 <= r.0 <= 327680,
        0 <= r.1 <= 327680,
        0 <= r.2 <= 327680,
{
    let nn = n.normalize();
    let ln = light_dir.normalize();
    let vn = v.normalize();

    let d = nn.dot(ln);
    proof {
        lemma_dot_of_units(nn, ln);
    }
    let dd: i64 = if d < 0 {
        0
    } else {
        d
    };

    let h = ln.add(vn).normalize();
    let dh = nn.dot(h);
    proof {
        lemma_dot_of_units(nn, h);
    }
    let ds = crate::fx::clamp_i64(dh, 0, 65536);
    let si = fx_pow_unit(ds, m.ns);

    proof {
        lemma_shade_channel(m.ka.0 as int, m.kd.0 as int, m.ks.0 as int, dd as int, si as int);
        lemma_shade_channel(m.ka.1 as int, m.kd.1 as int, m.ks.1 as int, dd as int, si as int);
        lemma_shade_channel(m.ka.2 as int, m.kd.2 as int, m.ks.2 as int, dd as int, si as int);
    }
    (
        m.ka.0 + fx_mul(m.kd.0, dd) + fx_mul(m.ks.0, si),
        m.ka.1 + fx_mul(m.kd.1, dd) + fx_mul(m.ks.1, si),
        m.ka.2 + fx_mul(m.kd.2, dd) + fx_mul(m.ks.2, si),
    )
}

/// The dot product of two unit-bounded vectors stays within three in
/// Q16.16.
proof fn lemma_dot_of_units(a: Vec3, b: Vec3)
    requires
        vec3_bounded(a, 65536),
        vec3_bounded(b, 65536),
    ensures
        abs_spec(a.dot_spec(b)) <= 196608,
{
    assert(-(65536int * 65536int) <= a.x * b.x <= 65536int * 65536int) by (nonlinear_arith)
        requires
            abs_spec(a.x as int) <= 65536,
            abs_spec(b.x as int) <= 65536,
    ;
    assert(-(65536int * 65536int) <= a.y * b.y <= 65536int * 65536int) by (nonlinear_arith)
        requires
            abs_spec(a.y as int) <= 65536,
            abs_spec(b.y as int) <= 65536,
    ;
    assert(-(65536int * 65536int) <= a.z * b.z <= 65536int * 65536int) by (nonlinear_arith)
        requires
            abs_spec(a.z as int) <= 65536,
            abs_spec(b.z as int) <= 65536,
    ;
    lemma_tz_div_bound(
        a.x * b.x + a.y * b.y + a.z * b.z,
        65536,
        3 * (65536int * 65536int),
        65536,
    );
}

/// One shading channel over well-formed coefficients is nonnegative and
/// bounded, and its two products stay within `i64`.
proof fn lemma_shade_channel(ka: int, kd: int, ks: int, dd: int, si: int)
    requires
        0 <= ka <= 65536,
        0 <= kd <= 65536,
        0 <= ks <= 65536,
        0 <= dd <= 196608,
        0 <= si <= 65536,
    ensures
        0 <= fx_mul_spec(kd, dd) <= 196608,
        0 <= fx_mul_spec(ks, si) <= 65536,
        0 <= shade_channel_spec(ka, kd, ks, dd, si) <= 327680,
{
    lemma_fx_mul_bound(kd, dd, 65536, 196608);
    lemma_fx_mul_bound(ks, si, 65536, 65536);
    assert(kd * dd >= 0) by (nonlinear_arith)
        requires
            kd >= 0,
            dd >= 0,
    ;
    assert(ks * si >= 0) by (nonlinear_arith)
        requires
            ks >= 0,
            si >= 0,
    ;
    lemma_tz_div(kd * dd, 65536);
    lemma_tz_div(ks * si, 65536);
}

/// One intensity channel as a displayable byte: scaled by 255 and clamped
/// into `[0, 255]`.
pub open spec fn intensity_byte_spec(i: int) -> int {
    clamp_spec(tz_div(255 * i, 65536), 0, 255)
}

/// Converts an RGB intensity triple to a displayable color: each channel
/// is multiplied by 255 and clamped into `[0, 255]`.
pub fn intensity_to_color(intensity: (i64, i64, i64)) -> (r: Color)
    requires
        abs_spec(intensity.0 as int) <= 0x100_0000_0000,
        abs_spec(intensity.1 as int) <= 0x100_0000_0000,
        abs_spec(intensity.2 as int) <= 0x100_0000_0000,
    ensures
        r.0 == intensity_byte_spec(intensity.0 as int),
        r.1 == intensity_byte_spec(intensity.1 as int),
        r.2 == intensity_byte_spec(intensity.2 as int),
{
    (
        intensity_channel_byte(intensity.0),
        intensity_channel_byte(intensity.1),
        intensity_channel_byte(intensity.2),
    )
}

/// One channel of `intensity_to_color`.
fn intensity_channel_byte(i: i64) -> (r: u8)
    requires
        abs_spec(i as int) <= 0x100_0000_0000,
    ensures
        r == intensity_byte_spec(i as int),
{
    proof {
        lemma_tz_div(255 * (i as int), 65536);
    }
    let p: i128 = 255 * (i as i128);
    let q = div_tz_i128(p, 65536);
    if q < 0 {
        0
    } else if q > 255 {
        255
    } else {
        q as u8
    }
}

/// The exact componentwise difference of two vectors.
pub open spec fn sub_v(a: Vec3, b: Vec3) -> Vec3 {
    Vec3 { x: (a.x - b.x) as i64, y: (a.y - b.y) as i64, z: (a.z - b.z) as i64 }
}

/// The camera projection: builds the right-handed view basis from eye,
/// target and world-up, takes `p` into camera space, rejects points at or
/// behind the near plane or projecting outside the sanity bound, and
/// otherwise yields the screen pixel and the inverse depth `1 / z`.
pub open spec fn project_look_at_spec(
    p: (i64, i64, i64),
    eye: (i64, i64, i64),
    target: (i64, i64, i64),
    focal: i64,
    width: i64,
    height: i64,
) -> Option<(i32, i32, i64)> {
    let world_up = Vec3 { x: 0, y: 65536, z: 0 };
    let ev = Vec3 { x: eye.0, y: eye.1, z: eye.2 };
    let tv = Vec3 { x: target.0, y: target.1, z: target.2 };
    let pv = Vec3 { x: p.0, y: p.1, z: p.2 };
    let f = sub_v(tv, ev).normalize_spec();
    let r = f.cross_spec(world_up).normalize_spec();
    let u = r.cross_spec(f);
    let v = sub_v(pv, ev);
    let x_cam = v.dot_spec(r);
    let y_cam = v.dot_spec(u);
    let z_cam = v.dot_spec(f);
    if z_cam <= NEAR_CLIP {
        None
    } else {
        let px = tz_div(x_cam * focal, z_cam);
        let py = tz_div(y_cam * focal, z_cam);
        if abs_spec(px) > PROJ_LIMIT || abs_spec(py) > PROJ_LIMIT {
            None
        } else {
            let sx = tz_div(px + tz_div(width as int, 2), 65536);
            let sy = tz_div(tz_div(height as int, 2) - py, 65536);
            Some((sx as i32, sy as i32, fx_div_spec(65536, z_cam as int) as i64))
        }
    }
}

/// Projects the world point `p` onto the screen of `width` by `height`
/// Q16.16 units, looking from `eye` toward `target` with the given focal
/// length. `None` when the point is at or behind the near plane, or lands
/// outside the sanity bound. The returned depth is the inverse of the
/// camera-space depth, so nearer points carry larger values.
pub fn project_look_at(
    p: Point3d,
    eye: Point3d,
    target: Point3d,
    focal: i64,
    width: i64,
    height: i64,
) -> (r: Option<(i32, i32, i64)>)
    requires
        abs_spec(p.0 as int) <= SCENE_MAX && abs_spec(p.1 as int) <= SCENE_MAX && abs_spec(
            p.2 as int,
        ) <= SCENE_MAX,
        abs_spec(eye.0 as int) <= SCENE_MAX && abs_spec(eye.1 as int) <= SCENE_MAX && abs_spec(
            eye.2 as int,
        ) <= SCENE_MAX,
        abs_spec(target.0 as int) <= SCENE_MAX && abs_spec(target.1 as int) <= SCENE_MAX
            && abs_spec(target.2 as int) <= SCENE_MAX,
        abs_spec(focal as int) <= SCENE_MAX,
        0 <= width <= SCENE_MAX,
        0 <= height <= SCENE_MAX,
    ensures
        r == project_look_at_spec(p, eye, target, focal, width, height),
        r is Some ==> 0 <= r.unwrap().2 <= 655360,
        r is Some ==> abs_spec(r.unwrap().0 as int) <= 18192 && abs_spec(
            r.unwrap().1 as int,
        ) <= 18192,
{
    let world_up = Vec3 { x: 0, y: 65536, z: 0 };
    let ev = Vec3::from(eye);
    let tv = Vec3::from(target);
    let f = (tv.sub(ev)).normalize();
    let rv = f.cross(world_up).normalize();
    proof {
        lemma_cross_unit_bound(f, world_up);
        lemma_cross_unit_bound(rv, f);
    }
    let u = rv.cross(f);
    let pv = Vec3::from(p);
    let v = pv.sub(ev);
    proof {
        lemma_cam_dot_bound(v, rv);
        lemma_cam_dot_bound(v, u);
        lemma_cam_dot_bound(v, f);
    }
    let x_cam = v.dot(rv);
    let y_cam = v.dot(u);
    let z_cam = v.dot(f);

    if z_cam <= NEAR_CLIP {
        return None;
    }
    let px = div_tz_i128(wide_mul(x_cam, focal), z_cam as i128);
    let py = div_tz_i128(wide_mul(y_cam, focal), z_cam as i128);

    if px > PROJ_LIMIT as i128 || px < -(PROJ_LIMIT as i128) || py > PROJ_LIMIT as i128 || py < -(
    PROJ_LIMIT as i128) {
        return None;
    }
    let wh = div_tz_i128(width as i128, 2);
    let hh = div_tz_i128(height as i128, 2);
    proof {
        lemma_tz_div(width as int, 2);
        lemma_tz_div(height as int, 2);
        lemma_tz_div_bound(px + wh, 65536, 1192230912, 65536);
        lemma_tz_div_bound(hh - py, 65536, 1192230912, 65536);
        lemma_tz_div_bound(65536int * 65536int, z_cam as int, 65536int * 65536int, 6554);
        lemma_tz_div(65536int * 65536int, z_cam as int);
    }
    let sx = div_tz_i128(px + wh, 65536);
    let sy = div_tz_i128(hh - py, 65536);
    let depth = fx_div(65536, z_cam);
    Some((sx as i32, sy as i32, depth))
}

/// The cross product of two unit-bounded vectors stays within twice one.
pub proof fn lemma_cross_unit_bound(a: Vec3, b: Vec3)
    requires
        vec3_bounded(a, 65536),
        vec3_bounded(b, 65536),
    ensures
        vec3_bounded(a.cross_spec(b), 131072),
{
    lemma_fx_mul_bound(a.y as int, b.z as int, 65536, 65536);
    lemma_fx_mul_bound(a.z as int, b.y as int, 65536, 65536);
    lemma_fx_mul_bound(a.z as int, b.x as int, 65536, 65536);
    lemma_fx_mul_bound(a.x as int, b.z as int, 65536, 65536);
    lemma_fx_mul_bound(a.x as int, b.y as int, 65536, 65536);
    lemma_fx_mul_bound(a.y as int, b.x as int, 65536, 65536);
}

/// A camera-space coordinate: the dot product of a scene-bounded vector
/// with a basis vector bounded by twice one stays within `2^35`.
proof fn lemma_cam_dot_bound(v: Vec3, b: Vec3)
    requires
        vec3_bounded(v, 0x8000_0000),
        vec3_bounded(b, 131072),
    ensures
        abs_spec(v.dot_spec(b)) <= 0x8_0000_0000,
{
    assert(-(0x8000_0000int * 131072int) <= v.x * b.x <= 0x8000_0000int * 131072int)
        by (nonlinear_arith)
        requires
            abs_spec(v.x as int) <= 0x8000_0000,
            abs_spec(b.x as int) <= 131072,
    ;
    assert(-(0x8000_0000int * 131072int) <= v.y * b.y <= 0x8000_0000int * 131072int)
        by (nonlinear_arith)
        requires
            abs_spec(v.y as int) <= 0x8000_0000,
            abs_spec(b.y as int) <= 131072,
    ;
    assert(-(0x8000_0000int * 131072int) <= v.z * b.z <= 0x8000_0000int * 131072int)
        by (nonlinear_arith)
        requires
            abs_spec(v.z as int) <= 0x8000_0000,
            abs_spec(b.z as int) <= 131072,
    ;
    lemma_tz_div_bound(
        v.x * b.x + v.y * b.y + v.z * b.z,
        65536,
        3 * (0x8000_0000int * 131072int),
        65536,
    );
}

/// Whether the edge from `pj` to `pi` crosses the horizontal ray cast
/// rightward from `t`: `t` lies between the edge's y levels and left of the
/// edge's crossing point.
pub open spec fn pip_edge_spec(pi: (i64, i64), pj: (i64, i64), t: (i64, i64)) -> bool {
    ((pi.1 > t.1) != (pj.1 > t.1)) && (t.0 as int) < tz_div(
        (pj.0 - pi.0) * (t.1 - pi.1),
        pj.1 - pi.1,
    ) + pi.0
}

/// The ray-crossing parity over the first `k` vertices of the polygon: odd
/// means inside.
pub open spec fn pip_rec(poly: Seq<(i64, i64)>, t: (i64, i64), k: int) -> bool
    decreases k,
{
    if k <= 0 {
        false
    } else {
        let j = if k == 1 {
            poly.len() - 1
        } else {
            k - 2
        };
        pip_rec(poly, t, k - 1) != pip_edge_spec(poly[k - 1], poly[j as int], t)
    }
}

/// Whether `t` lies inside the polygon, by the even-odd rule: a ray cast
/// rightward from `t` crosses the boundary an odd number of times.
pub fn is_point_in_polygon(poly: &Vec<(i64, i64)>, t: (i64, i64)) -> (r: bool)
    requires
        poly.len() >= 1,
        forall|i: int|
            0 <= i < poly.len() ==> abs_spec(poly[i].0 as int) <= SCENE_MAX && abs_spec(
                poly[i].1 as int,
            ) <= SCENE_MAX,
        abs_spec(t.0 as int) <= SCENE_MAX,
        abs_spec(t.1 as int) <= SCENE_MAX,
    ensures
        r == pip_rec(poly@, t, poly.len() as int),
{
    let mut c = false;
    let nvert = poly.len();
    let mut j: usize = nvert - 1;
    let mut i: usize = 0;
    while i < nvert
        invariant
            nvert == poly.len() >= 1,
            i <= nvert,
            j == if i == 0 {
                nvert - 1
            } else {
                i - 1
            },
            c == pip_rec(poly@, t, i as int),
            forall|k: int|
                0 <= k < poly.len() ==> abs_spec(poly@[k].0 as int) <= SCENE_MAX && abs_spec(
                    poly@[k].1 as int,
                ) <= SCENE_MAX,
            abs_spec(t.0 as int) <= SCENE_MAX,
            abs_spec(t.1 as int) <= SCENE_MAX,
        decreases nvert - i,
    {
        let pi = poly[i];
        let pj = poly[j];

        if (pi.1 > t.1) != (pj.1 > t.1) {
            let num = wide_mul(pj.0 - pi.0, t.1 - pi.1);
            let q = div_tz_i128(num, (pj.1 as i128) - (pi.1 as i128));
            proof {
                lemma_tz_div(num as int, pj.1 - pi.1);
            }
            if (t.0 as i128) < q + (pi.0 as i128) {
                c = !c;
            }
        }
        j = i;
        i = i + 1;
    }
    c
}

/// The unnormalized face normal used when distributing normals to the
/// vertices of a face: the cross product of the edges from the face's
/// first vertex to its third and to its second.
pub open spec fn face_normal_spec(points: Seq<(i64, i64, i64)>, f: Seq<usize>) -> Vec3 {
    let p0 = points[f[0] as int];
    let p1 = points[f[1] as int];
    let p2 = points[f[2] as int];
    let a = Vec3 { x: p0.0, y: p0.1, z: p0.2 };
    let b = Vec3 { x: p1.0, y: p1.1, z: p1.2 };
    let c = Vec3 { x: p2.0, y: p2.1, z: p2.2 };
    sub_v(c, a).cross_spec(sub_v(b, a))
}

/// Writing the face normal `n` into the slots of the first `k` vertex
/// indices of the face.
pub open spec fn distribute_normal_spec(acc: Seq<Vec3>, f: Seq<usize>, n: Vec3, k: int) -> Seq<
    Vec3,
>
    decreases k,
{
    if k <= 0 {
        acc
    } else {
        distribute_normal_spec(acc, f, n, k - 1).update(f[k - 1] as int, n)
    }
}

/// The vertex normals after the first `k` faces have distributed their
/// face normals; a later face overwrites an earlier one's contribution.
pub open spec fn vertex_normals_rec(
    points: Seq<(i64, i64, i64)>,
    faces: Seq<Vec<usize>>,
    k: int,
) -> Seq<Vec3>
    decreases k,
{
    if k <= 0 {
        Seq::new(points.len(), |i: int| Vec3 { x: 0, y: 0, z: 0 })
    } else {
        let acc = vertex_normals_rec(points, faces, k - 1);
        let f = faces[k - 1]@;
        if f.len() < 3 {
            acc
        } else {
            distribute_normal_spec(acc, f, face_normal_spec(points, f), f.len() as int)
        }
    }
}

/// Derives one normal per point from the faces: each face's geometric
/// normal (unnormalized) is written to all of that face's vertices, later
/// faces overwriting earlier ones; points on no face keep the zero vector.
pub fn compute_vertex_normals(points: &Vec<Point3d>, faces: &Vec<Vec<usize>>) -> (r: Vec<Vec3>)
    requires
        forall|i: int, k: int|
            0 <= i < faces.len() && 0 <= k < faces[i].len() ==> faces[i][k] < points.len(),
        forall|i: int|
            0 <= i < points.len() ==> abs_spec(points[i].0 as int) <= SCENE_MAX && abs_spec(
                points[i].1 as int,
            ) <= SCENE_MAX && abs_spec(points[i].2 as int) <= SCENE_MAX,
    ensures
        r@ == vertex_normals_rec(points@, faces@, faces.len() as int),
        r.len() == points.len(),
{
    let mut normals: Vec<Vec3> = Vec::new();
    let mut k: usize = 0;
    let n_points = points.len();
    while k < n_points
        invariant
            k <= n_points,
            n_points == points.len(),
            normals.len() == k,
            forall|i: int| 0 <= i < k ==> normals[i] == (Vec3 { x: 0, y: 0, z: 0 }),
        decreases n_points - k,
    {
        normals.push(Vec3 { x: 0, y: 0, z: 0 });
        k = k + 1;
    }
    proof {
        assert(normals@ =~= vertex_normals_rec(points@, faces@, 0));
    }

    let n_faces = faces.len();
    let mut fi: usize = 0;
    while fi < n_faces
        invariant
            fi <= n_faces,
            n_faces == faces.len(),
            normals.len() == points.len(),
            normals@ == vertex_normals_rec(points@, faces@, fi as int),
            forall|i: int, kk: int|
                0 <= i < faces.len() && 0 <= kk < faces@[i].len() ==> faces@[i][kk]
                    < points.len(),
            forall|i: int|
                0 <= i < points.len() ==> abs_spec(points@[i].0 as int) <= SCENE_MAX && abs_spec(
                    points@[i].1 as int,
                ) <= SCENE_MAX && abs_spec(points@[i].2 as int) <= SCENE_MAX,
        decreases n_faces - fi,
    {
        let f = &faces[fi];
        if f.len() >= 3 {
            let p0 = Vec3::from(points[f[0]]);
            let p1 = Vec3::from(points[f[1]]);
            let p2 = Vec3::from(points[f[2]]);
            proof {
                lemma_edge_cross_bound(sub_v(p2, p0), sub_v(p1, p0));
            }
            let face_normal = p2.sub(p0).cross(p1.sub(p0));
            assert(face_normal == face_normal_spec(points@, f@));

            let flen = f.len();
            let mut vi: usize = 0;
            while vi < flen
                invariant
                    vi <= flen,
                    flen == f.len(),
                    f == faces@[fi as int],
                    fi < faces.len(),
                    normals.len() == points.len(),
                    forall|kk: int| 0 <= kk < f.len() ==> f@[kk] < points.len(),
                    normals@ == distribute_normal_spec(
                        vertex_normals_rec(points@, faces@, fi as int),
                        f@,
                        face_normal,
                        vi as int,
                    ),
                decreases flen - vi,
            {
                let idx: usize = f[vi];
                normals.set(idx, face_normal);
                vi = vi + 1;
            }
        }
        fi = fi + 1;
    }
    normals
}

/// The geometric normal of the triangle `p0 p1 p2`: the normalized cross
/// product of the edges leaving `p0`.
pub open spec fn calculate_normal_spec(
    p0: (i64, i64, i64),
    p1: (i64, i64, i64),
    p2: (i64, i64, i64),
) -> Vec3 {
    let a = Vec3 { x: p0.0, y: p0.1, z: p0.2 };
    let b = Vec3 { x: p1.0, y: p1.1, z: p1.2 };
    let c = Vec3 { x: p2.0, y: p2.1, z: p2.2 };
    sub_v(b, a).cross_spec(sub_v(c, a)).normalize_spec()
}

/// The unit normal of the face `p0 p1 p2`, from the cross product of the
/// two edges leaving `p0`; their order decides which side it points to.
pub fn calculate_normal(p0: Point3d, p1: Point3d, p2: Point3d) -> (r: Vec3)
    requires
        abs_spec(p0.0 as int) <= SCENE_MAX && abs_spec(p0.1 as int) <= SCENE_MAX && abs_spec(
            p0.2 as int,
        ) <= SCENE_MAX,
        abs_spec(p1.0 as int) <= SCENE_MAX && abs_spec(p1.1 as int) <= SCENE_MAX && abs_spec(
            p1.2 as int,
        ) <= SCENE_MAX,
        abs_spec(p2.0 as int) <= SCENE_MAX && abs_spec(p2.1 as int) <= SCENE_MAX && abs_spec(
            p2.2 as int,
        ) <= SCENE_MAX,
    ensures
        r == calculate_normal_spec(p0, p1, p2),
        vec3_bounded(r, 65536),
{
    let a = Vec3::from(p0);
    let b = Vec3::from(p1);
    let c = Vec3::from(p2);
    let v1 = b.sub(a);
    let v2 = c.sub(a);
    proof {
        lemma_edge_cross_bound(v1, v2);
    }
    v1.cross(v2).normalize()
}

/// The cross product of two edge vectors of a scene-bounded triangle fits
/// the normalization bound.
proof fn lemma_edge_cross_bound(a: Vec3, b: Vec3)
    requires
        vec3_bounded(a, 0x8000_0000),
        vec3_bounded(b, 0x8000_0000),
    ensures
        vec3_bounded(a.cross_spec(b), crate::math_3d::vec3::VEC_LEN_MAX as int),
{
    lemma_fx_mul_bound(a.y as int, b.z as int, 0x8000_0000, 0x8000_0000);
    lemma_fx_mul_bound(a.z as int, b.y as int, 0x8000_0000, 0x8000_0000);
    lemma_fx_mul_bound(a.z as int, b.x as int, 0x8000_0000, 0x8000_0000);
    lemma_fx_mul_bound(a.x as int, b.z as int, 0x8000_0000, 0x8000_0000);
    lemma_fx_mul_bound(a.x as int, b.y as int, 0x8000_0000, 0x8000_0000);
    lemma_fx_mul_bound(a.y as int, b.x as int, 0x8000_0000, 0x8000_0000);
}

// ---------------------------------------------------------------------
// Rasterization: barycentric scan conversion against a depth buffer.
// ---------------------------------------------------------------------

/// How the rasterizer resolves a covered pixel's color: either vertex
/// colors resolved beforehand and interpolated (Gouraud), or world
/// position and normal interpolated and shaded per pixel (Phong).
pub enum ShadeMode {
    Resolved { colors: (Color, Color, Color) },
    Deferred {
        world: (Point3d, Point3d, Point3d),
        normals: (Vec3, Vec3, Vec3),
        material: Material,
        light_dir: Vec3,
        eye: Point3d,
    },
}

/// Bounds under which the per-pixel shading arithmetic stays in range.
pub open spec fn shade_mode_wf(m: ShadeMode) -> bool {
    match m {
        ShadeMode::Resolved { .. } => true,
        ShadeMode::Deferred { world, normals, material, light_dir, eye } => {
            &&& p3_bounded(world.0, SCENE_MAX as int) && p3_bounded(world.1, SCENE_MAX as int)
                && p3_bounded(world.2, SCENE_MAX as int)
            &&& vec3_bounded(normals.0, SCENE_MAX as int) && vec3_bounded(
                normals.1,
                SCENE_MAX as int,
            ) && vec3_bounded(normals.2, SCENE_MAX as int)
            &&& material.wf()
            &&& vec3_bounded(light_dir, crate::math_3d::vec3::VEC_LEN_MAX as int)
            &&& p3_bounded(eye, SCENE_MAX as int)
        },
    }
}

/// All three coordinates of a point within `b` in magnitude.
pub open spec fn p3_bounded(p: (i64, i64, i64), b: int) -> bool {
    abs_spec(p.0 as int) <= b && abs_spec(p.1 as int) <= b && abs_spec(p.2 as int) <= b
}

/// The Q16.16 coordinate of the center of pixel `x`.
pub open spec fn pix_center(x: int) -> int {
    65536 * x + 32768
}

/// Twice the triangle's signed area, an exact Q32.32 integer.
pub open spec fn tri_den_spec(s0: (i64, i64, i64), s1: (i64, i64, i64), s2: (i64, i64, i64)) -> int {
    (s1.1 - s2.1) * (s0.0 - s2.0) + (s2.0 - s1.0) * (s0.1 - s2.1)
}

/// The first barycentric weight of the center of pixel `(x, y)`, in Q16.16.
pub open spec fn tri_w0_spec(
    s0: (i64, i64, i64),
    s1: (i64, i64, i64),
    s2: (i64, i64, i64),
    x: int,
    y: int,
) -> int {
    tz_div(
        ((s1.1 - s2.1) * (pix_center(x) - s2.0) + (s2.0 - s1.0) * (pix_center(y) - s2.1)) * 65536,
        tri_den_spec(s0, s1, s2),
    )
}

/// The second barycentric weight of the center of pixel `(x, y)`.
pub open spec fn tri_w1_spec(
    s0: (i64, i64, i64),
    s1: (i64, i64, i64),
    s2: (i64, i64, i64),
    x: int,
    y: int,
) -> int {
    tz_div(
        ((s2.1 - s0.1) * (pix_center(x) - s2.0) + (s0.0 - s2.0) * (pix_center(y) - s2.1)) * 65536,
        tri_den_spec(s0, s1, s2),
    )
}

/// The third barycentric weight: the complement of the first two.
pub open spec fn tri_w2_spec(
    s0: (i64, i64, i64),
    s1: (i64, i64, i64),
    s2: (i64, i64, i64),
    x: int,
    y: int,
) -> int {
    65536 - tri_w0_spec(s0, s1, s2, x, y) - tri_w1_spec(s0, s1, s2, x, y)
}

/// Barycentric interpolation of three Q16.16 values by Q16.16 weights.
pub open spec fn interp3_spec(a: int, b: int, c: int, w0: int, w1: int, w2: int) -> int {
    tz_div(a * w0 + b * w1 + c * w2, 65536)
}

/// The smaller and larger of three values.
pub open spec fn min3_spec(a: int, b: int, c: int) -> int {
    if a <= b && a <= c {
        a
    } else if b <= c {
        b
    } else {
        c
    }
}

pub open spec fn max3_spec(a: int, b: int, c: int) -> int {
    if a >= b && a >= c {
        a
    } else if b >= c {
        b
    } else {
        c
    }
}

/// The triangle's screen bounding box `(start_x, end_x, start_y, end_y)`:
/// vertex extremes rounded to the nearest pixel and clamped to the
/// viewport.
pub open spec fn tri_bbox_spec(
    s0: (i64, i64, i64),
    s1: (i64, i64, i64),
    s2: (i64, i64, i64),
    width: int,
    height: int,
) -> (int, int, int, int) {
    (
        clamp_spec(crate::fx::fx_round_spec(min3_spec(s0.0 as int, s1.0 as int, s2.0 as int)), 0, width - 1),
        clamp_spec(crate::fx::fx_round_spec(max3_spec(s0.0 as int, s1.0 as int, s2.0 as int)), 0, width - 1),
        clamp_spec(crate::fx::fx_round_spec(min3_spec(s0.1 as int, s1.1 as int, s2.1 as int)), 0, height - 1),
        clamp_spec(crate::fx::fx_round_spec(max3_spec(s0.1 as int, s1.1 as int, s2.1 as int)), 0, height - 1),
    )
}

/// Whether the triangle covers the center of pixel `(x, y)`: the triangle
/// is not degenerate, the pixel lies in the clamped bounding box that the
/// rasterizer scans, and all three weights pass the seam tolerance.
pub open spec fn tri_covers_spec(
    s0: (i64, i64, i64),
    s1: (i64, i64, i64),
    s2: (i64, i64, i64),
    width: int,
    height: int,
    x: int,
    y: int,
) -> bool {
    let (sx, ex, sy, ey) = tri_bbox_spec(s0, s1, s2, width, height);
    &&& abs_spec(tri_den_spec(s0, s1, s2)) >= DEGEN_DEN
    &&& sx <= x <= ex && sy <= y <= ey
    &&& tri_w0_spec(s0, s1, s2, x, y) >= BARY_EPS
    &&& tri_w1_spec(s0, s1, s2, x, y) >= BARY_EPS
    &&& tri_w2_spec(s0, s1, s2, x, y) >= BARY_EPS
}

/// The triangle's interpolated inverse depth at the center of pixel
/// `(x, y)`.
pub open spec fn tri_z_spec(
    s0: (i64, i64, i64),
    s1: (i64, i64, i64),
    s2: (i64, i64, i64),
    x: int,
    y: int,
) -> int {
    interp3_spec(
        s0.2 as int,
        s1.2 as int,
        s2.2 as int,
        tri_w0_spec(s0, s1, s2, x, y),
        tri_w1_spec(s0, s1, s2, x, y),
        tri_w2_spec(s0, s1, s2, x, y),
    )
}

/// One channel of a Gouraud-interpolated color, clamped to a byte.
pub open spec fn interp_chan_spec(c0: int, c1: int, c2: int, w0: int, w1: int, w2: int) -> u8 {
    clamp_spec(interp3_spec(c0, c1, c2, w0, w1, w2), 0, 255) as u8
}

/// The color the rasterizer writes at a covered pixel with weights
/// `(w0, w1, w2)`: interpolated vertex colors for the resolved mode, the
/// reflectance model over interpolated normal and position for the
/// deferred mode.
pub open spec fn shade_pixel_spec(m: ShadeMode, w0: int, w1: int, w2: int) -> Color {
    match m {
        ShadeMode::Resolved { colors } => (
            interp_chan_spec(colors.0.0 as int, colors.1.0 as int, colors.2.0 as int, w0, w1, w2),
            interp_chan_spec(colors.0.1 as int, colors.1.1 as int, colors.2.1 as int, w0, w1, w2),
            interp_chan_spec(colors.0.2 as int, colors.1.2 as int, colors.2.2 as int, w0, w1, w2),
        ),
        ShadeMode::Deferred { world, normals, material, light_dir, eye } => {
            let n = Vec3 {
                x: interp3_spec(normals.0.x as int, normals.1.x as int, normals.2.x as int, w0, w1, w2) as i64,
                y: interp3_spec(normals.0.y as int, normals.1.y as int, normals.2.y as int, w0, w1, w2) as i64,
                z: interp3_spec(normals.0.z as int, normals.1.z as int, normals.2.z as int, w0, w1, w2) as i64,
            };
            let px = interp3_spec(world.0.0 as int, world.1.0 as int, world.2.0 as int, w0, w1, w2);
            let py = interp3_spec(world.0.1 as int, world.1.1 as int, world.2.1 as int, w0, w1, w2);
            let pz = interp3_spec(world.0.2 as int, world.1.2 as int, world.2.2 as int, w0, w1, w2);
            let v = Vec3 {
                x: (eye.0 - px) as i64,
                y: (eye.1 - py) as i64,
                z: (eye.2 - pz) as i64,
            };
            let i = intensity_spec(n, light_dir, v, material);
            (
                intensity_byte_spec(i.0) as u8,
                intensity_byte_spec(i.1) as u8,
                intensity_byte_spec(i.2) as u8,
            )
        },
    }
}

/// The depth value at cell `i` after the triangle is rasterized over the
/// old depth buffer: the interpolated depth where the triangle covers the
/// pixel and is at least as near, the old value otherwise.
pub open spec fn raster_cell_z(
    old_z: Seq<i64>,
    s0: (i64, i64, i64),
    s1: (i64, i64, i64),
    s2: (i64, i64, i64),
    width: int,
    height: int,
    i: int,
) -> i64 {
    let x = i % width;
    let y = i / width;
    if tri_covers_spec(s0, s1, s2, width, height, x, y) && tri_z_spec(s0, s1, s2, x, y)
        >= old_z[i] {
        tri_z_spec(s0, s1, s2, x, y) as i64
    } else {
        old_z[i]
    }
}

/// Whether rasterizing the triangle writes cell `i`.
pub open spec fn raster_cell_written(
    old_z: Seq<i64>,
    s0: (i64, i64, i64),
    s1: (i64, i64, i64),
    s2: (i64, i64, i64),
    width: int,
    height: int,
    i: int,
) -> bool {
    tri_covers_spec(s0, s1, s2, width, height, i % width, i / width) && tri_z_spec(
        s0,
        s1,
        s2,
        i % width,
        i / width,
    ) >= old_z[i]
}

/// The color written at cell `i` when it is written.
pub open spec fn raster_cell_color(
    m: ShadeMode,
    s0: (i64, i64, i64),
    s1: (i64, i64, i64),
    s2: (i64, i64, i64),
    width: int,
    i: int,
) -> Color {
    let x = i % width;
    let y = i / width;
    shade_pixel_spec(
        m,
        tri_w0_spec(s0, s1, s2, x, y),
        tri_w1_spec(s0, s1, s2, x, y),
        tri_w2_spec(s0, s1, s2, x, y),
    )
}

/// The full post-state of one rasterization call, cell by cell: where the
/// triangle covers the pixel and wins the depth test, the depth and the
/// three color bytes are written; everywhere else both are untouched.
pub open spec fn raster_post(
    old_z: Seq<i64>,
    old_pix: Seq<u8>,
    new_z: Seq<i64>,
    new_pix: Seq<u8>,
    m: ShadeMode,
    s0: (i64, i64, i64),
    s1: (i64, i64, i64),
    s2: (i64, i64, i64),
    width: int,
    height: int,
) -> bool {
    &&& new_z.len() == old_z.len()
    &&& new_pix.len() == old_pix.len()
    &&& forall|i: int|
        0 <= i < width * height ==> #[trigger] new_z[i] == raster_cell_z(
            old_z,
            s0,
            s1,
            s2,
            width,
            height,
            i,
        )
    &&& forall|i: int|
        0 <= i < width * height && raster_cell_written(old_z, s0, s1, s2, width, height, i) ==> {
            let c = raster_cell_color(m, s0, s1, s2, width, i);
            &&& #[trigger] new_pix[3 * i] == c.0
            &&& new_pix[3 * i + 1] == c.1
            &&& new_pix[3 * i + 2] == c.2
        }
    &&& forall|i: int|
        0 <= i < width * height && !raster_cell_written(old_z, s0, s1, s2, width, height, i) ==> {
            &&& #[trigger] new_pix[3 * i] == old_pix[3 * i]
            &&& new_pix[3 * i + 1] == old_pix[3 * i + 1]
            &&& new_pix[3 * i + 2] == old_pix[3 * i + 2]
        }
}

/// Largest magnitude of a screen coordinate or depth fed to the rasterizer.
pub const RASTER_MAX: i64 = 0x8000_0000;

/// Largest viewport side, in pixels.
pub const VIEW_MAX: i32 = 16384;

/// A row-major cell index decomposes into its column and row.
proof fn lemma_rowmajor(x: int, y: int, w: int, h: int)
    requires
        0 <= x < w,
        0 <= y < h,
    ensures
        0 <= y * w + x < w * h,
        (y * w + x) % w == x,
        (y * w + x) / w == y,
{
    assert(0 <= y * w + x && y * w + x < w * h) by (nonlinear_arith)
        requires
            0 <= x < w,
            0 <= y < h,
    ;
    vstd::arithmetic::div_mod::lemma_fundamental_div_mod_converse(y * w + x, w, y, x);
}

/// Barycentric interpolation of three Q16.16 values by weights that passed
/// the seam tolerance.
fn interp3(a: i64, b: i64, c: i64, w0: i64, w1: i64, w2: i64) -> (r: i64)
    requires
        abs_spec(a as int) <= RASTER_MAX,
        abs_spec(b as int) <= RASTER_MAX,
        abs_spec(c as int) <= RASTER_MAX,
        -7 < w0 <= 65548,
        -7 < w1 <= 65548,
        -7 < w2 <= 65548,
    ensures
        r == interp3_spec(a as int, b as int, c as int, w0 as int, w1 as int, w2 as int),
        abs_spec(r as int) <= 0x2_0000_0000,
{
    proof {
        crate::fx::lemma_abs_mul_bound(a as int, w0 as int, RASTER_MAX as int, 65548);
        crate::fx::lemma_abs_mul_bound(b as int, w1 as int, RASTER_MAX as int, 65548);
        crate::fx::lemma_abs_mul_bound(c as int, w2 as int, RASTER_MAX as int, 65548);
        lemma_tz_div_bound(
            a * w0 + b * w1 + c * w2,
            65536,
            3 * (0x8000_0000int * 65548int),
            65536,
        );
    }
    let s = wide_mul(a, w0) + wide_mul(b, w1) + wide_mul(c, w2);
    let q = div_tz_i128(s, 65536);
    q as i64
}

/// One Gouraud color channel: interpolated and clamped to a byte.
fn interp_chan(c0: u8, c1: u8, c2: u8, w0: i64, w1: i64, w2: i64) -> (r: u8)
    requires
        -7 < w0 <= 65548,
        -7 < w1 <= 65548,
        -7 < w2 <= 65548,
    ensures
        r == interp_chan_spec(c0 as int, c1 as int, c2 as int, w0 as int, w1 as int, w2 as int),
{
    let v = interp3(c0 as i64, c1 as i64, c2 as i64, w0, w1, w2);
    let cl = crate::fx::clamp_i64(v, 0, 255);
    cl as u8
}

/// The color of one covered pixel under the given shading mode and
/// weights.
fn shade_pixel(mode: &ShadeMode, w0: i64, w1: i64, w2: i64) -> (r: Color)
    requires
        shade_mode_wf(*mode),
        -7 < w0 <= 65548,
        -7 < w1 <= 65548,
        -7 < w2 <= 65548,
    ensures
        r == shade_pixel_spec(*mode, w0 as int, w1 as int, w2 as int),
{
    match mode {
        ShadeMode::Resolved { colors } => {
            (
                interp_chan(colors.0.0, colors.1.0, colors.2.0, w0, w1, w2),
                interp_chan(colors.0.1, colors.1.1, colors.2.1, w0, w1, w2),
                interp_chan(colors.0.2, colors.1.2, colors.2.2, w0, w1, w2),
            )
        },
        ShadeMode::Deferred { world, normals, material, light_dir, eye } => {
            let n = Vec3 {
                x: interp3(normals.0.x, normals.1.x, normals.2.x, w0, w1, w2),
                y: interp3(normals.0.y, normals.1.y, normals.2.y, w0, w1, w2),
                z: interp3(normals.0.z, normals.1.z, normals.2.z, w0, w1, w2),
            };
            let px = interp3(world.0.0, world.1.0, world.2.0, w0, w1, w2);
            let py = interp3(world.0.1, world.1.1, world.2.1, w0, w1, w2);
            let pz = interp3(world.0.2, world.1.2, world.2.2, w0, w1, w2);
            let v = Vec3 { x: eye.0 - px, y: eye.1 - py, z: eye.2 - pz };
            let intensity = calculate_intensity(n, *light_dir, v, material);
            intensity_to_color(intensity)
        },
    }
}

/// Rasterizes one pixel: evaluates the barycentric weights at the pixel
/// center, and where they pass the seam tolerance and the interpolated
/// depth is at least the stored one, writes the depth and the shaded color.
#[verifier::rlimit(60)]
fn process_pixel(
    s0: Point3d,
    s1: Point3d,
    s2: Point3d,
    mode: &ShadeMode,
    fb: &mut FrameBuffer,
    z_buffer: &mut Vec<i64>,
    x: i32,
    y: i32,
    width: i32,
    height: i32,
)
    requires
        old(fb).wf(),
        old(fb).width == width as int,
        old(fb).height == height as int,
        old(z_buffer).len() == width as int * height as int,
        1 <= width <= VIEW_MAX,
        1 <= height <= VIEW_MAX,
        0 <= x < width,
        0 <= y < height,
        p3_bounded(s0, RASTER_MAX as int),
        p3_bounded(s1, RASTER_MAX as int),
        p3_bounded(s2, RASTER_MAX as int),
        shade_mode_wf(*mode),
        abs_spec(tri_den_spec(s0, s1, s2)) >= DEGEN_DEN,
    ensures
        final(fb).wf(),
        final(fb).width == old(fb).width,
        final(fb).height == old(fb).height,
        final(z_buffer).len() == old(z_buffer).len(),
        ({
            let w = width as int;
            let h = height as int;
            let i = y as int * w + x as int;
            let covers = tri_w0_spec(s0, s1, s2, x as int, y as int) >= BARY_EPS && tri_w1_spec(
                s0,
                s1,
                s2,
                x as int,
                y as int,
            ) >= BARY_EPS && tri_w2_spec(s0, s1, s2, x as int, y as int) >= BARY_EPS;
            let written = covers && tri_z_spec(s0, s1, s2, x as int, y as int) >= old(
                z_buffer,
            )@[i];
            if written {
                let c = shade_pixel_spec(
                    *mode,
                    tri_w0_spec(s0, s1, s2, x as int, y as int),
                    tri_w1_spec(s0, s1, s2, x as int, y as int),
                    tri_w2_spec(s0, s1, s2, x as int, y as int),
                );
                &&& final(z_buffer)@ == old(z_buffer)@.update(
                    i,
                    tri_z_spec(s0, s1, s2, x as int, y as int) as i64,
                )
                &&& final(fb).pixels@ == old(fb).pixels@.update(3 * i, c.0).update(
                    3 * i + 1,
                    c.1,
                ).update(3 * i + 2, c.2)
            } else {
                &&& final(z_buffer)@ == old(z_buffer)@
                &&& final(fb).pixels@ == old(fb).pixels@
            }
        }),
{
    proof {
        lemma_rowmajor(x as int, y as int, width as int, height as int);
        lemma_abs_mul_bound(s1.1 - s2.1, pix_center(x as int) - s2.0, 0x1_0000_0000, 0x1_0000_0000);
        lemma_abs_mul_bound(s2.0 - s1.0, pix_center(y as int) - s2.1, 0x1_0000_0000, 0x1_0000_0000);
        lemma_abs_mul_bound(s2.1 - s0.1, pix_center(x as int) - s2.0, 0x1_0000_0000, 0x1_0000_0000);
        lemma_abs_mul_bound(s0.0 - s2.0, pix_center(y as int) - s2.1, 0x1_0000_0000, 0x1_0000_0000);
    }
    let cx: i64 = 65536 * (x as i64) + 32768;
    let cy: i64 = 65536 * (y as i64) + 32768;
    proof {
        lemma_abs_mul_bound(s1.1 - s2.1, s0.0 - s2.0, 0x1_0000_0000, 0x1_0000_0000);
        lemma_abs_mul_bound(s2.0 - s1.0, s0.1 - s2.1, 0x1_0000_0000, 0x1_0000_0000);
    }
    let den = wide_mul(s1.1 - s2.1, s0.0 - s2.0) + wide_mul(s2.0 - s1.0, s0.1 - s2.1);
    let n0 = wide_mul(s1.1 - s2.1, cx - s2.0) + wide_mul(s2.0 - s1.0, cy - s2.1);
    let n1 = wide_mul(s2.1 - s0.1, cx - s2.0) + wide_mul(s0.0 - s2.0, cy - s2.1);
    proof {
        lemma_tz_div(n0 * 65536, den as int);
        lemma_tz_div(n1 * 65536, den as int);
    }
    let w0 = div_tz_i128(n0 * 65536, den);
    let w1 = div_tz_i128(n1 * 65536, den);
    let w2 = 65536 - w0 - w1;

    if w0 >= BARY_EPS as i128 && w1 >= BARY_EPS as i128 && w2 >= BARY_EPS as i128 {
        let w0s = w0 as i64;
        let w1s = w1 as i64;
        let w2s = w2 as i64;
        let zi = interp3(s0.2, s1.2, s2.2, w0s, w1s, w2s);
        let offset = (y as usize) * (width as usize) + (x as usize);
        if zi >= z_buffer[offset] {
            z_buffer.set(offset, zi);
            let c = shade_pixel(mode, w0s, w1s, w2s);
            fb.pixel(x as u32, y as u32, c);
            proof {
                let w = width as int;
                let h = height as int;
                let plen = fb.pixels@.len() as int;
                assert(3 * (y as int * w + x as int) + 2 < plen) by (nonlinear_arith)
                    requires
                        0 <= x as int && (x as int) < w,
                        0 <= y as int && (y as int) < h,
                        plen == w * h * 3,
                ;
            }
        }
    }
}

/// The smaller of three Q16.16 values.
pub(crate) fn min3(a: i64, b: i64, c: i64) -> (r: i64)
    ensures
        r == min3_spec(a as int, b as int, c as int),
{
    if a <= b && a <= c {
        a
    } else if b <= c {
        b
    } else {
        c
    }
}

/// The larger of three Q16.16 values.
pub(crate) fn max3(a: i64, b: i64, c: i64) -> (r: i64)
    ensures
        r == max3_spec(a as int, b as int, c as int),
{
    if a >= b && a >= c {
        a
    } else if b >= c {
        b
    } else {
        c
    }
}

/// Depth and color are untouched at cell `i`.
pub open spec fn cell_untouched(
    old_z: Seq<i64>,
    old_pix: Seq<u8>,
    z: Seq<i64>,
    pix: Seq<u8>,
    i: int,
) -> bool {
    &&& z[i] == old_z[i]
    &&& pix[3 * i] == old_pix[3 * i]
    &&& pix[3 * i + 1] == old_pix[3 * i + 1]
    &&& pix[3 * i + 2] == old_pix[3 * i + 2]
}

/// Cell `i` carries its rasterized post-state.
pub open spec fn cell_done(
    old_z: Seq<i64>,
    old_pix: Seq<u8>,
    z: Seq<i64>,
    pix: Seq<u8>,
    m: ShadeMode,
    s0: (i64, i64, i64),
    s1: (i64, i64, i64),
    s2: (i64, i64, i64),
    width: int,
    height: int,
    i: int,
) -> bool {
    &&& z[i] == raster_cell_z(old_z, s0, s1, s2, width, height, i)
    &&& if raster_cell_written(old_z, s0, s1, s2, width, height, i) {
        let c = raster_cell_color(m, s0, s1, s2, width, i);
        pix[3 * i] == c.0 && pix[3 * i + 1] == c.1 && pix[3 * i + 2] == c.2
    } else {
        pix[3 * i] == old_pix[3 * i] && pix[3 * i + 1] == old_pix[3 * i + 1] && pix[3 * i + 2]
            == old_pix[3 * i + 2]
    }
}

/// The set of cells the rasterizer has processed so far: the full rows
/// `sy..yfull` of the bounding box's columns, plus the columns `sx..col`
/// of row `row`.
pub open spec fn in_region(
    w: int,
    sx: int,
    ex: int,
    sy: int,
    yfull: int,
    row: int,
    col: int,
    i: int,
) -> bool {
    let px = i % w;
    let py = i / w;
    (sy <= py < yfull && sx <= px <= ex) || (py == row && sx <= px < col)
}

/// The rasterizer's loop invariant: every cell the scan has reached is in
/// its post-state, every other cell is untouched.
pub open spec fn raster_progress(
    z0: Seq<i64>,
    pix0: Seq<u8>,
    z: Seq<i64>,
    pix: Seq<u8>,
    m: ShadeMode,
    s0: (i64, i64, i64),
    s1: (i64, i64, i64),
    s2: (i64, i64, i64),
    w: int,
    h: int,
    sx: int,
    ex: int,
    sy: int,
    yfull: int,
    row: int,
    col: int,
) -> bool {
    forall|i: int|
        0 <= i < w * h ==> if #[trigger] in_region(w, sx, ex, sy, yfull, row, col, i) {
            cell_done(z0, pix0, z, pix, m, s0, s1, s2, w, h, i)
        } else {
            cell_untouched(z0, pix0, z, pix, i)
        }
}

/// Rasterizes one triangle into the surface and depth buffer: scans the
/// clamped screen bounding box, and at every pixel whose center the
/// triangle covers and whose interpolated inverse depth is at least the
/// stored one, writes that depth and the shaded color. Degenerate
/// triangles (doubled area under the threshold) draw nothing.
#[verifier::rlimit(100)]
pub fn raster_triangle(
    s0: Point3d,
    s1: Point3d,
    s2: Point3d,
    mode: &ShadeMode,
    fb: &mut FrameBuffer,
    z_buffer: &mut Vec<i64>,
    width: i32,
    height: i32,
)
    requires
        old(fb).wf(),
        old(fb).width == width as int,
        old(fb).height == height as int,
        old(z_buffer).len() == width as int * height as int,
        1 <= width <= VIEW_MAX,
        1 <= height <= VIEW_MAX,
        p3_bounded(s0, RASTER_MAX as int),
        p3_bounded(s1, RASTER_MAX as int),
        p3_bounded(s2, RASTER_MAX as int),
        shade_mode_wf(*mode),
    ensures
        final(fb).wf(),
        final(fb).width == old(fb).width,
        final(fb).height == old(fb).height,
        final(z_buffer).len() == old(z_buffer).len(),
        raster_post(
            old(z_buffer)@,
            old(fb).pixels@,
            final(z_buffer)@,
            final(fb).pixels@,
            *mode,
            s0,
            s1,
            s2,
            width as int,
            height as int,
        ),
{
    proof {
        lemma_abs_mul_bound(s1.1 - s2.1, s0.0 - s2.0, 0x1_0000_0000, 0x1_0000_0000);
        lemma_abs_mul_bound(s2.0 - s1.0, s0.1 - s2.1, 0x1_0000_0000, 0x1_0000_0000);
    }
    let den = wide_mul(s1.1 - s2.1, s0.0 - s2.0) + wide_mul(s2.0 - s1.0, s0.1 - s2.1);
    let dabs = if den < 0 {
        -den
    } else {
        den
    };
    if dabs < DEGEN_DEN as i128 {
        return ;
    }

    let start_x = crate::fx::clamp_i64(crate::fx::fx_round(min3(s0.0, s1.0, s2.0)), 0, (width - 1) as i64) as i32;
    let end_x = crate::fx::clamp_i64(crate::fx::fx_round(max3(s0.0, s1.0, s2.0)), 0, (width - 1) as i64) as i32;
    let start_y = crate::fx::clamp_i64(crate::fx::fx_round(min3(s0.1, s1.1, s2.1)), 0, (height - 1) as i64) as i32;
    let end_y = crate::fx::clamp_i64(crate::fx::fx_round(max3(s0.1, s1.1, s2.1)), 0, (height - 1) as i64) as i32;

    let ghost w = width as int;
    let ghost h = height as int;
    let ghost z0 = z_buffer@;
    let ghost pix0 = fb.pixels@;
    proof {
        assert(0 <= start_x as int && end_x as int <= w - 1);
        assert(0 <= start_y as int && end_y as int <= h - 1);
        assert(raster_progress(
            z0,
            pix0,
            z_buffer@,
            fb.pixels@,
            *mode,
            s0,
            s1,
            s2,
            w,
            h,
            start_x as int,
            end_x as int,
            start_y as int,
            start_y as int,
            start_y as int,
            start_x as int,
        ));
    }

    let mut y = start_y;
    while y <= end_y
        invariant
            fb.wf(),
            fb.width == width as int,
            fb.height == height as int,
            z_buffer.len() == w * h,
            z0 == old(z_buffer)@,
            pix0 == old(fb).pixels@,
            z_buffer@.len() == z0.len(),
            fb.pixels@.len() == pix0.len(),
            w == width as int,
            h == height as int,
            1 <= width <= VIEW_MAX,
            1 <= height <= VIEW_MAX,
            p3_bounded(s0, RASTER_MAX as int),
            p3_bounded(s1, RASTER_MAX as int),
            p3_bounded(s2, RASTER_MAX as int),
            shade_mode_wf(*mode),
            abs_spec(tri_den_spec(s0, s1, s2)) >= DEGEN_DEN,
            (start_x as int, end_x as int, start_y as int, end_y as int) == tri_bbox_spec(
                s0,
                s1,
                s2,
                w,
                h,
            ),
            0 <= start_x as int && end_x as int <= w - 1,
            0 <= start_y as int && end_y as int <= h - 1,
            start_y <= y,
            y <= end_y + 1,
            raster_progress(
                z0,
                pix0,
                z_buffer@,
                fb.pixels@,
                *mode,
                s0,
                s1,
                s2,
                w,
                h,
                start_x as int,
                end_x as int,
                start_y as int,
                y as int,
                y as int,
                start_x as int,
            ),
        decreases end_y + 1 - y,
    {
        let mut x = start_x;
        while x <= end_x
            invariant
                fb.wf(),
                fb.width == width as int,
                fb.height == height as int,
                z_buffer.len() == w * h,
                z0 == old(z_buffer)@,
                pix0 == old(fb).pixels@,
                z_buffer@.len() == z0.len(),
                fb.pixels@.len() == pix0.len(),
                w == width as int,
                h == height as int,
                1 <= width <= VIEW_MAX,
                1 <= height <= VIEW_MAX,
                p3_bounded(s0, RASTER_MAX as int),
                p3_bounded(s1, RASTER_MAX as int),
                p3_bounded(s2, RASTER_MAX as int),
                shade_mode_wf(*mode),
                abs_spec(tri_den_spec(s0, s1, s2)) >= DEGEN_DEN,
                (start_x as int, end_x as int, start_y as int, end_y as int) == tri_bbox_spec(
                    s0,
                    s1,
                    s2,
                    w,
                    h,
                ),
                0 <= start_x as int && end_x as int <= w - 1,
                0 <= start_y as int && end_y as int <= h - 1,
                start_y <= y <= end_y,
                start_x <= x,
                x <= end_x + 1,
                raster_progress(
                    z0,
                    pix0,
                    z_buffer@,
                    fb.pixels@,
                    *mode,
                    s0,
                    s1,
                    s2,
                    w,
                    h,
                    start_x as int,
                    end_x as int,
                    start_y as int,
                    y as int,
                    y as int,
                    x as int,
                ),
            decreases end_x + 1 - x,
        {
            let ghost z_pre = z_buffer@;
            let ghost pix_pre = fb.pixels@;
            proof {
                lemma_rowmajor(x as int, y as int, w, h);
            }
            let ghost i0 = y as int * w + x as int;
            proof {
                assert(!in_region(
                    w,
                    start_x as int,
                    end_x as int,
                    start_y as int,
                    y as int,
                    y as int,
                    x as int,
                    i0,
                ));
                assert(cell_untouched(z0, pix0, z_pre, pix_pre, i0));
            }
            process_pixel(s0, s1, s2, mode, fb, z_buffer, x, y, width, height);
            proof {
                assert forall|i: int|
                    0 <= i < w * h && i != i0 implies (z_buffer@[i] == z_pre[i] && fb.pixels@[3 * i]
                    == pix_pre[3 * i] && fb.pixels@[3 * i + 1] == pix_pre[3 * i + 1]
                    && fb.pixels@[3 * i + 2] == pix_pre[3 * i + 2]) by {
                    assert(3 * i != 3 * i0 && 3 * i != 3 * i0 + 1 && 3 * i != 3 * i0 + 2);
                    assert(3 * i + 1 != 3 * i0 && 3 * i + 1 != 3 * i0 + 1 && 3 * i + 1 != 3 * i0
                        + 2);
                    assert(3 * i + 2 != 3 * i0 && 3 * i + 2 != 3 * i0 + 1 && 3 * i + 2 != 3 * i0
                        + 2);
                }
                assert(tri_covers_spec(s0, s1, s2, w, h, x as int, y as int)
                    <==> (tri_w0_spec(s0, s1, s2, x as int, y as int) >= BARY_EPS && tri_w1_spec(
                    s0,
                    s1,
                    s2,
                    x as int,
                    y as int,
                ) >= BARY_EPS && tri_w2_spec(s0, s1, s2, x as int, y as int) >= BARY_EPS));
                assert(cell_done(z0, pix0, z_buffer@, fb.pixels@, *mode, s0, s1, s2, w, h, i0));
                assert forall|i: int|
                    #![trigger in_region(w, start_x as int, end_x as int, start_y as int, y as int, y as int, x as int + 1, i)]
                    0 <= i < w * h implies if in_region(
                    w,
                    start_x as int,
                    end_x as int,
                    start_y as int,
                    y as int,
                    y as int,
                    x as int + 1,
                    i,
                ) {
                    cell_done(z0, pix0, z_buffer@, fb.pixels@, *mode, s0, s1, s2, w, h, i)
                } else {
                    cell_untouched(z0, pix0, z_buffer@, fb.pixels@, i)
                } by {
                    vstd::arithmetic::div_mod::lemma_fundamental_div_mod(i, w);
                    vstd::arithmetic::div_mod::lemma_mod_bound(i, w);
                    if i != i0 {
                        if i % w == x as int && i / w == y as int {
                            assert(i == w * (y as int) + x as int);
                            assert(i == i0);
                        }
                        assert(in_region(
                            w,
                            start_x as int,
                            end_x as int,
                            start_y as int,
                            y as int,
                            y as int,
                            x as int + 1,
                            i,
                        ) == in_region(
                            w,
                            start_x as int,
                            end_x as int,
                            start_y as int,
                            y as int,
                            y as int,
                            x as int,
                            i,
                        ));
                    }
                }
                assert(raster_progress(
                    z0,
                    pix0,
                    z_buffer@,
                    fb.pixels@,
                    *mode,
                    s0,
                    s1,
                    s2,
                    w,
                    h,
                    start_x as int,
                    end_x as int,
                    start_y as int,
                    y as int,
                    y as int,
                    x as int + 1,
                ));
            }
            x = x + 1;
        }
        proof {
            assert forall|i: int|
                #![trigger in_region(w, start_x as int, end_x as int, start_y as int, y as int + 1, y as int + 1, start_x as int, i)]
                0 <= i < w * h implies if in_region(
                w,
                start_x as int,
                end_x as int,
                start_y as int,
                y as int + 1,
                y as int + 1,
                start_x as int,
                i,
            ) {
                cell_done(z0, pix0, z_buffer@, fb.pixels@, *mode, s0, s1, s2, w, h, i)
            } else {
                cell_untouched(z0, pix0, z_buffer@, fb.pixels@, i)
            } by {
                vstd::arithmetic::div_mod::lemma_fundamental_div_mod(i, w);
                vstd::arithmetic::div_mod::lemma_mod_bound(i, w);
                assert(in_region(
                    w,
                    start_x as int,
                    end_x as int,
                    start_y as int,
                    y as int + 1,
                    y as int + 1,
                    start_x as int,
                    i,
                ) == in_region(
                    w,
                    start_x as int,
                    end_x as int,
                    start_y as int,
                    y as int,
                    y as int,
                    x as int,
                    i,
                ));
            }
            assert(raster_progress(
                z0,
                pix0,
                z_buffer@,
                fb.pixels@,
                *mode,
                s0,
                s1,
                s2,
                w,
                h,
                start_x as int,
                end_x as int,
                start_y as int,
                y as int + 1,
                y as int + 1,
                start_x as int,
            ));
        }
        y = y + 1;
    }
    proof {
        assert forall|i: int| 0 <= i < w * h implies cell_done(
            z0,
            pix0,
            z_buffer@,
            fb.pixels@,
            *mode,
            s0,
            s1,
            s2,
            w,
            h,
            i,
        ) by {
            vstd::arithmetic::div_mod::lemma_mod_bound(i, w);
            vstd::arithmetic::div_mod::lemma_fundamental_div_mod(i, w);
            assert(0 <= i / w < h) by (nonlinear_arith)
                requires
                    0 <= i < w * h,
                    w >= 1,
                    i == w * (i / w) + i % w,
                    0 <= i % w < w,
            ;
            if in_region(
                w,
                start_x as int,
                end_x as int,
                start_y as int,
                y as int,
                y as int,
                start_x as int,
                i,
            ) {
            } else {
                assert(!tri_covers_spec(s0, s1, s2, w, h, i % w, i / w));
            }
        }
        assert forall|i: int| 0 <= i < w * h implies #[trigger] z_buffer@[i] == raster_cell_z(
            z0,
            s0,
            s1,
            s2,
            w,
            h,
            i,
        ) by {
            assert(cell_done(z0, pix0, z_buffer@, fb.pixels@, *mode, s0, s1, s2, w, h, i));
        }
        assert forall|i: int|
            0 <= i < w * h && raster_cell_written(z0, s0, s1, s2, w, h, i) implies {
            let c = raster_cell_color(*mode, s0, s1, s2, w, i);
            #[trigger] fb.pixels@[3 * i] == c.0 && fb.pixels@[3 * i + 1] == c.1 && fb.pixels@[3 * i
                + 2] == c.2
        } by {
            assert(cell_done(z0, pix0, z_buffer@, fb.pixels@, *mode, s0, s1, s2, w, h, i));
        }
        assert forall|i: int|
            0 <= i < w * h && !raster_cell_written(z0, s0, s1, s2, w, h, i) implies {
            #[trigger] fb.pixels@[3 * i] == pix0[3 * i] && fb.pixels@[3 * i + 1] == pix0[3 * i + 1]
                && fb.pixels@[3 * i + 2] == pix0[3 * i + 2]
        } by {
            assert(cell_done(z0, pix0, z_buffer@, fb.pixels@, *mode, s0, s1, s2, w, h, i));
        }
    }
}

/// The depth buffer after one triangle is rasterized, as a pure function.
pub open spec fn raster_apply_z(
    z: Seq<i64>,
    s0: (i64, i64, i64),
    s1: (i64, i64, i64),
    s2: (i64, i64, i64),
    w: int,
    h: int,
) -> Seq<i64> {
    Seq::new(z.len(), |i: int| raster_cell_z(z, s0, s1, s2, w, h, i))
}

/// The pixel bytes after one triangle is rasterized, as a pure function.
pub open spec fn raster_apply_pix(
    z: Seq<i64>,
    pix: Seq<u8>,
    m: ShadeMode,
    s0: (i64, i64, i64),
    s1: (i64, i64, i64),
    s2: (i64, i64, i64),
    w: int,
    h: int,
) -> Seq<u8> {
    Seq::new(
        pix.len(),
        |k: int|
            if raster_cell_written(z, s0, s1, s2, w, h, k / 3) {
                let c = raster_cell_color(m, s0, s1, s2, w, k / 3);
                if k % 3 == 0 {
                    c.0
                } else if k % 3 == 1 {
                    c.1
                } else {
                    c.2
                }
            } else {
                pix[k]
            },
    )
}

/// A state satisfying `raster_post` is exactly the pure application of the
/// triangle to the old state.
pub proof fn lemma_raster_post_is_apply(
    z0: Seq<i64>,
    pix0: Seq<u8>,
    z1: Seq<i64>,
    pix1: Seq<u8>,
    m: ShadeMode,
    s0: (i64, i64, i64),
    s1: (i64, i64, i64),
    s2: (i64, i64, i64),
    w: int,
    h: int,
)
    requires
        raster_post(z0, pix0, z1, pix1, m, s0, s1, s2, w, h),
        z0.len() == w * h,
        pix0.len() == 3 * (w * h),
        w >= 1,
        h >= 1,
    ensures
        z1 == raster_apply_z(z0, s0, s1, s2, w, h),
        pix1 == raster_apply_pix(z0, pix0, m, s0, s1, s2, w, h),
{
    assert forall|i: int| 0 <= i < z1.len() implies z1[i] == raster_apply_z(
        z0,
        s0,
        s1,
        s2,
        w,
        h,
    )[i] by {
        assert(0 <= i < w * h);
        assert(z1[i] == raster_cell_z(z0, s0, s1, s2, w, h, i));
        assert(raster_apply_z(z0, s0, s1, s2, w, h)[i] == raster_cell_z(z0, s0, s1, s2, w, h, i));
    }
    assert(z1 =~= raster_apply_z(z0, s0, s1, s2, w, h));
    assert forall|k: int| 0 <= k < pix1.len() implies pix1[k] == raster_apply_pix(
        z0,
        pix0,
        m,
        s0,
        s1,
        s2,
        w,
        h,
    )[k] by {
        vstd::arithmetic::div_mod::lemma_fundamental_div_mod(k, 3);
        vstd::arithmetic::div_mod::lemma_mod_bound(k, 3);
        let i = k / 3;
        assert(0 <= i < w * h) by (nonlinear_arith)
            requires
                0 <= k < 3 * (w * h),
                k == 3 * (k / 3) + k % 3,
                0 <= k % 3 < 3,
                i == k / 3,
        ;
        assert(k == 3 * i + k % 3);
        assert(pix1[3 * (k / 3)] == pix1[3 * i] && pix1[3 * (k / 3) + 1] == pix1[3 * i + 1]
            && pix1[3 * (k / 3) + 2] == pix1[3 * i + 2]);
        let r = k % 3;
        if raster_cell_written(z0, s0, s1, s2, w, h, i) {
            let c = raster_cell_color(m, s0, s1, s2, w, i);
            assert(pix1[3 * i] == c.0 && pix1[3 * i + 1] == c.1 && pix1[3 * i + 2] == c.2);
            if r == 0 {
                assert(k == 3 * i);
            } else if r == 1 {
                assert(k == 3 * i + 1);
            } else {
                assert(k == 3 * i + 2);
            }
        } else {
            assert(pix1[3 * i] == pix0[3 * i] && pix1[3 * i + 1] == pix0[3 * i + 1] && pix1[3 * i
                + 2] == pix0[3 * i + 2]);
            if r == 0 {
                assert(k == 3 * i);
            } else if r == 1 {
                assert(k == 3 * i + 1);
            } else {
                assert(k == 3 * i + 2);
            }
        }
    }
    assert(pix1 =~= raster_apply_pix(z0, pix0, m, s0, s1, s2, w, h));
}

/// Fills the triangle `p` into the surface: for every covered pixel whose
/// interpolated inverse depth is at least the stored one, the depth buffer
/// takes the interpolated depth and the pixel takes the barycentric
/// interpolation of the three vertex colors.
pub fn draw_triangle_shaded(
    p: [Vec3WithColor; 3],
    fb: &mut FrameBuffer,
    z_buffer: &mut Vec<i64>,
    width: i32,
    height: i32,
)
    requires
        old(fb).wf(),
        old(fb).width == width as int,
        old(fb).height == height as int,
        old(z_buffer).len() == width as int * height as int,
        1 <= width <= VIEW_MAX,
        1 <= height <= VIEW_MAX,
        p3_bounded((p[0].x, p[0].y, p[0].z), RASTER_MAX as int),
        p3_bounded((p[1].x, p[1].y, p[1].z), RASTER_MAX as int),
        p3_bounded((p[2].x, p[2].y, p[2].z), RASTER_MAX as int),
    ensures
        final(fb).wf(),
        final(fb).width == old(fb).width,
        final(fb).height == old(fb).height,
        final(z_buffer).len() == old(z_buffer).len(),
        raster_post(
            old(z_buffer)@,
            old(fb).pixels@,
            final(z_buffer)@,
            final(fb).pixels@,
            ShadeMode::Resolved { colors: (p[0].c, p[1].c, p[2].c) },
            (p[0].x, p[0].y, p[0].z),
            (p[1].x, p[1].y, p[1].z),
            (p[2].x, p[2].y, p[2].z),
            width as int,
            height as int,
        ),
{
    let s0 = (p[0].x, p[0].y, p[0].z);
    let s1 = (p[1].x, p[1].y, p[1].z);
    let s2 = (p[2].x, p[2].y, p[2].z);
    let mode = ShadeMode::Resolved { colors: (p[0].c, p[1].c, p[2].c) };
    raster_triangle(s0, s1, s2, &mode, fb, z_buffer, width, height);
}

/// Fills a triangle with per-pixel Blinn-Phong shading: `vertices` are the
/// projected screen positions with inverse depth, `world_pos` and `normals`
/// the world-space data interpolated per pixel and shaded with the
/// material, light direction and eye position.
pub fn draw_phong_triangle(
    fb: &mut FrameBuffer,
    z_buffer: &mut Vec<i64>,
    vertices: [Point3d; 3],
    world_pos: [Point3d; 3],
    normals: [Vec3; 3],
    material: &Material,
    light_dir: Vec3,
    eye: Point3d,
    width: i32,
    height: i32,
)
    requires
        old(fb).wf(),
        old(fb).width == width as int,
        old(fb).height == height as int,
        old(z_buffer).len() == width as int * height as int,
        1 <= width <= VIEW_MAX,
        1 <= height <= VIEW_MAX,
        p3_bounded(vertices[0], RASTER_MAX as int),
        p3_bounded(vertices[1], RASTER_MAX as int),
        p3_bounded(vertices[2], RASTER_MAX as int),
        p3_bounded(world_pos[0], SCENE_MAX as int),
        p3_bounded(world_pos[1], SCENE_MAX as int),
        p3_bounded(world_pos[2], SCENE_MAX as int),
        vec3_bounded(normals[0], SCENE_MAX as int),
        vec3_bounded(normals[1], SCENE_MAX as int),
        vec3_bounded(normals[2], SCENE_MAX as int),
        material.wf(),
        vec3_bounded(light_dir, crate::math_3d::vec3::VEC_LEN_MAX as int),
        p3_bounded(eye, SCENE_MAX as int),
    ensures
        final(fb).wf(),
        final(fb).width == old(fb).width,
        final(fb).height == old(fb).height,
        final(z_buffer).len() == old(z_buffer).len(),
        raster_post(
            old(z_buffer)@,
            old(fb).pixels@,
            final(z_buffer)@,
            final(fb).pixels@,
            ShadeMode::Deferred {
                world: (world_pos[0], world_pos[1], world_pos[2]),
                normals: (normals[0], normals[1], normals[2]),
                material: *material,
                light_dir: light_dir,
                eye: eye,
            },
            vertices[0],
            vertices[1],
            vertices[2],
            width as int,
            height as int,
        ),
{
    let mode = ShadeMode::Deferred {
        world: (world_pos[0], world_pos[1], world_pos[2]),
        normals: (normals[0], normals[1], normals[2]),
        material: *material,
        light_dir: light_dir,
        eye: eye,
    };
    raster_triangle(vertices[0], vertices[1], vertices[2], &mode, fb, z_buffer, width, height);
}

// ---------------------------------------------------------------------
// Per-model driving loops: transform, cull, shade, project, fan.
// ---------------------------------------------------------------------

/// One vertex of a mesh face: a position and an optional normal.
#[derive(Clone, Copy)]
pub struct MeshVertex {
    pub pos: Point3d,
    pub normal: Option<Vec3>,
}

/// One named object of a model: a list of faces, each an ordered list of
/// three or more vertices.
pub struct MeshObject {
    pub faces: Vec<Vec<MeshVertex>>,
}

/// A whole model: its objects in order.
pub struct MeshModel {
    pub objects: Vec<MeshObject>,
}

/// The vertex's coordinates and normal fit the scene bound.
pub open spec fn mesh_vertex_wf(v: MeshVertex) -> bool {
    &&& p3_bounded(v.pos, SCENE_MAX as int)
    &&& (v.normal is Some ==> vec3_bounded(v.normal.unwrap(), SCENE_MAX as int))
}

pub open spec fn mesh_face_wf(f: Seq<MeshVertex>) -> bool {
    forall|i: int| 0 <= i < f.len() ==> mesh_vertex_wf(#[trigger] f[i])
}

pub open spec fn mesh_object_wf(o: MeshObject) -> bool {
    forall|i: int| 0 <= i < o.faces.len() ==> mesh_face_wf(#[trigger] o.faces[i]@)
}

pub open spec fn mesh_model_wf(m: MeshModel) -> bool {
    forall|i: int| 0 <= i < m.objects.len() ==> mesh_object_wf(#[trigger] m.objects[i])
}

/// All transforms of a chain fit the transform bounds.
pub open spec fn transforms_wf(ts: Seq<Transform>) -> bool {
    forall|i: int| 0 <= i < ts.len() ==> (#[trigger] ts[i]).wf()
}

/// The vertex's normal, or the fixed upward default where the mesh
/// carries none.
pub open spec fn normal_or_default(v: MeshVertex) -> Vec3 {
    match v.normal {
        Some(n) => n,
        None => Vec3 { x: 0, y: 65536, z: 0 },
    }
}

/// A point taken through the transforms from index `k` on. A step whose
/// result leaves the scene bound yields `None`, and the vertex's face is
/// dropped, like one that fails projection.
pub open spec fn chain_point_spec(p: (i64, i64, i64), ts: Seq<Transform>, k: int) -> Option<
    (i64, i64, i64),
>
    decreases ts.len() - k,
{
    if k < 0 || k >= ts.len() {
        Some(p)
    } else {
        let q = Transform::transform_point_spec((p.0 as int, p.1 as int, p.2 as int), ts[k]);
        if abs_spec(q.0) <= SCENE_MAX as int && abs_spec(q.1) <= SCENE_MAX as int && abs_spec(q.2)
            <= SCENE_MAX as int {
            chain_point_spec((q.0 as i64, q.1 as i64, q.2 as i64), ts, k + 1)
        } else {
            None
        }
    }
}

/// A direction taken through the transforms from index `k` on; each step
/// re-normalizes, so no step can leave the scene bound.
pub open spec fn chain_dir_spec(v: Vec3, ts: Seq<Transform>, k: int) -> Vec3
    decreases ts.len() - k,
{
    if k < 0 || k >= ts.len() {
        v
    } else {
        chain_dir_spec(Transform::transform_vec3_spec(v, ts[k]), ts, k + 1)
    }
}

/// Applies the whole transform chain to a point, or `None` when a step
/// leaves the scene bound.
pub fn apply_transforms(p: Point3d, transforms: &Vec<Transform>) -> (r: Option<Point3d>)
    requires
        p3_bounded(p, SCENE_MAX as int),
        transforms_wf(transforms@),
    ensures
        r == chain_point_spec(p, transforms@, 0),
        r is Some ==> p3_bounded(r.unwrap(), SCENE_MAX as int),
{
    let mut cur = p;
    let mut k: usize = 0;
    let n = transforms.len();
    while k < n
        invariant
            k <= n,
            n == transforms.len(),
            transforms_wf(transforms@),
            p3_bounded(cur, SCENE_MAX as int),
            chain_point_spec(p, transforms@, 0) == chain_point_spec(cur, transforms@, k as int),
        decreases n - k,
    {
        let q = Transform::transform_point(cur, &transforms[k]);
        if q.0 < -SCENE_MAX || q.0 > SCENE_MAX || q.1 < -SCENE_MAX || q.1 > SCENE_MAX || q.2
            < -SCENE_MAX || q.2 > SCENE_MAX {
            return None;
        }
        cur = q;
        k = k + 1;
    }
    Some(cur)
}

/// Applies the whole transform chain to a direction.
pub fn apply_transforms_dir(v: Vec3, transforms: &Vec<Transform>) -> (r: Vec3)
    requires
        vec3_bounded(v, SCENE_MAX as int),
        transforms_wf(transforms@),
    ensures
        r == chain_dir_spec(v, transforms@, 0),
        vec3_bounded(r, SCENE_MAX as int),
{
    let mut cur = v;
    let mut k: usize = 0;
    let n = transforms.len();
    while k < n
        invariant
            k <= n,
            n == transforms.len(),
            transforms_wf(transforms@),
            vec3_bounded(cur, SCENE_MAX as int),
            chain_dir_spec(v, transforms@, 0) == chain_dir_spec(cur, transforms@, k as int),
        decreases n - k,
    {
        cur = Transform::transform_vec3(cur, &transforms[k]);
        k = k + 1;
    }
    cur
}

/// The transformed position of the face's `i`-th vertex.
pub open spec fn world_point_at(face: Seq<MeshVertex>, ts: Seq<Transform>, i: int) -> Option<
    (i64, i64, i64),
> {
    chain_point_spec(face[i].pos, ts, 0)
}

/// The transformed normal of the face's `i`-th vertex.
pub open spec fn world_normal_at(face: Seq<MeshVertex>, ts: Seq<Transform>, i: int) -> Vec3 {
    chain_dir_spec(normal_or_default(face[i]), ts, 0)
}

/// Every vertex of the face transforms without leaving the scene bound.
pub open spec fn all_points_ok(face: Seq<MeshVertex>, ts: Seq<Transform>) -> bool {
    forall|i: int| 0 <= i < face.len() ==> (#[trigger] world_point_at(face, ts, i)) is Some
}

/// Back-face culling: the face's geometric normal (from its first three
/// vertices) makes a non-positive dot product with the vector from its
/// first vertex toward the eye.
pub open spec fn face_culled(
    wp0: (i64, i64, i64),
    wp1: (i64, i64, i64),
    wp2: (i64, i64, i64),
    eye: (i64, i64, i64),
) -> bool {
    let n = calculate_normal_spec(wp0, wp1, wp2);
    let view = Vec3 {
        x: (eye.0 - wp0.0) as i64,
        y: (eye.1 - wp0.1) as i64,
        z: (eye.2 - wp0.2) as i64,
    };
    n.dot_spec(view) <= 0
}

/// The resolved Gouraud color of one vertex: the reflectance model with
/// the vector toward the eye, converted to a byte color.
pub open spec fn vertex_color_spec(
    p: (i64, i64, i64),
    n: Vec3,
    light: Vec3,
    eye: (i64, i64, i64),
    m: Material,
) -> Color {
    let v = (Vec3 {
        x: (eye.0 - p.0) as i64,
        y: (eye.1 - p.1) as i64,
        z: (eye.2 - p.2) as i64,
    }).normalize_spec();
    let i = intensity_spec(n, light, v, m);
    (intensity_byte_spec(i.0) as u8, intensity_byte_spec(i.1) as u8, intensity_byte_spec(i.2) as u8)
}

/// The screen vertex of a successful projection: whole-pixel x and y in
/// Q16.16, and the inverse depth.
pub open spec fn screen_of(s: (i32, i32, i64)) -> (i64, i64, i64) {
    ((s.0 as int * 65536) as i64, (s.1 as int * 65536) as i64, s.2)
}

/// Fan triangulation with resolved colors: rasterizing the triangles
/// `(0, k, k+1)` for `k` from 1, threading the depth buffer and pixels.
pub open spec fn fan_resolved(
    z: Seq<i64>,
    pix: Seq<u8>,
    scr: Seq<(i64, i64, i64)>,
    cols: Seq<Color>,
    w: int,
    h: int,
    k: int,
) -> (Seq<i64>, Seq<u8>)
    decreases scr.len() - k,
{
    if k < 1 || k + 1 >= scr.len() {
        (z, pix)
    } else {
        let m = ShadeMode::Resolved { colors: (cols[0], cols[k], cols[k + 1]) };
        let z2 = raster_apply_z(z, scr[0], scr[k], scr[k + 1], w, h);
        let pix2 = raster_apply_pix(z, pix, m, scr[0], scr[k], scr[k + 1], w, h);
        fan_resolved(z2, pix2, scr, cols, w, h, k + 1)
    }
}

/// Fan triangulation with deferred Phong shading over world data.
pub open spec fn fan_deferred(
    z: Seq<i64>,
    pix: Seq<u8>,
    scr: Seq<(i64, i64, i64)>,
    wp: Seq<(i64, i64, i64)>,
    wn: Seq<Vec3>,
    m: Material,
    light: Vec3,
    eye: (i64, i64, i64),
    w: int,
    h: int,
    k: int,
) -> (Seq<i64>, Seq<u8>)
    decreases scr.len() - k,
{
    if k < 1 || k + 1 >= scr.len() {
        (z, pix)
    } else {
        let mode = ShadeMode::Deferred {
            world: (wp[0], wp[k], wp[k + 1]),
            normals: (wn[0], wn[k], wn[k + 1]),
            material: m,
            light_dir: light,
            eye: eye,
        };
        let z2 = raster_apply_z(z, scr[0], scr[k], scr[k + 1], w, h);
        let pix2 = raster_apply_pix(z, pix, mode, scr[0], scr[k], scr[k + 1], w, h);
        fan_deferred(z2, pix2, scr, wp, wn, m, light, eye, w, h, k + 1)
    }
}

/// What one face contributes under Gouraud shading. The first component
/// says whether the face stops the whole model loop (fewer than three
/// vertices); a face that fails a transform bound, is back-facing, or has
/// a vertex that fails projection contributes nothing.
pub open spec fn face_gouraud_spec(
    z: Seq<i64>,
    pix: Seq<u8>,
    face: Seq<MeshVertex>,
    ts: Seq<Transform>,
    m: Material,
    eye: (i64, i64, i64),
    target: (i64, i64, i64),
    light: Vec3,
    focal: i64,
    wpx: int,
    hpx: int,
) -> (bool, Seq<i64>, Seq<u8>) {
    if face.len() < 3 {
        (true, z, pix)
    } else if !all_points_ok(face, ts) {
        (false, z, pix)
    } else {
        let wp = Seq::new(face.len(), |i: int| world_point_at(face, ts, i).unwrap());
        let wn = Seq::new(face.len(), |i: int| world_normal_at(face, ts, i));
        if face_culled(wp[0], wp[1], wp[2], eye) {
            (false, z, pix)
        } else {
            let cols = Seq::new(face.len(), |i: int| vertex_color_spec(wp[i], wn[i], light, eye, m));
            let projs = Seq::new(
                face.len(),
                |i: int|
                    project_look_at_spec(
                        wp[i],
                        eye,
                        target,
                        focal,
                        (wpx * 65536) as i64,
                        (hpx * 65536) as i64,
                    ),
            );
            if exists|i: int| 0 <= i < face.len() && (#[trigger] projs[i]) is None {
                (false, z, pix)
            } else {
                let scr = Seq::new(face.len(), |i: int| screen_of(projs[i].unwrap()));
                let st = fan_resolved(z, pix, scr, cols, wpx, hpx, 1);
                (false, st.0, st.1)
            }
        }
    }
}

/// What one face contributes under Phong shading: as for Gouraud, but each
/// vertex is projected up front and the fan defers shading to the
/// rasterizer's per-pixel reflectance evaluation.
pub open spec fn face_phong_spec(
    z: Seq<i64>,
    pix: Seq<u8>,
    face: Seq<MeshVertex>,
    ts: Seq<Transform>,
    m: Material,
    eye: (i64, i64, i64),
    target: (i64, i64, i64),
    light: Vec3,
    focal: i64,
    wpx: int,
    hpx: int,
) -> (bool, Seq<i64>, Seq<u8>) {
    if face.len() < 3 {
        (true, z, pix)
    } else if !all_points_ok(face, ts) {
        (false, z, pix)
    } else {
        let wp = Seq::new(face.len(), |i: int| world_point_at(face, ts, i).unwrap());
        let wn = Seq::new(face.len(), |i: int| world_normal_at(face, ts, i));
        let projs = Seq::new(
            face.len(),
            |i: int|
                project_look_at_spec(
                    wp[i],
                    eye,
                    target,
                    focal,
                    (wpx * 65536) as i64,
                    (hpx * 65536) as i64,
                ),
        );
        if exists|i: int| 0 <= i < face.len() && (#[trigger] projs[i]) is None {
            (false, z, pix)
        } else if face_culled(wp[0], wp[1], wp[2], eye) {
            (false, z, pix)
        } else {
            let scr = Seq::new(face.len(), |i: int| screen_of(projs[i].unwrap()));
            let st = fan_deferred(z, pix, scr, wp, wn, m, light, eye, wpx, hpx, 1);
            (false, st.0, st.1)
        }
    }
}

/// The whole object under Gouraud shading, face by face from index `k`; a
/// face with fewer than three vertices stops the loop.
pub open spec fn object_gouraud_spec(
    z: Seq<i64>,
    pix: Seq<u8>,
    faces: Seq<Vec<MeshVertex>>,
    ts: Seq<Transform>,
    m: Material,
    eye: (i64, i64, i64),
    target: (i64, i64, i64),
    light: Vec3,
    focal: i64,
    wpx: int,
    hpx: int,
    k: int,
) -> (Seq<i64>, Seq<u8>)
    decreases faces.len() - k,
{
    if k < 0 || k >= faces.len() {
        (z, pix)
    } else {
        let st = face_gouraud_spec(z, pix, faces[k]@, ts, m, eye, target, light, focal, wpx, hpx);
        if st.0 {
            (st.1, st.2)
        } else {
            object_gouraud_spec(st.1, st.2, faces, ts, m, eye, target, light, focal, wpx, hpx, k + 1)
        }
    }
}

/// The whole object under Phong shading, face by face from index `k`.
pub open spec fn object_phong_spec(
    z: Seq<i64>,
    pix: Seq<u8>,
    faces: Seq<Vec<MeshVertex>>,
    ts: Seq<Transform>,
    m: Material,
    eye: (i64, i64, i64),
    target: (i64, i64, i64),
    light: Vec3,
    focal: i64,
    wpx: int,
    hpx: int,
    k: int,
) -> (Seq<i64>, Seq<u8>)
    decreases faces.len() - k,
{
    if k < 0 || k >= faces.len() {
        (z, pix)
    } else {
        let st = face_phong_spec(z, pix, faces[k]@, ts, m, eye, target, light, focal, wpx, hpx);
        if st.0 {
            (st.1, st.2)
        } else {
            object_phong_spec(st.1, st.2, faces, ts, m, eye, target, light, focal, wpx, hpx, k + 1)
        }
    }
}

/// Takes every vertex position of a face through the transform chain;
/// `None` when any vertex leaves the scene bound.
fn transform_face_points(face: &Vec<MeshVertex>, transforms: &Vec<Transform>) -> (r: Option<
    Vec<Point3d>,
>)
    requires
        mesh_face_wf(face@),
        transforms_wf(transforms@),
    ensures
        match r {
            Some(v) => {
                &&& all_points_ok(face@, transforms@)
                &&& v@.len() == face@.len()
                &&& forall|i: int|
                    0 <= i < face@.len() ==> #[trigger] world_point_at(face@, transforms@, i)
                        == Some(v@[i]) && p3_bounded(v@[i], SCENE_MAX as int)
            },
            None => !all_points_ok(face@, transforms@),
        },
{
    let fsz = face.len();
    let mut out: Vec<Point3d> = Vec::new();
    let mut j: usize = 0;
    while j < fsz
        invariant
            j <= fsz,
            fsz == face.len(),
            mesh_face_wf(face@),
            transforms_wf(transforms@),
            out.len() == j,
            forall|i: int|
                0 <= i < j ==> #[trigger] world_point_at(face@, transforms@, i) == Some(out@[i])
                    && p3_bounded(out@[i], SCENE_MAX as int),
        decreases fsz - j,
    {
        let v = face[j];
        match apply_transforms(v.pos, transforms) {
            Some(p) => {
                out.push(p);
            },
            None => {
                proof {
                    assert(world_point_at(face@, transforms@, j as int) is None);
                }
                return None;
            },
        }
        j = j + 1;
    }
    Some(out)
}

/// Takes every vertex normal of a face (or the upward default) through the
/// transform chain.
#[verifier::rlimit(30)]
fn transform_face_normals(face: &Vec<MeshVertex>, transforms: &Vec<Transform>) -> (r: Vec<Vec3>)
    requires
        mesh_face_wf(face@),
        transforms_wf(transforms@),
    ensures
        r@.len() == face@.len(),
        forall|i: int|
            0 <= i < face@.len() ==> #[trigger] world_normal_at(face@, transforms@, i) == r@[i]
                && vec3_bounded(r@[i], SCENE_MAX as int),
{
    let fsz = face.len();
    let mut out: Vec<Vec3> = Vec::new();
    let mut j: usize = 0;
    while j < fsz
        invariant
            j <= fsz,
            fsz == face.len(),
            mesh_face_wf(face@),
            transforms_wf(transforms@),
            out.len() == j,
            forall|i: int|
                0 <= i < j ==> #[trigger] world_normal_at(face@, transforms@, i) == out@[i]
                    && vec3_bounded(out@[i], SCENE_MAX as int),
        decreases fsz - j,
    {
        let v = face[j];
        proof {
            assert(mesh_vertex_wf(face@[j as int]));
        }
        let n = match v.normal {
            Some(ne) => ne,
            None => Vec3 { x: 0, y: 65536, z: 0 },
        };
        proof {
            assert(n == normal_or_default(face@[j as int]));
        }
        let wn = apply_transforms_dir(n, transforms);
        proof {
            assert(wn == world_normal_at(face@, transforms@, j as int));
        }
        out.push(wn);
        proof {
            assert(out@[j as int] == wn);
        }
        j = j + 1;
    }
    out
}

/// Resolves the Gouraud color of every vertex from the reflectance model.
fn shade_vertices(
    world_points: &Vec<Point3d>,
    world_normals: &Vec<Vec3>,
    light_dir: Vec3,
    eye: Point3d,
    material: &Material,
) -> (r: Vec<Color>)
    requires
        world_points.len() == world_normals.len(),
        forall|i: int|
            0 <= i < world_points.len() ==> p3_bounded(
                #[trigger] world_points@[i],
                SCENE_MAX as int,
            ),
        forall|i: int|
            0 <= i < world_normals.len() ==> vec3_bounded(
                #[trigger] world_normals@[i],
                SCENE_MAX as int,
            ),
        p3_bounded(eye, SCENE_MAX as int),
        vec3_bounded(light_dir, crate::math_3d::vec3::VEC_LEN_MAX as int),
        material.wf(),
    ensures
        r@.len() == world_points@.len(),
        forall|i: int|
            0 <= i < world_points@.len() ==> #[trigger] r@[i] == vertex_color_spec(
                world_points@[i],
                world_normals@[i],
                light_dir,
                eye,
                *material,
            ),
{
    let n = world_points.len();
    let eye_vec = Vec3::new_from_point3d(eye);
    let mut out: Vec<Color> = Vec::new();
    let mut j: usize = 0;
    while j < n
        invariant
            j <= n,
            n == world_points.len() == world_normals.len(),
            eye_vec == (Vec3 { x: eye.0, y: eye.1, z: eye.2 }),
            p3_bounded(eye, SCENE_MAX as int),
            vec3_bounded(light_dir, crate::math_3d::vec3::VEC_LEN_MAX as int),
            material.wf(),
            forall|i: int|
                0 <= i < n ==> p3_bounded(#[trigger] world_points@[i], SCENE_MAX as int),
            forall|i: int|
                0 <= i < n ==> vec3_bounded(#[trigger] world_normals@[i], SCENE_MAX as int),
            out.len() == j,
            forall|i: int|
                0 <= i < j ==> #[trigger] out@[i] == vertex_color_spec(
                    world_points@[i],
                    world_normals@[i],
                    light_dir,
                    eye,
                    *material,
                ),
        decreases n - j,
    {
        let p_world = world_points[j];
        let n_world = world_normals[j];
        let v = eye_vec.sub(Vec3::new_from_point3d(p_world)).normalize();
        let rgb = calculate_intensity(n_world, light_dir, v, material);
        let color = intensity_to_color(rgb);
        out.push(color);
        j = j + 1;
    }
    out
}

/// Projects every world point onto the screen, yielding whole-pixel
/// coordinates in Q16.16 and the inverse depth; `None` as soon as one
/// vertex fails projection.
fn project_vertices(
    world_points: &Vec<Point3d>,
    eye: Point3d,
    target: Point3d,
    focal: i64,
    width: i32,
    height: i32,
) -> (r: Option<Vec<Point3d>>)
    requires
        forall|i: int|
            0 <= i < world_points.len() ==> p3_bounded(
                #[trigger] world_points@[i],
                SCENE_MAX as int,
            ),
        p3_bounded(eye, SCENE_MAX as int),
        p3_bounded(target, SCENE_MAX as int),
        abs_spec(focal as int) <= SCENE_MAX as int,
        1 <= width <= VIEW_MAX,
        1 <= height <= VIEW_MAX,
    ensures
        match r {
            Some(v) => {
                &&& v@.len() == world_points@.len()
                &&& forall|i: int|
                    0 <= i < world_points@.len() ==> {
                        let pr = #[trigger] project_look_at_spec(
                            world_points@[i],
                            eye,
                            target,
                            focal,
                            (width as int * 65536) as i64,
                            (height as int * 65536) as i64,
                        );
                        &&& pr is Some
                        &&& v@[i] == screen_of(pr.unwrap())
                        &&& p3_bounded(v@[i], RASTER_MAX as int)
                    }
            },
            None => exists|i: int|
                0 <= i < world_points@.len() && (#[trigger] project_look_at_spec(
                    world_points@[i],
                    eye,
                    target,
                    focal,
                    (width as int * 65536) as i64,
                    (height as int * 65536) as i64,
                )) is None,
        },
{
    let n = world_points.len();
    let wq: i64 = (width as i64) * 65536;
    let hq: i64 = (height as i64) * 65536;
    let mut out: Vec<Point3d> = Vec::new();
    let mut j: usize = 0;
    while j < n
        invariant
            j <= n,
            n == world_points.len(),
            wq == width as int * 65536,
            hq == height as int * 65536,
            1 <= width <= VIEW_MAX,
            1 <= height <= VIEW_MAX,
            p3_bounded(eye, SCENE_MAX as int),
            p3_bounded(target, SCENE_MAX as int),
            abs_spec(focal as int) <= SCENE_MAX as int,
            forall|i: int|
                0 <= i < n ==> p3_bounded(#[trigger] world_points@[i], SCENE_MAX as int),
            out.len() == j,
            forall|i: int|
                0 <= i < j ==> {
                    let pr = #[trigger] project_look_at_spec(
                        world_points@[i],
                        eye,
                        target,
                        focal,
                        (width as int * 65536) as i64,
                        (height as int * 65536) as i64,
                    );
                    &&& pr is Some
                    &&& out@[i] == screen_of(pr.unwrap())
                    &&& p3_bounded(out@[i], RASTER_MAX as int)
                },
        decreases n - j,
    {
        let pw = world_points[j];
        match project_look_at(pw, eye, target, focal, wq, hq) {
            Some(s) => {
                out.push(((s.0 as i64) * 65536, (s.1 as i64) * 65536, s.2));
            },
            None => {
                return None;
            },
        }
        j = j + 1;
    }
    Some(out)
}

/// Renders one Gouraud face: transform, cull, shade per vertex, project,
/// fan-triangulate and rasterize. Returns whether the face stops the model
/// loop (fewer than three vertices).
#[verifier::rlimit(60)]
fn face_gouraud(
    face: &Vec<MeshVertex>,
    transforms: &Vec<Transform>,
    material: &Material,
    eye: Point3d,
    target: Point3d,
    light_dir: Vec3,
    focal: i64,
    width: i32,
    height: i32,
    fb: &mut FrameBuffer,
    z_buffer: &mut Vec<i64>,
) -> (stop: bool)
    requires
        old(fb).wf(),
        old(fb).width == width as int,
        old(fb).height == height as int,
        old(z_buffer).len() == width as int * height as int,
        1 <= width <= VIEW_MAX,
        1 <= height <= VIEW_MAX,
        mesh_face_wf(face@),
        transforms_wf(transforms@),
        p3_bounded(eye, SCENE_MAX as int),
        p3_bounded(target, SCENE_MAX as int),
        abs_spec(focal as int) <= SCENE_MAX as int,
        vec3_bounded(light_dir, crate::math_3d::vec3::VEC_LEN_MAX as int),
        material.wf(),
    ensures
        final(fb).wf(),
        final(fb).width == old(fb).width,
        final(fb).height == old(fb).height,
        final(z_buffer).len() == old(z_buffer).len(),
        ({
            let st = face_gouraud_spec(
                old(z_buffer)@,
                old(fb).pixels@,
                face@,
                transforms@,
                *material,
                eye,
                target,
                light_dir,
                focal,
                width as int,
                height as int,
            );
            stop == st.0 && final(z_buffer)@ == st.1 && final(fb).pixels@ == st.2
        }),
{
    let fsz = face.len();
    if fsz < 3 {
        return true;
    }
    let ghost fs = face@;
    let ghost ts = transforms@;

    let wps = match transform_face_points(face, transforms) {
        Some(v) => v,
        None => {
            return false;
        },
    };
    let ghost wp = Seq::new(fs.len(), |i: int| world_point_at(fs, ts, i).unwrap());
    proof {
        assert forall|i: int| 0 <= i < fs.len() implies #[trigger] wp[i] == wps@[i] && p3_bounded(
            wp[i],
            SCENE_MAX as int,
        ) by {
            assert(world_point_at(fs, ts, i) == Some(wps@[i]));
        }
        assert forall|i: int| 0 <= i < wps@.len() implies p3_bounded(
            #[trigger] wps@[i],
            SCENE_MAX as int,
        ) by {
            assert(wp[i] == wps@[i] && p3_bounded(wp[i], SCENE_MAX as int));
        }
    }

    let wns_v = transform_face_normals(face, transforms);
    let ghost wns = Seq::new(fs.len(), |i: int| world_normal_at(fs, ts, i));
    proof {
        assert forall|i: int| 0 <= i < fs.len() implies #[trigger] wns[i] == wns_v@[i]
            && vec3_bounded(wns[i], SCENE_MAX as int) by {
            assert(world_normal_at(fs, ts, i) == wns_v@[i]);
        }
        assert forall|i: int| 0 <= i < wns_v@.len() implies vec3_bounded(
            #[trigger] wns_v@[i],
            SCENE_MAX as int,
        ) by {
            assert(wns[i] == wns_v@[i] && vec3_bounded(wns[i], SCENE_MAX as int));
        }
    }

    proof {
        assert(wp[0] == wps@[0] && p3_bounded(wp[0], SCENE_MAX as int));
        assert(wp[1] == wps@[1] && p3_bounded(wp[1], SCENE_MAX as int));
        assert(wp[2] == wps@[2] && p3_bounded(wp[2], SCENE_MAX as int));
    }
    let p0 = wps[0];
    let p1 = wps[1];
    let p2 = wps[2];
    let normal = calculate_normal(p0, p1, p2);
    let eye_vec = Vec3::new_from_point3d(eye);
    let vec_p0 = Vec3::new_from_point3d(p0);
    let view_dir = eye_vec.sub(vec_p0);
    if normal.dot(view_dir) <= 0 {
        proof {
            assert(face_culled(wp[0], wp[1], wp[2], eye));
        }
        return false;
    }

    let vertex_colors = shade_vertices(&wps, &wns_v, light_dir, eye, material);
    let ghost cols = Seq::new(
        fs.len(),
        |i: int| vertex_color_spec(wp[i], wns[i], light_dir, eye, *material),
    );
    proof {
        assert forall|i: int| 0 <= i < fs.len() implies #[trigger] cols[i]
            == vertex_colors@[i] by {
            assert(vertex_colors@[i] == vertex_color_spec(
                wps@[i],
                wns_v@[i],
                light_dir,
                eye,
                *material,
            ));
            assert(wp[i] == wps@[i] && wns[i] == wns_v@[i]);
        }
    }

    let scr_v = match project_vertices(&wps, eye, target, focal, width, height) {
        Some(v) => v,
        None => {
            proof {
                let iw = choose|i: int|
                    0 <= i < wps@.len() && (#[trigger] project_look_at_spec(
                        wps@[i],
                        eye,
                        target,
                        focal,
                        (width as int * 65536) as i64,
                        (height as int * 65536) as i64,
                    )) is None;
                let projs = Seq::new(
                    fs.len(),
                    |i: int|
                        project_look_at_spec(
                            wp[i],
                            eye,
                            target,
                            focal,
                            (width as int * 65536) as i64,
                            (height as int * 65536) as i64,
                        ),
                );
                assert((projs[iw]) is None);
            }
            return false;
        },
    };
    let ghost projs = Seq::new(
        fs.len(),
        |i: int|
            project_look_at_spec(wp[i], eye, target, focal, (width as int * 65536) as i64, (
            height as int * 65536) as i64),
    );
    let ghost scr = Seq::new(fs.len(), |i: int| screen_of(projs[i].unwrap()));
    proof {
        assert forall|i: int| 0 <= i < fs.len() implies (#[trigger] projs[i]) is Some && scr[i]
            == scr_v@[i] && p3_bounded(scr[i], RASTER_MAX as int) by {
            assert(project_look_at_spec(
                wps@[i],
                eye,
                target,
                focal,
                (width as int * 65536) as i64,
                (height as int * 65536) as i64,
            ) is Some);
            assert(wp[i] == wps@[i]);
            assert(scr_v@[i] == screen_of(
                project_look_at_spec(
                    wps@[i],
                    eye,
                    target,
                    focal,
                    (width as int * 65536) as i64,
                    (height as int * 65536) as i64,
                ).unwrap(),
            ));
        }
    }

    let ghost z_entry = z_buffer@;
    let ghost pix_entry = fb.pixels@;
    let mut i: usize = 1;
    while i + 1 < fsz
        invariant
            1 <= i,
            i + 1 <= fsz,
            fsz == face.len(),
            fs.len() == fsz,
            fb.wf(),
            fb.width == width as int,
            fb.height == height as int,
            z_buffer.len() == width as int * height as int,
            1 <= width <= VIEW_MAX,
            1 <= height <= VIEW_MAX,
            z_buffer@.len() == z_entry.len(),
            fb.pixels@.len() == pix_entry.len(),
            wps.len() == fsz,
            wns_v.len() == fsz,
            vertex_colors.len() == fsz,
            scr_v.len() == fsz,
            scr.len() == fsz,
            cols.len() == fsz,
            projs.len() == fsz,
            forall|k: int|
                0 <= k < fs.len() ==> (#[trigger] projs[k]) is Some && scr[k] == scr_v@[k]
                    && p3_bounded(scr[k], RASTER_MAX as int),
            forall|k: int| 0 <= k < fs.len() ==> #[trigger] cols[k] == vertex_colors@[k],
            fan_resolved(z_entry, pix_entry, scr, cols, width as int, height as int, 1)
                == fan_resolved(
                z_buffer@,
                fb.pixels@,
                scr,
                cols,
                width as int,
                height as int,
                i as int,
            ),
        decreases fsz - i,
    {
        let ghost z_pre = z_buffer@;
        let ghost pix_pre = fb.pixels@;
        proof {
            assert((projs[0]) is Some && (projs[i as int]) is Some && (projs[i as int + 1]) is Some);
            assert(scr[0] == scr_v@[0] && p3_bounded(scr[0], RASTER_MAX as int));
            assert(scr[i as int] == scr_v@[i as int] && p3_bounded(
                scr[i as int],
                RASTER_MAX as int,
            ));
            assert(scr[i as int + 1] == scr_v@[i as int + 1] && p3_bounded(
                scr[i as int + 1],
                RASTER_MAX as int,
            ));
            assert(cols[0] == vertex_colors@[0]);
            assert(cols[i as int] == vertex_colors@[i as int]);
            assert(cols[i as int + 1] == vertex_colors@[i as int + 1]);
        }
        let s0 = scr_v[0];
        let si = scr_v[i];
        let sj = scr_v[i + 1];
        let triangle: [Vec3WithColor; 3] = [
            Vec3WithColor { x: s0.0, y: s0.1, z: s0.2, c: vertex_colors[0] },
            Vec3WithColor { x: si.0, y: si.1, z: si.2, c: vertex_colors[i] },
            Vec3WithColor { x: sj.0, y: sj.1, z: sj.2, c: vertex_colors[i + 1] },
        ];
        draw_triangle_shaded(triangle, fb, z_buffer, width, height);
        proof {
            lemma_raster_post_is_apply(
                z_pre,
                pix_pre,
                z_buffer@,
                fb.pixels@,
                ShadeMode::Resolved { colors: (cols[0], cols[i as int], cols[i as int + 1]) },
                scr[0],
                scr[i as int],
                scr[i as int + 1],
                width as int,
                height as int,
            );
            assert(fan_resolved(z_pre, pix_pre, scr, cols, width as int, height as int, i as int)
                == fan_resolved(
                z_buffer@,
                fb.pixels@,
                scr,
                cols,
                width as int,
                height as int,
                i as int + 1,
            ));
        }
        i = i + 1;
    }
    false
}

/// Renders one Phong face: transform, project, cull, then fan-triangulate
/// with per-pixel shading. Returns whether the face stops the model loop.
#[verifier::rlimit(60)]
fn face_phong(
    face: &Vec<MeshVertex>,
    transforms: &Vec<Transform>,
    material: &Material,
    eye: Point3d,
    target: Point3d,
    light_dir: Vec3,
    focal: i64,
    width: i32,
    height: i32,
    fb: &mut FrameBuffer,
    z_buffer: &mut Vec<i64>,
) -> (stop: bool)
    requires
        old(fb).wf(),
        old(fb).width == width as int,
        old(fb).height == height as int,
        old(z_buffer).len() == width as int * height as int,
        1 <= width <= VIEW_MAX,
        1 <= height <= VIEW_MAX,
        mesh_face_wf(face@),
        transforms_wf(transforms@),
        p3_bounded(eye, SCENE_MAX as int),
        p3_bounded(target, SCENE_MAX as int),
        abs_spec(focal as int) <= SCENE_MAX as int,
        vec3_bounded(light_dir, crate::math_3d::vec3::VEC_LEN_MAX as int),
        material.wf(),
    ensures
        final(fb).wf(),
        final(fb).width == old(fb).width,
        final(fb).height == old(fb).height,
        final(z_buffer).len() == old(z_buffer).len(),
        ({
            let st = face_phong_spec(
                old(z_buffer)@,
                old(fb).pixels@,
                face@,
                transforms@,
                *material,
                eye,
                target,
                light_dir,
                focal,
                width as int,
                height as int,
            );
            stop == st.0 && final(z_buffer)@ == st.1 && final(fb).pixels@ == st.2
        }),
{
    let fsz = face.len();
    if fsz < 3 {
        return true;
    }
    let ghost fs = face@;
    let ghost ts = transforms@;

    let wps = match transform_face_points(face, transforms) {
        Some(v) => v,
        None => {
            return false;
        },
    };
    let ghost wp = Seq::new(fs.len(), |i: int| world_point_at(fs, ts, i).unwrap());
    proof {
        assert forall|i: int| 0 <= i < fs.len() implies #[trigger] wp[i] == wps@[i] && p3_bounded(
            wp[i],
            SCENE_MAX as int,
        ) by {
            assert(world_point_at(fs, ts, i) == Some(wps@[i]));
        }
        assert forall|i: int| 0 <= i < wps@.len() implies p3_bounded(
            #[trigger] wps@[i],
            SCENE_MAX as int,
        ) by {
            assert(wp[i] == wps@[i] && p3_bounded(wp[i], SCENE_MAX as int));
        }
    }

    let wns_v = transform_face_normals(face, transforms);
    let ghost wns = Seq::new(fs.len(), |i: int| world_normal_at(fs, ts, i));
    proof {
        assert forall|i: int| 0 <= i < fs.len() implies #[trigger] wns[i] == wns_v@[i]
            && vec3_bounded(wns[i], SCENE_MAX as int) by {
            assert(world_normal_at(fs, ts, i) == wns_v@[i]);
        }
        assert forall|i: int| 0 <= i < wns_v@.len() implies vec3_bounded(
            #[trigger] wns_v@[i],
            SCENE_MAX as int,
        ) by {
            assert(wns[i] == wns_v@[i] && vec3_bounded(wns[i], SCENE_MAX as int));
        }
    }

    let scr_v = match project_vertices(&wps, eye, target, focal, width, height) {
        Some(v) => v,
        None => {
            proof {
                let iw = choose|i: int|
                    0 <= i < wps@.len() && (#[trigger] project_look_at_spec(
                        wps@[i],
                        eye,
                        target,
                        focal,
                        (width as int * 65536) as i64,
                        (height as int * 65536) as i64,
                    )) is None;
                let projs = Seq::new(
                    fs.len(),
                    |i: int|
                        project_look_at_spec(
                            wp[i],
                            eye,
                            target,
                            focal,
                            (width as int * 65536) as i64,
                            (height as int * 65536) as i64,
                        ),
                );
                assert((projs[iw]) is None);
            }
            return false;
        },
    };
    let ghost projs = Seq::new(
        fs.len(),
        |i: int|
            project_look_at_spec(wp[i], eye, target, focal, (width as int * 65536) as i64, (
            height as int * 65536) as i64),
    );
    let ghost scr = Seq::new(fs.len(), |i: int| screen_of(projs[i].unwrap()));
    proof {
        assert forall|i: int| 0 <= i < fs.len() implies (#[trigger] projs[i]) is Some && scr[i]
            == scr_v@[i] && p3_bounded(scr[i], RASTER_MAX as int) by {
            assert(project_look_at_spec(
                wps@[i],
                eye,
                target,
                focal,
                (width as int * 65536) as i64,
                (height as int * 65536) as i64,
            ) is Some);
            assert(wp[i] == wps@[i]);
            assert(scr_v@[i] == screen_of(
                project_look_at_spec(
                    wps@[i],
                    eye,
                    target,
                    focal,
                    (width as int * 65536) as i64,
                    (height as int * 65536) as i64,
                ).unwrap(),
            ));
        }
    }

    proof {
        assert(wp[0] == wps@[0] && p3_bounded(wp[0], SCENE_MAX as int));
        assert(wp[1] == wps@[1] && p3_bounded(wp[1], SCENE_MAX as int));
        assert(wp[2] == wps@[2] && p3_bounded(wp[2], SCENE_MAX as int));
    }
    let p0 = wps[0];
    let p1 = wps[1];
    let p2 = wps[2];
    let normal = calculate_normal(p0, p1, p2);
    let eye_vec = Vec3::new_from_point3d(eye);
    let vec_p0 = Vec3::new_from_point3d(p0);
    let view_dir = eye_vec.sub(vec_p0);
    if normal.dot(view_dir) <= 0 {
        proof {
            assert(face_culled(wp[0], wp[1], wp[2], eye));
        }
        return false;
    }

    let ghost z_entry = z_buffer@;
    let ghost pix_entry = fb.pixels@;
    let mut i: usize = 1;
    while i + 1 < fsz
        invariant
            1 <= i,
            i + 1 <= fsz,
            fsz == face.len(),
            fs.len() == fsz,
            fb.wf(),
            fb.width == width as int,
            fb.height == height as int,
            z_buffer.len() == width as int * height as int,
            1 <= width <= VIEW_MAX,
            1 <= height <= VIEW_MAX,
            z_buffer@.len() == z_entry.len(),
            fb.pixels@.len() == pix_entry.len(),
            wps.len() == fsz,
            wns_v.len() == fsz,
            scr_v.len() == fsz,
            scr.len() == fsz,
            wp.len() == fsz,
            wns.len() == fsz,
            projs.len() == fsz,
            p3_bounded(eye, SCENE_MAX as int),
            vec3_bounded(light_dir, crate::math_3d::vec3::VEC_LEN_MAX as int),
            material.wf(),
            forall|k: int|
                0 <= k < fs.len() ==> (#[trigger] projs[k]) is Some && scr[k] == scr_v@[k]
                    && p3_bounded(scr[k], RASTER_MAX as int),
            forall|k: int|
                0 <= k < fs.len() ==> #[trigger] wp[k] == wps@[k] && p3_bounded(
                    wp[k],
                    SCENE_MAX as int,
                ),
            forall|k: int|
                0 <= k < fs.len() ==> #[trigger] wns[k] == wns_v@[k] && vec3_bounded(
                    wns[k],
                    SCENE_MAX as int,
                ),
            fan_deferred(
                z_entry,
                pix_entry,
                scr,
                wp,
                wns,
                *material,
                light_dir,
                eye,
                width as int,
                height as int,
                1,
            ) == fan_deferred(
                z_buffer@,
                fb.pixels@,
                scr,
                wp,
                wns,
                *material,
                light_dir,
                eye,
                width as int,
                height as int,
                i as int,
            ),
        decreases fsz - i,
    {
        let ghost z_pre = z_buffer@;
        let ghost pix_pre = fb.pixels@;
        proof {
            assert((projs[0]) is Some && (projs[i as int]) is Some && (projs[i as int + 1]) is Some);
            assert(scr[0] == scr_v@[0] && p3_bounded(scr[0], RASTER_MAX as int));
            assert(scr[i as int] == scr_v@[i as int] && p3_bounded(
                scr[i as int],
                RASTER_MAX as int,
            ));
            assert(scr[i as int + 1] == scr_v@[i as int + 1] && p3_bounded(
                scr[i as int + 1],
                RASTER_MAX as int,
            ));
            assert(wp[0] == wps@[0]);
            assert(wns[0] == wns_v@[0]);
            assert(wp[i as int] == wps@[i as int] && wp[i as int + 1] == wps@[i as int + 1]);
            assert(wns[i as int] == wns_v@[i as int] && wns[i as int + 1] == wns_v@[i as int + 1]);
        }
        let tri_screen: [Point3d; 3] = [scr_v[0], scr_v[i], scr_v[i + 1]];
        let tri_world: [Point3d; 3] = [wps[0], wps[i], wps[i + 1]];
        let tri_normal: [Vec3; 3] = [wns_v[0], wns_v[i], wns_v[i + 1]];
        draw_phong_triangle(
            fb,
            z_buffer,
            tri_screen,
            tri_world,
            tri_normal,
            material,
            light_dir,
            eye,
            width,
            height,
        );
        proof {
            lemma_raster_post_is_apply(
                z_pre,
                pix_pre,
                z_buffer@,
                fb.pixels@,
                ShadeMode::Deferred {
                    world: (wp[0], wp[i as int], wp[i as int + 1]),
                    normals: (wns[0], wns[i as int], wns[i as int + 1]),
                    material: *material,
                    light_dir: light_dir,
                    eye: eye,
                },
                scr[0],
                scr[i as int],
                scr[i as int + 1],
                width as int,
                height as int,
            );
            assert(fan_deferred(
                z_pre,
                pix_pre,
                scr,
                wp,
                wns,
                *material,
                light_dir,
                eye,
                width as int,
                height as int,
                i as int,
            ) == fan_deferred(
                z_buffer@,
                fb.pixels@,
                scr,
                wp,
                wns,
                *material,
                light_dir,
                eye,
                width as int,
                height as int,
                i as int + 1,
            ));
        }
        i = i + 1;
    }
    false
}

/// The whole model under Gouraud shading: each object's faces in order.
pub open spec fn model_gouraud_spec(
    z: Seq<i64>,
    pix: Seq<u8>,
    objects: Seq<MeshObject>,
    ts: Seq<Transform>,
    m: Material,
    eye: (i64, i64, i64),
    target: (i64, i64, i64),
    light: Vec3,
    focal: i64,
    wpx: int,
    hpx: int,
    k: int,
) -> (Seq<i64>, Seq<u8>)
    decreases objects.len() - k,
{
    if k < 0 || k >= objects.len() {
        (z, pix)
    } else {
        let st = object_gouraud_spec(
            z,
            pix,
            objects[k].faces@,
            ts,
            m,
            eye,
            target,
            light,
            focal,
            wpx,
            hpx,
            0,
        );
        model_gouraud_spec(st.0, st.1, objects, ts, m, eye, target, light, focal, wpx, hpx, k + 1)
    }
}

/// The whole model under Phong shading: each object's faces in order.
pub open spec fn model_phong_spec(
    z: Seq<i64>,
    pix: Seq<u8>,
    objects: Seq<MeshObject>,
    ts: Seq<Transform>,
    m: Material,
    eye: (i64, i64, i64),
    target: (i64, i64, i64),
    light: Vec3,
    focal: i64,
    wpx: int,
    hpx: int,
    k: int,
) -> (Seq<i64>, Seq<u8>)
    decreases objects.len() - k,
{
    if k < 0 || k >= objects.len() {
        (z, pix)
    } else {
        let st = object_phong_spec(
            z,
            pix,
            objects[k].faces@,
            ts,
            m,
            eye,
            target,
            light,
            focal,
            wpx,
            hpx,
            0,
        );
        model_phong_spec(st.0, st.1, objects, ts, m, eye, target, light, focal, wpx, hpx, k + 1)
    }
}

/// Renders the faces of one object with Gouraud shading: lighting resolved
/// once per vertex, then interpolated by the rasterizer. A face with fewer
/// than three vertices ends the loop, mirroring the per-face pipeline's
/// early return.
#[verifier::rlimit(60)]
pub fn draw_object_model_gouraud(
    model: &MeshObject,
    transforms: &Vec<Transform>,
    material: &Material,
    eye: Point3d,
    target: Point3d,
    light_dir: Vec3,
    focal: i64,
    width: u32,
    height: u32,
    fb: &mut FrameBuffer,
    z_buffer: &mut Vec<i64>,
)
    requires
        old(fb).wf(),
        old(fb).width == width as int,
        old(fb).height == height as int,
        old(z_buffer).len() == width as int * height as int,
        1 <= width as int <= VIEW_MAX as int,
        1 <= height as int <= VIEW_MAX as int,
        mesh_object_wf(*model),
        transforms_wf(transforms@),
        p3_bounded(eye, SCENE_MAX as int),
        p3_bounded(target, SCENE_MAX as int),
        abs_spec(focal as int) <= SCENE_MAX as int,
        vec3_bounded(light_dir, crate::math_3d::vec3::VEC_LEN_MAX as int),
        material.wf(),
    ensures
        final(fb).wf(),
        final(fb).width == old(fb).width,
        final(fb).height == old(fb).height,
        final(z_buffer).len() == old(z_buffer).len(),
        (final(z_buffer)@, final(fb).pixels@) == object_gouraud_spec(
            old(z_buffer)@,
            old(fb).pixels@,
            model.faces@,
            transforms@,
            *material,
            eye,
            target,
            light_dir,
            focal,
            width as int,
            height as int,
            0,
        ),
{
    let ghost z0 = z_buffer@;
    let ghost pix0 = fb.pixels@;
    let nf = model.faces.len();
    let mut k: usize = 0;
    while k < nf
        invariant
            k <= nf,
            nf == model.faces.len(),
            fb.wf(),
            fb.width == width as int,
            fb.height == height as int,
            z_buffer.len() == width as int * height as int,
            1 <= width as int <= VIEW_MAX as int,
            1 <= height as int <= VIEW_MAX as int,
            mesh_object_wf(*model),
            transforms_wf(transforms@),
            p3_bounded(eye, SCENE_MAX as int),
            p3_bounded(target, SCENE_MAX as int),
            abs_spec(focal as int) <= SCENE_MAX as int,
            vec3_bounded(light_dir, crate::math_3d::vec3::VEC_LEN_MAX as int),
            material.wf(),
            z_buffer@.len() == z0.len(),
            fb.pixels@.len() == pix0.len(),
            z0 == old(z_buffer)@,
            pix0 == old(fb).pixels@,
            old(fb).width == width as int,
            old(fb).height == height as int,
            old(z_buffer).len() == width as int * height as int,
            object_gouraud_spec(
                z0,
                pix0,
                model.faces@,
                transforms@,
                *material,
                eye,
                target,
                light_dir,
                focal,
                width as int,
                height as int,
                0,
            ) == object_gouraud_spec(
                z_buffer@,
                fb.pixels@,
                model.faces@,
                transforms@,
                *material,
                eye,
                target,
                light_dir,
                focal,
                width as int,
                height as int,
                k as int,
            ),
        decreases nf - k,
    {
        proof {
            assert(mesh_face_wf(model.faces[k as int]@));
        }
        let ghost z_pre = z_buffer@;
        let ghost pix_pre = fb.pixels@;
        let face = &model.faces[k];
        let stop = face_gouraud(
            face,
            transforms,
            material,
            eye,
            target,
            light_dir,
            focal,
            width as i32,
            height as i32,
            fb,
            z_buffer,
        );
        proof {
            let st = face_gouraud_spec(
                z_pre,
                pix_pre,
                model.faces[k as int]@,
                transforms@,
                *material,
                eye,
                target,
                light_dir,
                focal,
                width as int,
                height as int,
            );
            assert(stop == st.0 && z_buffer@ == st.1 && fb.pixels@ == st.2);
            assert(object_gouraud_spec(
                z_pre,
                pix_pre,
                model.faces@,
                transforms@,
                *material,
                eye,
                target,
                light_dir,
                focal,
                width as int,
                height as int,
                k as int,
            ) == if st.0 {
                (st.1, st.2)
            } else {
                object_gouraud_spec(
                    st.1,
                    st.2,
                    model.faces@,
                    transforms@,
                    *material,
                    eye,
                    target,
                    light_dir,
                    focal,
                    width as int,
                    height as int,
                    k as int + 1,
                )
            });
        }
        if stop {
            return ;
        }
        k = k + 1;
    }
}

/// Renders the faces of one object with per-pixel Phong shading.
#[verifier::rlimit(60)]
pub fn draw_object_model_phong(
    model: &MeshObject,
    transforms: &Vec<Transform>,
    material: &Material,
    eye: Point3d,
    target: Point3d,
    light_dir: Vec3,
    focal: i64,
    width: u32,
    height: u32,
    fb: &mut FrameBuffer,
    z_buffer: &mut Vec<i64>,
)
    requires
        old(fb).wf(),
        old(fb).width == width as int,
        old(fb).height == height as int,
        old(z_buffer).len() == width as int * height as int,
        1 <= width as int <= VIEW_MAX as int,
        1 <= height as int <= VIEW_MAX as int,
        mesh_object_wf(*model),
        transforms_wf(transforms@),
        p3_bounded(eye, SCENE_MAX as int),
        p3_bounded(target, SCENE_MAX as int),
        abs_spec(focal as int) <= SCENE_MAX as int,
        vec3_bounded(light_dir, crate::math_3d::vec3::VEC_LEN_MAX as int),
        material.wf(),
    ensures
        final(fb).wf(),
        final(fb).width == old(fb).width,
        final(fb).height == old(fb).height,
        final(z_buffer).len() == old(z_buffer).len(),
        (final(z_buffer)@, final(fb).pixels@) == object_phong_spec(
            old(z_buffer)@,
            old(fb).pixels@,
            model.faces@,
            transforms@,
            *material,
            eye,
            target,
            light_dir,
            focal,
            width as int,
            height as int,
            0,
        ),
{
    let ghost z0 = z_buffer@;
    let ghost pix0 = fb.pixels@;
    let nf = model.faces.len();
    let mut k: usize = 0;
    while k < nf
        invariant
            k <= nf,
            nf == model.faces.len(),
            fb.wf(),
            fb.width == width as int,
            fb.height == height as int,
            z_buffer.len() == width as int * height as int,
            1 <= width as int <= VIEW_MAX as int,
            1 <= height as int <= VIEW_MAX as int,
            mesh_object_wf(*model),
            transforms_wf(transforms@),
            p3_bounded(eye, SCENE_MAX as int),
            p3_bounded(target, SCENE_MAX as int),
            abs_spec(focal as int) <= SCENE_MAX as int,
            vec3_bounded(light_dir, crate::math_3d::vec3::VEC_LEN_MAX as int),
            material.wf(),
            z_buffer@.len() == z0.len(),
            fb.pixels@.len() == pix0.len(),
            z0 == old(z_buffer)@,
            pix0 == old(fb).pixels@,
            old(fb).width == width as int,
            old(fb).height == height as int,
            old(z_buffer).len() == width as int * height as int,
            object_phong_spec(
                z0,
                pix0,
                model.faces@,
                transforms@,
                *material,
                eye,
                target,
                light_dir,
                focal,
                width as int,
                height as int,
                0,
            ) == object_phong_spec(
                z_buffer@,
                fb.pixels@,
                model.faces@,
                transforms@,
                *material,
                eye,
                target,
                light_dir,
                focal,
                width as int,
                height as int,
                k as int,
            ),
        decreases nf - k,
    {
        proof {
            assert(mesh_face_wf(model.faces[k as int]@));
        }
        let ghost z_pre = z_buffer@;
        let ghost pix_pre = fb.pixels@;
        let face = &model.faces[k];
        let stop = face_phong(
            face,
            transforms,
            material,
            eye,
            target,
            light_dir,
            focal,
            width as i32,
            height as i32,
            fb,
            z_buffer,
        );
        proof {
            let st = face_phong_spec(
                z_pre,
                pix_pre,
                model.faces[k as int]@,
                transforms@,
                *material,
                eye,
                target,
                light_dir,
                focal,
                width as int,
                height as int,
            );
            assert(stop == st.0 && z_buffer@ == st.1 && fb.pixels@ == st.2);
            assert(object_phong_spec(
                z_pre,
                pix_pre,
                model.faces@,
                transforms@,
                *material,
                eye,
                target,
                light_dir,
                focal,
                width as int,
                height as int,
                k as int,
            ) == if st.0 {
                (st.1, st.2)
            } else {
                object_phong_spec(
                    st.1,
                    st.2,
                    model.faces@,
                    transforms@,
                    *material,
                    eye,
                    target,
                    light_dir,
                    focal,
                    width as int,
                    height as int,
                    k as int + 1,
                )
            });
        }
        if stop {
            return ;
        }
        k = k + 1;
    }
}

/// Renders a whole model with Gouraud shading, object by object.
#[verifier::rlimit(60)]
pub fn draw_obj_model_gouraud(
    model: &MeshModel,
    transforms: &Vec<Transform>,
    material: &Material,
    eye: Point3d,
    target: Point3d,
    light_dir: Vec3,
    focal: i64,
    width: u32,
    height: u32,
    fb: &mut FrameBuffer,
    z_buffer: &mut Vec<i64>,
)
    requires
        old(fb).wf(),
        old(fb).width == width as int,
        old(fb).height == height as int,
        old(z_buffer).len() == width as int * height as int,
        1 <= width as int <= VIEW_MAX as int,
        1 <= height as int <= VIEW_MAX as int,
        mesh_model_wf(*model),
        transforms_wf(transforms@),
        p3_bounded(eye, SCENE_MAX as int),
        p3_bounded(target, SCENE_MAX as int),
        abs_spec(focal as int) <= SCENE_MAX as int,
        vec3_bounded(light_dir, crate::math_3d::vec3::VEC_LEN_MAX as int),
        material.wf(),
    ensures
        final(fb).wf(),
        final(fb).width == old(fb).width,
        final(fb).height == old(fb).height,
        final(z_buffer).len() == old(z_buffer).len(),
        (final(z_buffer)@, final(fb).pixels@) == model_gouraud_spec(
            old(z_buffer)@,
            old(fb).pixels@,
            model.objects@,
            transforms@,
            *material,
            eye,
            target,
            light_dir,
            focal,
            width as int,
            height as int,
            0,
        ),
{
    let ghost z0 = z_buffer@;
    let ghost pix0 = fb.pixels@;
    let no = model.objects.len();
    let mut k: usize = 0;
    while k < no
        invariant
            k <= no,
            no == model.objects.len(),
            fb.wf(),
            fb.width == width as int,
            fb.height == height as int,
            z_buffer.len() == width as int * height as int,
            1 <= width as int <= VIEW_MAX as int,
            1 <= height as int <= VIEW_MAX as int,
            mesh_model_wf(*model),
            transforms_wf(transforms@),
            p3_bounded(eye, SCENE_MAX as int),
            p3_bounded(target, SCENE_MAX as int),
            abs_spec(focal as int) <= SCENE_MAX as int,
            vec3_bounded(light_dir, crate::math_3d::vec3::VEC_LEN_MAX as int),
            material.wf(),
            z_buffer@.len() == z0.len(),
            fb.pixels@.len() == pix0.len(),
            z0 == old(z_buffer)@,
            pix0 == old(fb).pixels@,
            old(fb).width == width as int,
            old(fb).height == height as int,
            old(z_buffer).len() == width as int * height as int,
            model_gouraud_spec(
                z0,
                pix0,
                model.objects@,
                transforms@,
                *material,
                eye,
                target,
                light_dir,
                focal,
                width as int,
                height as int,
                0,
            ) == model_gouraud_spec(
                z_buffer@,
                fb.pixels@,
                model.objects@,
                transforms@,
                *material,
                eye,
                target,
                light_dir,
                focal,
                width as int,
                height as int,
                k as int,
            ),
        decreases no - k,
    {
        proof {
            assert(mesh_object_wf(model.objects[k as int]));
        }
        let object = &model.objects[k];
        draw_object_model_gouraud(
            object,
            transforms,
            material,
            eye,
            target,
            light_dir,
            focal,
            width,
            height,
            fb,
            z_buffer,
        );
        k = k + 1;
    }
}

/// Renders a whole model with per-pixel Phong shading, object by object.
#[verifier::rlimit(60)]
pub fn draw_obj_model_phong(
    model: &MeshModel,
    transforms: &Vec<Transform>,
    material: &Material,
    eye: Point3d,
    target: Point3d,
    light_dir: Vec3,
    focal: i64,
    width: u32,
    height: u32,
    fb: &mut FrameBuffer,
    z_buffer: &mut Vec<i64>,
)
    requires
        old(fb).wf(),
        old(fb).width == width as int,
        old(fb).height == height as int,
        old(z_buffer).len() == width as int * height as int,
        1 <= width as int <= VIEW_MAX as int,
        1 <= height as int <= VIEW_MAX as int,
        mesh_model_wf(*model),
        transforms_wf(transforms@),
        p3_bounded(eye, SCENE_MAX as int),
        p3_bounded(target, SCENE_MAX as int),
        abs_spec(focal as int) <= SCENE_MAX as int,
        vec3_bounded(light_dir, crate::math_3d::vec3::VEC_LEN_MAX as int),
        material.wf(),
    ensures
        final(fb).wf(),
        final(fb).width == old(fb).width,
        final(fb).height == old(fb).height,
        final(z_buffer).len() == old(z_buffer).len(),
        (final(z_buffer)@, final(fb).pixels@) == model_phong_spec(
            old(z_buffer)@,
            old(fb).pixels@,
            model.objects@,
            transforms@,
            *material,
            eye,
            target,
            light_dir,
            focal,
            width as int,
            height as int,
            0,
        ),
{
    let ghost z0 = z_buffer@;
    let ghost pix0 = fb.pixels@;
    let no = model.objects.len();
    let mut k: usize = 0;
    while k < no
        invariant
            k <= no,
            no == model.objects.len(),
            fb.wf(),
            fb.width == width as int,
            fb.height == height as int,
            z_buffer.len() == width as int * height as int,
            1 <= width as int <= VIEW_MAX as int,
            1 <= height as int <= VIEW_MAX as int,
            mesh_model_wf(*model),
            transforms_wf(transforms@),
            p3_bounded(eye, SCENE_MAX as int),
            p3_bounded(target, SCENE_MAX as int),
            abs_spec(focal as int) <= SCENE_MAX as int,
            vec3_bounded(light_dir, crate::math_3d::vec3::VEC_LEN_MAX as int),
            material.wf(),
            z_buffer@.len() == z0.len(),
            fb.pixels@.len() == pix0.len(),
            z0 == old(z_buffer)@,
            pix0 == old(fb).pixels@,
            old(fb).width == width as int,
            old(fb).height == height as int,
            old(z_buffer).len() == width as int * height as int,
            model_phong_spec(
                z0,
                pix0,
                model.objects@,
                transforms@,
                *material,
                eye,
                target,
                light_dir,
                focal,
                width as int,
                height as int,
                0,
            ) == model_phong_spec(
                z_buffer@,
                fb.pixels@,
                model.objects@,
                transforms@,
                *material,
                eye,
                target,
                light_dir,
                focal,
                width as int,
                height as int,
                k as int,
            ),
        decreases no - k,
    {
        proof {
            assert(mesh_object_wf(model.objects[k as int]));
        }
        let object = &model.objects[k];
        draw_object_model_phong(
            object,
            transforms,
            material,
            eye,
            target,
            light_dir,
            focal,
            width,
            height,
            fb,
            z_buffer,
        );
        k = k + 1;
    }
}

/// Depth-test monotonicity: when two triangles cover the same pixel at
/// different depths, rasterizing them in either order leaves the depth
/// buffer holding the nearer triangle's interpolated depth, and the pixel
/// holding the nearer triangle's color at that point.
pub proof fn lemma_depth_test_monotonic(
    z0: Seq<i64>,
    pix0: Seq<u8>,
    ma: ShadeMode,
    mb: ShadeMode,
    a0: (i64, i64, i64),
    a1: (i64, i64, i64),
    a2: (i64, i64, i64),
    b0: (i64, i64, i64),
    b1: (i64, i64, i64),
    b2: (i64, i64, i64),
    w: int,
    h: int,
    x: int,
    y: int,
)
    requires
        w >= 1,
        h >= 1,
        0 <= x < w,
        0 <= y < h,
        z0.len() == w * h,
        pix0.len() == 3 * (w * h),
        tri_covers_spec(a0, a1, a2, w, h, x, y),
        tri_covers_spec(b0, b1, b2, w, h, x, y),
        i64::MIN <= tri_z_spec(a0, a1, a2, x, y) <= i64::MAX,
        i64::MIN <= tri_z_spec(b0, b1, b2, x, y) <= i64::MAX,
        tri_z_spec(a0, a1, a2, x, y) > tri_z_spec(b0, b1, b2, x, y),
        tri_z_spec(b0, b1, b2, x, y) >= z0[y * w + x],
    ensures
        ({
            let i = y * w + x;
            let za = raster_apply_z(z0, a0, a1, a2, w, h);
            let pa = raster_apply_pix(z0, pix0, ma, a0, a1, a2, w, h);
            let zab = raster_apply_z(za, b0, b1, b2, w, h);
            let pab = raster_apply_pix(za, pa, mb, b0, b1, b2, w, h);
            let zb = raster_apply_z(z0, b0, b1, b2, w, h);
            let pb = raster_apply_pix(z0, pix0, mb, b0, b1, b2, w, h);
            let zba = raster_apply_z(zb, a0, a1, a2, w, h);
            let pba = raster_apply_pix(zb, pb, ma, a0, a1, a2, w, h);
            let ca = raster_cell_color(ma, a0, a1, a2, w, i);
            &&& zab[i] == tri_z_spec(a0, a1, a2, x, y) as i64
            &&& zba[i] == tri_z_spec(a0, a1, a2, x, y) as i64
            &&& pab[3 * i] == ca.0 && pab[3 * i + 1] == ca.1 && pab[3 * i + 2] == ca.2
            &&& pba[3 * i] == ca.0 && pba[3 * i + 1] == ca.1 && pba[3 * i + 2] == ca.2
        }),
{
    let i = y * w + x;
    lemma_rowmajor(x, y, w, h);
    let za = raster_apply_z(z0, a0, a1, a2, w, h);
    let pa = raster_apply_pix(z0, pix0, ma, a0, a1, a2, w, h);
    let zb = raster_apply_z(z0, b0, b1, b2, w, h);
    assert(za[i] == tri_z_spec(a0, a1, a2, x, y) as i64);
    assert(zb[i] == tri_z_spec(b0, b1, b2, x, y) as i64);
    assert(!raster_cell_written(za, b0, b1, b2, w, h, i));
    assert(raster_cell_written(zb, a0, a1, a2, w, h, i));
    assert(raster_cell_written(z0, a0, a1, a2, w, h, i));
    assert(3 * i + 0 < pix0.len() && 3 * i + 1 < pix0.len() && 3 * i + 2 < pix0.len())
        by (nonlinear_arith)
        requires
            0 <= i < w * h,
            pix0.len() == 3 * (w * h),
    ;
    assert((3 * i) / 3 == i && (3 * i + 1) / 3 == i && (3 * i + 2) / 3 == i);
    assert((3 * i) % 3 == 0 && (3 * i + 1) % 3 == 1 && (3 * i + 2) % 3 == 2);
}

/// Back-face culling: a face whose geometric normal points away from the
/// eye contributes nothing — the Gouraud pipeline leaves the depth buffer
/// and the pixels exactly as they were.
pub proof fn lemma_backface_culled_gouraud(
    z: Seq<i64>,
    pix: Seq<u8>,
    face: Seq<MeshVertex>,
    ts: Seq<Transform>,
    m: Material,
    eye: (i64, i64, i64),
    target: (i64, i64, i64),
    light: Vec3,
    focal: i64,
    wpx: int,
    hpx: int,
)
    requires
        face.len() >= 3,
        all_points_ok(face, ts),
        ({
            let wp = Seq::new(face.len(), |i: int| world_point_at(face, ts, i).unwrap());
            face_culled(wp[0], wp[1], wp[2], eye)
        }),
    ensures
        face_gouraud_spec(z, pix, face, ts, m, eye, target, light, focal, wpx, hpx) == (
        false,
        z,
        pix,
        ),
{
}

/// Back-face culling under Phong shading: a face whose normal points away
/// from the eye and whose vertices all project contributes nothing.
pub proof fn lemma_backface_culled_phong(
    z: Seq<i64>,
    pix: Seq<u8>,
    face: Seq<MeshVertex>,
    ts: Seq<Transform>,
    m: Material,
    eye: (i64, i64, i64),
    target: (i64, i64, i64),
    light: Vec3,
    focal: i64,
    wpx: int,
    hpx: int,
)
    requires
        face.len() >= 3,
        all_points_ok(face, ts),
        ({
            let wp = Seq::new(face.len(), |i: int| world_point_at(face, ts, i).unwrap());
            face_culled(wp[0], wp[1], wp[2], eye)
        }),
    ensures
        ({
            let st = face_phong_spec(z, pix, face, ts, m, eye, target, light, focal, wpx, hpx);
            st.0 == false && st.1 == z && st.2 == pix
        }),
{
}

/// Normalization of the zero vector yields the zero vector, never an
/// invalid value: the explicit degenerate-case policy.
pub proof fn lemma_normalize_zero()
    ensures
        (Vec3 { x: 0, y: 0, z: 0 }).normalize_spec() == (Vec3 { x: 0, y: 0, z: 0 }),
{
    crate::fx::lemma_sqrt_floor_bounds(0);
}

} // verus!
