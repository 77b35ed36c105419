//! End-to-end and unit tests of the renderer over concrete Q16.16 values.

use render3d::frame_buffer::FrameBuffer;
use render3d::math_3d::material::Material;
use render3d::math_3d::raytrace::build_bvh;
use render3d::math_3d::raytrace::do_transforms;
use render3d::math_3d::raytrace::get_triangles;
use render3d::math_3d::raytrace::intersect_triangle_barycentric;
use render3d::math_3d::raytrace::render_raytrace;
use render3d::math_3d::raytrace::BVHNode;
use render3d::math_3d::raytrace::TriData;
use render3d::math_3d::transform::AxisRotation;
use render3d::math_3d::transform::Transform;
use render3d::math_3d::utils::calculate_normal;
use render3d::math_3d::utils::compute_vertex_normals;
use render3d::math_3d::utils::draw_object_model_gouraud;
use render3d::math_3d::utils::draw_triangle_shaded;
use render3d::math_3d::utils::intensity_to_color;
use render3d::math_3d::utils::is_point_in_polygon;
use render3d::math_3d::utils::project_look_at;
use render3d::math_3d::utils::MeshObject;
use render3d::math_3d::utils::MeshVertex;
use render3d::math_3d::vec3::Vec3;
use render3d::math_3d::vec3::Vec3WithColor;

const ONE: i64 = 65536;

fn q(v: f64) -> i64 {
    (v * 65536.0).round() as i64
}

fn ident_rot() -> AxisRotation {
    AxisRotation { cos: ONE, sin: 0 }
}

fn mesh_v(x: f64, y: f64, z: f64, n: Option<(f64, f64, f64)>) -> MeshVertex {
    MeshVertex {
        pos: (q(x), q(y), q(z)),
        normal: n.map(|(a, b, c)| Vec3 { x: q(a), y: q(b), z: q(c) }),
    }
}

#[test]
fn normalize_three_four_five() {
    let v = Vec3 { x: q(3.0), y: 0, z: q(4.0) };
    let n = v.normalize();
    assert_eq!(n.x, 39321);
    assert_eq!(n.y, 0);
    assert_eq!(n.z, 52428);
    let sq = n.x * n.x + n.y * n.y + n.z * n.z;
    assert!((sq - ONE * ONE).abs() <= 1 << 20);
}

#[test]
fn normalize_zero_vector_is_zero() {
    let v = Vec3 { x: 0, y: 0, z: 0 };
    let n = v.normalize();
    assert_eq!((n.x, n.y, n.z), (0, 0, 0));
}

#[test]
fn normalize_unit_length_various() {
    let samples = [
        (1.0, 2.0, -3.0),
        (-7.5, 0.25, 12.0),
        (100.0, -40.0, 3.0),
        (0.5, 0.5, 0.5),
    ];
    for (x, y, z) in samples {
        let n = Vec3 { x: q(x), y: q(y), z: q(z) }.normalize();
        let sq = n.x * n.x + n.y * n.y + n.z * n.z;
        assert!((sq - ONE * ONE).abs() <= 1 << 20, "not unit for {x} {y} {z}: {sq}");
    }
}

#[test]
fn transform_rotation_preserves_length() {
    // A rotation by thirty degrees about each axis, unit scale, no
    // translation: a unit vector keeps unit length within tolerance.
    let c = q(0.8660254);
    let s = q(0.5);
    let t = Transform {
        scale: ONE,
        rotation: (
            AxisRotation { cos: c, sin: s },
            AxisRotation { cos: c, sin: s },
            AxisRotation { cos: c, sin: s },
        ),
        translation: (0, 0, 0),
    };
    let v = Vec3 { x: q(0.6), y: q(0.8), z: 0 };
    let r = Transform::transform_vec3(v, &t);
    let sq = r.x * r.x + r.y * r.y + r.z * r.z;
    assert!((sq - ONE * ONE).abs() <= 1 << 21, "sq {sq}");
}

#[test]
fn transform_point_translation() {
    let t = Transform {
        scale: ONE,
        rotation: (ident_rot(), ident_rot(), ident_rot()),
        translation: (q(1.0), q(-2.0), q(3.0)),
    };
    let p = Transform::transform_point((q(1.0), q(1.0), q(1.0)), &t);
    assert_eq!(p, (q(2.0), q(-1.0), q(4.0)));
}

#[test]
fn projection_of_target_hits_viewport_center() {
    // Eye at (0, 0, 6) looking at the origin: the target itself must land
    // at the center of a 100 by 100 viewport.
    let r = project_look_at(
        (0, 0, 0),
        (0, 0, q(6.0)),
        (0, 0, 0),
        q(100.0),
        q(100.0),
        q(100.0),
    );
    let (sx, sy, depth) = r.expect("target must project");
    assert!((sx - 50).abs() <= 2, "sx {sx}");
    assert!((sy - 50).abs() <= 2, "sy {sy}");
    assert!(depth > 0);
}

#[test]
fn projection_rejects_point_behind_eye() {
    let r = project_look_at(
        (0, 0, q(10.0)),
        (0, 0, q(6.0)),
        (0, 0, 0),
        q(100.0),
        q(100.0),
        q(100.0),
    );
    assert!(r.is_none());
}

#[test]
fn intensity_to_color_scales_and_clamps() {
    assert_eq!(intensity_to_color((ONE, 0, ONE / 2)), (255, 0, 127));
    assert_eq!(intensity_to_color((2 * ONE, -ONE, ONE)), (255, 0, 255));
}

#[test]
fn depth_test_keeps_nearer_triangle_either_order() {
    let red = (200u8, 0u8, 0u8);
    let blue = (0u8, 0u8, 200u8);
    let near = |c: (u8, u8, u8)| -> [Vec3WithColor; 3] {
        [
            Vec3WithColor { x: q(10.0), y: q(10.0), z: q(2.0), c },
            Vec3WithColor { x: q(90.0), y: q(10.0), z: q(2.0), c },
            Vec3WithColor { x: q(50.0), y: q(90.0), z: q(2.0), c },
        ]
    };
    let far = |c: (u8, u8, u8)| -> [Vec3WithColor; 3] {
        [
            Vec3WithColor { x: q(10.0), y: q(10.0), z: q(1.0), c },
            Vec3WithColor { x: q(90.0), y: q(10.0), z: q(1.0), c },
            Vec3WithColor { x: q(50.0), y: q(90.0), z: q(1.0), c },
        ]
    };
    for order in 0..2 {
        let mut fb = FrameBuffer::new(100, 100);
        let mut z = vec![i64::MIN; 100 * 100];
        if order == 0 {
            draw_triangle_shaded(near(red), &mut fb, &mut z, 100, 100);
            draw_triangle_shaded(far(blue), &mut fb, &mut z, 100, 100);
        } else {
            draw_triangle_shaded(far(blue), &mut fb, &mut z, 100, 100);
            draw_triangle_shaded(near(red), &mut fb, &mut z, 100, 100);
        }
        let idx = 50 * 100 + 50;
        assert_eq!(z[idx], q(2.0), "order {order}");
        assert_eq!(fb.pixels[3 * idx], 200, "order {order}");
        assert_eq!(fb.pixels[3 * idx + 2], 0, "order {order}");
    }
}

#[test]
fn degenerate_triangle_draws_nothing() {
    let c = (9u8, 9u8, 9u8);
    let tri: [Vec3WithColor; 3] = [
        Vec3WithColor { x: q(10.0), y: q(10.0), z: q(1.0), c },
        Vec3WithColor { x: q(20.0), y: q(20.0), z: q(1.0), c },
        Vec3WithColor { x: q(30.0), y: q(30.0), z: q(1.0), c },
    ];
    let mut fb = FrameBuffer::new(64, 64);
    let before = fb.pixels.clone();
    let mut z = vec![i64::MIN; 64 * 64];
    draw_triangle_shaded(tri, &mut fb, &mut z, 64, 64);
    assert_eq!(fb.pixels, before);
    assert!(z.iter().all(|&d| d == i64::MIN));
}

#[test]
fn backfacing_triangle_contributes_no_pixels() {
    // Vertices wound so the geometric normal points away from the eye.
    let face = vec![
        mesh_v(-1.0, -1.0, 0.0, Some((0.0, 0.0, 1.0))),
        mesh_v(0.0, 1.0, 0.0, Some((0.0, 0.0, 1.0))),
        mesh_v(1.0, -1.0, 0.0, Some((0.0, 0.0, 1.0))),
    ];
    let model = MeshObject { faces: vec![face] };
    let mut fb = FrameBuffer::new(100, 100);
    fb.clean((16, 16, 16));
    let before = fb.pixels.clone();
    let mut z = vec![i64::MIN; 100 * 100];
    draw_object_model_gouraud(
        &model,
        &Vec::new(),
        &Material::white_plastic(),
        (0, 0, q(5.0)),
        (0, 0, 0),
        Vec3 { x: 0, y: 0, z: ONE },
        q(100.0),
        100,
        100,
        &mut fb,
        &mut z,
    );
    assert_eq!(fb.pixels, before);
    assert!(z.iter().all(|&d| d == i64::MIN));
}

#[test]
fn gouraud_scenario_covers_footprint_only() {
    // A flat, camera-facing, unit white-plastic triangle: depth-buffer
    // values inside its footprint rise above the sentinel, and nothing
    // outside its convex hull is touched.
    let face = vec![
        mesh_v(-1.0, -1.0, 0.0, Some((0.0, 0.0, 1.0))),
        mesh_v(1.0, -1.0, 0.0, Some((0.0, 0.0, 1.0))),
        mesh_v(0.0, 1.0, 0.0, Some((0.0, 0.0, 1.0))),
    ];
    let model = MeshObject { faces: vec![face] };
    let mut fb = FrameBuffer::new(100, 100);
    fb.clean((16, 16, 16));
    let mut z = vec![i64::MIN; 100 * 100];
    draw_object_model_gouraud(
        &model,
        &Vec::new(),
        &Material::white_plastic(),
        (0, 0, q(5.0)),
        (0, 0, 0),
        Vec3 { x: 0, y: 0, z: ONE },
        q(100.0),
        100,
        100,
        &mut fb,
        &mut z,
    );
    // The screen-space triangle spans x in [30, 70], y in [30, 70].
    assert!(z[50 * 100 + 50] > i64::MIN, "centroid covered");
    assert!(z[40 * 100 + 50] > i64::MIN, "upper middle covered");
    // Far outside the hull nothing is written.
    for &(x, y) in [(5usize, 5usize), (95, 5), (5, 95), (95, 95), (50, 5)].iter() {
        let idx = y * 100 + x;
        assert_eq!(z[idx], i64::MIN, "pixel {x} {y}");
        assert_eq!(
            (fb.pixels[3 * idx], fb.pixels[3 * idx + 1], fb.pixels[3 * idx + 2]),
            (16, 16, 16),
            "pixel {x} {y}"
        );
    }
}

#[test]
fn raytrace_and_rasterizer_agree_on_unit_triangle() {
    // One unit triangle facing the camera under a head-on light, rendered
    // by both pipelines with the same material and matched optics
    // (rasterizer focal = zoom * width / 2).
    let v0 = (-0.5, -0.5, 0.0);
    let v1 = (0.5, -0.5, 0.0);
    let v2 = (0.0, 0.5, 0.0);
    let n = Some((0.0, 0.0, 1.0));
    let eye = (0, 0, q(6.0));
    let light = Vec3 { x: 0, y: 0, z: ONE };

    let mut fb_r = FrameBuffer::new(100, 100);
    fb_r.clean((16, 16, 16));
    let mut z = vec![i64::MIN; 100 * 100];
    let face = vec![
        mesh_v(v0.0, v0.1, v0.2, n),
        mesh_v(v1.0, v1.1, v1.2, n),
        mesh_v(v2.0, v2.1, v2.2, n),
    ];
    let model = MeshObject { faces: vec![face] };
    draw_object_model_gouraud(
        &model,
        &Vec::new(),
        &Material::green_plastic(),
        eye,
        (0, 0, 0),
        light,
        q(175.0),
        100,
        100,
        &mut fb_r,
        &mut z,
    );

    let mut fb_t = FrameBuffer::new(100, 100);
    fb_t.clean((16, 16, 16));
    let tris = vec![(
        Vec3 { x: q(v0.0), y: q(v0.1), z: q(v0.2) },
        Vec3 { x: q(v1.0), y: q(v1.1), z: q(v1.2) },
        Vec3 { x: q(v2.0), y: q(v2.1), z: q(v2.2) },
        Vec3 { x: 0, y: 0, z: ONE },
        Vec3 { x: 0, y: 0, z: ONE },
        Vec3 { x: 0, y: 0, z: ONE },
    )];
    render_raytrace(&tris, eye, (0, 0, 0), light, 100, 100, &mut fb_t);

    // At a pixel inside both silhouettes, both pipelines shade the
    // triangle, and their colors agree within shading-model tolerance.
    let idx = 52 * 100 + 50;
    let cr = (fb_r.pixels[3 * idx], fb_r.pixels[3 * idx + 1], fb_r.pixels[3 * idx + 2]);
    let ct = (fb_t.pixels[3 * idx], fb_t.pixels[3 * idx + 1], fb_t.pixels[3 * idx + 2]);
    assert_ne!(cr, (16, 16, 16), "rasterizer covers the centroid pixel");
    assert_ne!(ct, (16, 16, 16), "ray tracer covers the centroid pixel");
    assert!((cr.0 as i32 - ct.0 as i32).abs() <= 20, "{cr:?} vs {ct:?}");
    assert!((cr.1 as i32 - ct.1 as i32).abs() <= 20, "{cr:?} vs {ct:?}");
    assert!((cr.2 as i32 - ct.2 as i32).abs() <= 20, "{cr:?} vs {ct:?}");

    // Far outside the silhouette both pipelines show the background.
    for &(x, y) in [(5usize, 5usize), (95, 5), (5, 95), (95, 95)].iter() {
        let idx = y * 100 + x;
        let cr = (fb_r.pixels[3 * idx], fb_r.pixels[3 * idx + 1], fb_r.pixels[3 * idx + 2]);
        let ct = (fb_t.pixels[3 * idx], fb_t.pixels[3 * idx + 1], fb_t.pixels[3 * idx + 2]);
        assert_eq!(cr, (16, 16, 16));
        assert_eq!(ct, (16, 16, 16));
    }
}

#[test]
fn bvh_leaves_partition_triangles() {
    // Eight triangles spread along x: the tree's leaf ranges must cover
    // the whole range exactly once and every leaf box must contain its
    // triangles.
    let mut tris: Vec<TriData> = (0..8)
        .map(|i| {
            let base = q(i as f64 * 4.0);
            TriData {
                v0: Vec3 { x: base, y: 0, z: 0 },
                v1: Vec3 { x: base + ONE, y: ONE, z: 0 },
                v2: Vec3 { x: base, y: 0, z: ONE },
                n0: Vec3 { x: 0, y: ONE, z: 0 },
                n1: Vec3 { x: 0, y: ONE, z: 0 },
                n2: Vec3 { x: 0, y: ONE, z: 0 },
                center: Vec3 { x: base, y: 0, z: 0 },
            }
        })
        .collect();
    let mut nodes: Vec<BVHNode> = Vec::new();
    let root = build_bvh(&mut tris, &mut nodes, 0, 8);
    assert_eq!(root, 0);
    assert_eq!(tris.len(), 8);

    // Walk the tree, collecting leaf ranges in order.
    let mut ranges: Vec<(usize, usize)> = Vec::new();
    let mut stack = vec![root];
    while let Some(i) = stack.pop() {
        let n = &nodes[i];
        if n.tri_count > 0 {
            ranges.push((n.first_tri, n.first_tri + n.tri_count));
            // Every triangle of the leaf lies inside the leaf's box.
            for t in n.first_tri..n.first_tri + n.tri_count {
                for v in [tris[t].v0, tris[t].v1, tris[t].v2] {
                    assert!(n.bbox_min.x <= v.x && v.x <= n.bbox_max.x);
                    assert!(n.bbox_min.y <= v.y && v.y <= n.bbox_max.y);
                    assert!(n.bbox_min.z <= v.z && v.z <= n.bbox_max.z);
                }
            }
        } else {
            stack.push(n.right_child);
            stack.push(n.left_child);
        }
    }
    ranges.sort();
    let mut expect = 0;
    for (lo, hi) in ranges {
        assert_eq!(lo, expect, "leaf ranges must be consecutive");
        assert!(hi > lo);
        expect = hi;
    }
    assert_eq!(expect, 8, "leaves must cover all triangles");
}

#[test]
fn raytrace_empty_scene_is_all_background() {
    let mut fb = FrameBuffer::new(32, 32);
    fb.clean((200, 200, 200));
    let tris: Vec<(Vec3, Vec3, Vec3, Vec3, Vec3, Vec3)> = Vec::new();
    render_raytrace(&tris, (0, 0, q(5.0)), (0, 0, 0), Vec3 { x: 0, y: 0, z: ONE }, 32, 32, &mut fb);
    assert!(fb.pixels.iter().all(|&b| b == 16));
}

#[test]
fn intersect_triangle_hit_and_miss() {
    let v0 = Vec3 { x: q(-1.0), y: q(-1.0), z: 0 };
    let v1 = Vec3 { x: q(1.0), y: q(-1.0), z: 0 };
    let v2 = Vec3 { x: 0, y: q(1.0), z: 0 };
    let orig = Vec3 { x: 0, y: 0, z: q(5.0) };
    let toward = Vec3 { x: 0, y: 0, z: -ONE };
    let away = Vec3 { x: 0, y: 0, z: ONE };
    let hit = intersect_triangle_barycentric(orig, toward, v0, v1, v2);
    let (t, u, v) = hit.expect("head-on ray must hit");
    assert!((t - q(5.0)).abs() <= 16, "t {t}");
    assert!(u >= 0 && v >= 0 && u + v <= ONE);
    assert!(intersect_triangle_barycentric(orig, away, v0, v1, v2).is_none());
}

#[test]
fn do_transforms_translates_triangles() {
    let tris = vec![(
        Vec3 { x: 0, y: 0, z: 0 },
        Vec3 { x: ONE, y: 0, z: 0 },
        Vec3 { x: 0, y: ONE, z: 0 },
        Vec3 { x: 0, y: 0, z: ONE },
        Vec3 { x: 0, y: 0, z: ONE },
        Vec3 { x: 0, y: 0, z: ONE },
    )];
    let ts = vec![Transform {
        scale: ONE,
        rotation: (ident_rot(), ident_rot(), ident_rot()),
        translation: (q(2.0), 0, 0),
    }];
    let out = do_transforms(tris, &ts);
    assert_eq!(out.len(), 1);
    assert_eq!(out[0].0.x, q(2.0));
    assert_eq!(out[0].1.x, q(3.0));
    assert_eq!(out[0].3.z, ONE, "normals are not translated");
}

#[test]
fn get_triangles_defaults_missing_normals() {
    let faces = vec![(
        mesh_v(0.0, 0.0, 0.0, None),
        mesh_v(1.0, 0.0, 0.0, Some((0.0, 0.0, 1.0))),
        mesh_v(0.0, 1.0, 0.0, None),
    )];
    let tris = get_triangles(&faces);
    assert_eq!(tris.len(), 1);
    assert_eq!((tris[0].3.x, tris[0].3.y, tris[0].3.z), (0, ONE, 0));
    assert_eq!((tris[0].4.x, tris[0].4.y, tris[0].4.z), (0, 0, ONE));
    assert_eq!((tris[0].5.x, tris[0].5.y, tris[0].5.z), (0, ONE, 0));
}

#[test]
fn calculate_normal_of_flat_triangle() {
    let n = calculate_normal((0, 0, 0), (ONE, 0, 0), (0, ONE, 0));
    assert_eq!((n.x, n.y, n.z), (0, 0, ONE));
}

#[test]
fn compute_vertex_normals_distributes_face_normal() {
    let points = vec![(0, 0, 0), (ONE, 0, 0), (0, ONE, 0), (q(9.0), q(9.0), q(9.0))];
    let faces = vec![vec![0usize, 1, 2]];
    let normals = compute_vertex_normals(&points, &faces);
    assert_eq!(normals.len(), 4);
    assert!(normals[0].z != 0, "face vertices carry the face normal");
    assert_eq!((normals[3].x, normals[3].y, normals[3].z), (0, 0, 0));
}

#[test]
fn point_in_polygon_square() {
    let sq: Vec<(i64, i64)> = vec![(0, 0), (q(10.0), 0), (q(10.0), q(10.0)), (0, q(10.0))];
    assert!(is_point_in_polygon(&sq, (q(5.0), q(5.0))));
    assert!(!is_point_in_polygon(&sq, (q(15.0), q(5.0))));
}

#[test]
fn material_catalog_values() {
    let g = Material::green_plastic();
    assert_eq!(g.ka, (0, 0, 0));
    assert_eq!(g.kd, (6554, 22938, 6554));
    assert_eq!(g.ks, (29491, 36045, 29491));
    assert_eq!(g.ns, 32);
    let p = Material::pearl();
    assert_eq!(p.kd.0, ONE);
    assert_eq!(p.ns, 11);
}

#[test]
fn frame_buffer_clean_and_pixel() {
    let mut fb = FrameBuffer::new(4, 4);
    fb.clean((1, 2, 3));
    assert_eq!(&fb.pixels[0..6], &[1, 2, 3, 1, 2, 3]);
    fb.pixel(2, 1, (9, 8, 7));
    let idx = (1 * 4 + 2) * 3;
    assert_eq!(&fb.pixels[idx..idx + 3], &[9, 8, 7]);
    assert_eq!(fb.as_slice().len(), 4 * 4 * 3);
}
