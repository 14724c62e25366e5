use rand::rngs::StdRng;
use rand::SeedableRng;
use ray_tracing_wgpu::ray_tracer::object::{
    as_shader_types, build_bvh, Material, Mesh, ObjPrim, Object, Sphere, SpherePrim, Triangle,
    Vec3, AABB,
};
use ray_tracing_wgpu::ray_tracer::shader_type;

fn v(x: f32, y: f32, z: f32) -> Vec3 {
    Vec3 { x: x.to_bits(), y: y.to_bits(), z: z.to_bits() }
}

fn f(bits: u32) -> f32 {
    f32::from_bits(bits)
}

fn sphere_prim(cx: f32, cy: f32, cz: f32, r: f32) -> SpherePrim {
    let bbox = AABB::new(v(cx - r, cy - r, cz - r), v(cx + r, cy + r, cz + r));
    SpherePrim { center: v(cx, cy, cz), radius: r.to_bits(), bbox }
}

fn sphere(cx: f32, cy: f32, cz: f32, r: f32, material: Material) -> Object {
    let p = sphere_prim(cx, cy, cz, r);
    Object::Sphere(Sphere::new(p.center, p.radius, p.bbox, material))
}

fn le(a: u32, b: u32) -> bool {
    // the scalar total order used by the library, checked over real floats
    ray_tracing_wgpu::ray_tracer::object::cmp_le(a, b)
}

fn box_contains(outer: &AABB, inner: &AABB) -> bool {
    le(outer.min.x, inner.min.x)
        && le(outer.min.y, inner.min.y)
        && le(outer.min.z, inner.min.z)
        && le(inner.max.x, outer.max.x)
        && le(inner.max.y, outer.max.y)
        && le(inner.max.z, outer.max.z)
}

#[test]
fn single_sphere_gives_one_leaf_at_root() {
    let prim = sphere_prim(0.0, 1.0, 0.0, 1.0);
    let prims = vec![ObjPrim::Sphere(prim)];
    let mut rng = StdRng::seed_from_u64(1);
    let nodes = build_bvh(&prims, &mut rng);
    assert_eq!(nodes.len(), 1);
    assert_eq!(nodes[0].object_idx, 0);
    assert_eq!(nodes[0].left_idx, -1);
    assert_eq!(nodes[0].right_idx, -1);
    assert_eq!(nodes[0].bbox, prim.bbox);
}

#[test]
fn bvh_nodes_satisfy_the_invariant() {
    let mut prims: Vec<ObjPrim> = Vec::new();
    let coords = [
        (0.0f32, -1000.0f32, 0.0f32, 1000.0f32),
        (4.0, 1.0, 0.0, 1.0),
        (0.0, 1.0, 0.0, 1.0),
        (-4.0, 1.0, 0.0, 1.0),
        (2.5, 0.2, -3.0, 0.2),
        (-7.25, 0.2, 8.5, 0.2),
        (1.0, 0.2, 1.0, 0.2),
        (-2.0, 0.2, -2.0, 0.2),
        (6.0, 0.2, 2.0, 0.2),
        (-6.0, 0.2, -4.0, 0.2),
    ];
    for (cx, cy, cz, r) in coords {
        prims.push(ObjPrim::Sphere(sphere_prim(cx, cy, cz, r)));
    }
    let mut rng = StdRng::seed_from_u64(42);
    let nodes = build_bvh(&prims, &mut rng);
    assert_eq!(nodes.len(), 2 * prims.len() - 1);

    let mut leaf_seen = vec![0usize; prims.len()];
    for (i, n) in nodes.iter().enumerate() {
        if n.object_idx >= 0 {
            // leaf: valid primitive, no children, the primitive's box
            leaf_seen[n.object_idx as usize] += 1;
            assert_eq!(n.left_idx, -1);
            assert_eq!(n.right_idx, -1);
            let idx = n.object_idx as usize;
            assert!(idx < prims.len());
            assert_eq!(&n.bbox, prims[idx].bbox());
        } else {
            // internal: two valid children, box is exactly their union
            let l = n.left_idx as usize;
            let r = n.right_idx as usize;
            assert!(l >= 1 && l < nodes.len());
            assert!(r >= 1 && r < nodes.len());
            if i > 0 {
                assert!(l < i && r < i);
            }
            let u = nodes[l].bbox.union(&nodes[r].bbox);
            assert_eq!(n.bbox, u);
        }
    }
    // every primitive appears as a leaf exactly once
    for count in &leaf_seen {
        assert_eq!(*count, 1);
    }

    // the root encloses every primitive
    for p in &prims {
        assert!(box_contains(&nodes[0].bbox, p.bbox()));
    }
}

#[test]
fn aabb_new_orders_corners() {
    let b = AABB::new(v(-1.5, 2.0, 0.0), v(1.0, -3.0, 0.0));
    assert_eq!(f(b.min.x), -1.5);
    assert_eq!(f(b.min.y), -3.0);
    assert_eq!(f(b.max.x), 1.0);
    assert_eq!(f(b.max.y), 2.0);
}

#[test]
fn aabb_union_encloses_both() {
    let a = AABB::new(v(-1.0, -1.0, -1.0), v(1.0, 1.0, 1.0));
    let b = AABB::new(v(0.5, -4.0, 0.0), v(2.0, 0.0, 3.5));
    let u = a.union(&b);
    assert_eq!(f(u.min.x), -1.0);
    assert_eq!(f(u.min.y), -4.0);
    assert_eq!(f(u.min.z), -1.0);
    assert_eq!(f(u.max.x), 2.0);
    assert_eq!(f(u.max.y), 1.0);
    assert_eq!(f(u.max.z), 3.5);
    assert!(box_contains(&u, &a));
    assert!(box_contains(&u, &b));
}

#[test]
fn scalar_order_matches_float_order() {
    let samples = [-1000.0f32, -4.25, -1.0, -0.25, 0.0, 0.125, 1.0, 3.5, 1000.0];
    for &a in &samples {
        for &b in &samples {
            assert_eq!(le(a.to_bits(), b.to_bits()), a <= b, "{a} vs {b}");
        }
    }
}

#[test]
fn scene_arrays_keep_object_order() {
    let red = Material::Diffuse { albedo: v(0.4, 0.2, 0.1) };
    let glass = Material::Transparent { albedo: v(1.0, 1.0, 1.0), ref_idx: 1.5f32.to_bits() };
    let metal = Material::Reflective { albedo: v(0.7, 0.6, 0.5), fuzz: 0.1f32.to_bits() };

    let tri0 = Triangle::new(
        v(0.0, 0.0, 0.0),
        v(1.0, 0.0, 0.0),
        v(0.0, 1.0, 0.0),
        v(0.0, 0.0, 1.0),
        v(0.0, 0.0, 1.0),
        v(0.0, 0.0, 1.0),
    );
    let tri1 = Triangle::new(
        v(0.0, 0.0, 1.0),
        v(1.0, 0.0, 1.0),
        v(0.0, 1.0, 1.0),
        v(0.0, 0.0, 1.0),
        v(0.0, 0.0, 1.0),
        v(0.0, 0.0, 1.0),
    );
    let objects = vec![
        sphere(0.0, 1.0, 0.0, 1.0, red),
        Object::Mesh(Mesh { triangles: vec![tri0, tri1], material: metal }),
        sphere(4.0, 1.0, 0.0, 1.0, glass),
    ];
    let mut rng = StdRng::seed_from_u64(3);
    let (bvh, objs, mats) = as_shader_types(&objects, &mut rng);

    assert_eq!(mats.materials.len(), 3);
    assert_eq!(mats.materials[0].mat_type, shader_type::MAT_DIFFUSE);
    assert_eq!(mats.materials[1].mat_type, shader_type::MAT_REFLECTIVE);
    assert_eq!(mats.materials[1].param1, 0.1f32.to_bits());
    assert_eq!(mats.materials[2].mat_type, shader_type::MAT_TRANSPARENT);
    assert_eq!(mats.materials[2].param1, 1.5f32.to_bits());

    assert_eq!(objs.objects.len(), 4);
    assert_eq!(objs.objects[0].obj_type, shader_type::OBJ_SPHERE);
    assert_eq!(objs.objects[0].mat_idx, 0);
    assert_eq!(objs.objects[0].v0, v(0.0, 1.0, 0.0));
    assert_eq!(objs.objects[0].v1.x, 1.0f32.to_bits());
    assert_eq!(objs.objects[1].obj_type, shader_type::OBJ_TRIANGLE);
    assert_eq!(objs.objects[1].mat_idx, 1);
    assert_eq!(objs.objects[1].v0, tri0.v0);
    assert_eq!(objs.objects[2].mat_idx, 1);
    assert_eq!(objs.objects[3].obj_type, shader_type::OBJ_SPHERE);
    assert_eq!(objs.objects[3].mat_idx, 2);

    // four primitives in all: 2*4 - 1 nodes
    assert_eq!(bvh.nodes.len(), 7);
}

#[test]
fn triangle_new_bounds_vertices() {
    let t = Triangle::new(
        v(0.0, 0.0, 0.0),
        v(2.0, -1.0, 0.0),
        v(-1.0, 3.0, 0.5),
        v(0.0, 0.0, 1.0),
        v(0.0, 0.0, 1.0),
        v(0.0, 0.0, 1.0),
    );
    assert_eq!(f(t.bbox.min.x), -1.0);
    assert_eq!(f(t.bbox.min.y), -1.0);
    assert_eq!(f(t.bbox.min.z), 0.0);
    assert_eq!(f(t.bbox.max.x), 2.0);
    assert_eq!(f(t.bbox.max.y), 3.0);
    assert_eq!(f(t.bbox.max.z), 0.5);
}
