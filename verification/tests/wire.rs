use ray_tracing_wgpu::ray_tracer::buffer::{
    bytes_to_words, create_bind_group, i32_to_word, word_to_i32, words_to_bytes, BindGroupEntryDesc,
    BindingKind, ShaderStage,
};
use ray_tracing_wgpu::ray_tracer::object::{Vec2, Vec3, AABB};
use ray_tracing_wgpu::ray_tracer::shader_type::{
    BVHNode, Camera, Material, Object, Objects, Param, Stat, BVH, MAT_REFLECTIVE, OBJ_SPHERE,
};
use ray_tracing_wgpu::ray_tracer::{CameraParam, HitAlgorithm, ShadingAlgorithm};

fn v(x: f32, y: f32, z: f32) -> Vec3 {
    Vec3 { x: x.to_bits(), y: y.to_bits(), z: z.to_bits() }
}

#[test]
fn stat_block_is_one_word() {
    let s = Stat { frame_counter: 7 };
    let bytes = s.encode();
    assert_eq!(bytes, vec![7, 0, 0, 0]);
    let ws = bytes_to_words(&bytes);
    assert_eq!(Stat::from_words(&ws, 0), s);
}

#[test]
fn sphere_primitive_roundtrip() {
    let o = Object {
        obj_type: OBJ_SPHERE,
        mat_idx: 3,
        v0: v(0.0, 1.0, 0.0),
        v1: v(1.0, 0.0, 0.0),
        v2: v(0.0, 0.0, 0.0),
        n0: v(0.0, 0.0, 0.0),
        n1: v(0.0, 0.0, 0.0),
        n2: v(0.0, 0.0, 0.0),
    };
    let mut ws: Vec<u32> = Vec::new();
    o.push_words(&mut ws);
    assert_eq!(ws.len(), 28);
    assert_eq!(ws[0], OBJ_SPHERE);
    assert_eq!(ws[1], 3);
    assert_eq!(ws[4], 0.0f32.to_bits());
    assert_eq!(ws[5], 1.0f32.to_bits());
    assert_eq!(Object::from_words(&ws, 0), o);
}

#[test]
fn material_words_layout() {
    let m = Material { mat_type: MAT_REFLECTIVE, albedo: v(0.7, 0.6, 0.5), param1: 0.25f32.to_bits() };
    let mut ws: Vec<u32> = Vec::new();
    m.push_words(&mut ws);
    assert_eq!(
        ws,
        vec![
            1,
            0,
            0,
            0,
            0.7f32.to_bits(),
            0.6f32.to_bits(),
            0.5f32.to_bits(),
            0.25f32.to_bits(),
        ]
    );
    // through the byte image and back
    let bytes = words_to_bytes(&ws);
    assert_eq!(bytes.len(), 32);
    assert_eq!(&bytes[0..4], &[1, 0, 0, 0]);
    assert_eq!(&bytes[16..20], &0.7f32.to_bits().to_le_bytes());
    let back = bytes_to_words(&bytes);
    assert_eq!(Material::from_words(&back, 0), m);
}

#[test]
fn bvh_node_roundtrip_with_negative_indices() {
    let n = BVHNode {
        bbox: AABB { min: v(-1.0, -2.0, -3.0), max: v(1.0, 2.0, 3.0) },
        left_idx: -1,
        right_idx: 5,
        object_idx: -1,
    };
    let mut ws: Vec<u32> = Vec::new();
    n.push_words(&mut ws);
    assert_eq!(ws.len(), 12);
    assert_eq!(ws[8], 0xFFFF_FFFF);
    assert_eq!(ws[9], 5);
    assert_eq!(ws[10], 0xFFFF_FFFF);
    assert_eq!(BVHNode::from_words(&ws, 0), n);
}

#[test]
fn signed_index_word_roundtrip() {
    for x in [-2147483648i32, -17, -1, 0, 1, 42, 2147483647] {
        assert_eq!(word_to_i32(i32_to_word(x)), x);
    }
    assert_eq!(i32_to_word(-1), 0xFFFF_FFFF);
    assert_eq!(i32_to_word(-2), 0xFFFF_FFFE);
}

#[test]
fn camera_block_roundtrip() {
    let c = Camera {
        position: v(13.0, 2.0, 3.0),
        horizontal: v(1.0, 0.0, 0.0),
        vertical: v(0.0, 1.0, 0.0),
        start: v(-4.0, 1.5, -10.0),
        vx: v(8.0, 0.0, 0.0),
        vy: v(0.0, -3.0, 0.0),
        lens_radius: 0.05f32.to_bits(),
    };
    let mut ws: Vec<u32> = Vec::new();
    c.push_words(&mut ws);
    assert_eq!(ws.len(), 24);
    assert_eq!(ws[23], 0.05f32.to_bits());
    assert_eq!(ws[3], 0);
    assert_eq!(Camera::from_words(&ws, 0), c);
}

#[test]
fn param_block_roundtrip_through_bytes() {
    let c = Camera {
        position: v(0.0, 0.0, 0.0),
        horizontal: v(1.0, 0.0, 0.0),
        vertical: v(0.0, 1.0, 0.0),
        start: v(-1.0, 1.0, -1.0),
        vx: v(2.0, 0.0, 0.0),
        vy: v(0.0, -2.0, 0.0),
        lens_radius: 0,
    };
    let p = Param {
        camera: c,
        display_size: Vec2 { x: 800, y: 600 },
        hit_algorithm: 1,
        shading_algorithm: 0,
        max_bounce: 8,
    };
    let bytes = p.encode();
    assert_eq!(bytes.len(), 128);
    let ws = bytes_to_words(&bytes);
    assert_eq!(ws[24], 800);
    assert_eq!(ws[25], 600);
    assert_eq!(ws[26], 1);
    assert_eq!(ws[27], 0);
    assert_eq!(ws[28], 8);
    assert_eq!(Param::from_words(&ws, 0), p);
}

#[test]
fn host_param_maps_algorithm_codes() {
    let mut hp = ray_tracing_wgpu::ray_tracer::Param::default();
    hp.hit_algorithm = HitAlgorithm::Brute;
    hp.shading_algorithm = ShadingAlgorithm::Smooth;
    let cam = Camera {
        position: v(0.0, 0.0, 0.0),
        horizontal: v(1.0, 0.0, 0.0),
        vertical: v(0.0, 1.0, 0.0),
        start: v(0.0, 0.0, -1.0),
        vx: v(2.0, 0.0, 0.0),
        vy: v(0.0, -2.0, 0.0),
        lens_radius: 0,
    };
    let wire = hp.as_shader_type(cam);
    assert_eq!(wire.hit_algorithm, 0);
    assert_eq!(wire.shading_algorithm, 1);
    assert_eq!(wire.display_size, hp.display_size);
    assert_eq!(wire.max_bounce, hp.max_bounce);
    assert_eq!(wire.camera, cam);
}

#[test]
fn bvh_blob_header_and_stride() {
    let n = BVHNode {
        bbox: AABB { min: v(0.0, 0.0, 0.0), max: v(1.0, 1.0, 1.0) },
        left_idx: -1,
        right_idx: -1,
        object_idx: 0,
    };
    let blob = BVH { nodes: vec![n, n] };
    let bytes = blob.encode();
    // four header words, then two nodes of twelve words each
    assert_eq!(bytes.len(), 4 * (4 + 2 * 12));
    let ws = bytes_to_words(&bytes);
    assert_eq!(ws[0], 2);
    assert_eq!(BVHNode::from_words(&ws, 4), n);
    assert_eq!(BVHNode::from_words(&ws, 16), n);
}

#[test]
fn objects_blob_counts_primitives() {
    let blob = Objects { objects: Vec::new() };
    let bytes = blob.encode();
    assert_eq!(bytes, vec![0u8; 16]);
}

#[test]
fn camera_param_is_plain_data() {
    let c = CameraParam::default();
    let d = CameraParam::default();
    assert_eq!(c, d);
    let mut e = d;
    e.fov = 21.0f32.to_bits();
    assert_ne!(c, e);
}

#[test]
fn bind_group_entries_are_consecutive() {
    let kinds = vec![
        BindingKind::Uniform,
        BindingKind::Uniform,
        BindingKind::Storage { read_only: false },
        BindingKind::Storage { read_only: true },
    ];
    let entries = create_bind_group(&kinds, ShaderStage::Compute);
    assert_eq!(entries.len(), 4);
    for (i, e) in entries.iter().enumerate() {
        assert_eq!(
            *e,
            BindGroupEntryDesc {
                binding: i as u32,
                visibility: ShaderStage::Compute,
                kind: kinds[i],
            }
        );
    }
}
