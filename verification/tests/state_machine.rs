use rand::rngs::StdRng;
use rand::SeedableRng;
use ray_tracing_wgpu::ray_tracer::object::{Material, Object, Sphere, Vec2, Vec3, AABB};
use ray_tracing_wgpu::ray_tracer::{ComputeDispatch, Param, RayTracer};

fn v(x: f32, y: f32, z: f32) -> Vec3 {
    Vec3 { x: x.to_bits(), y: y.to_bits(), z: z.to_bits() }
}

fn sphere(cx: f32, cy: f32, cz: f32, r: f32) -> Object {
    let bbox = AABB::new(v(cx - r, cy - r, cz - r), v(cx + r, cy + r, cz + r));
    Object::Sphere(Sphere::new(
        v(cx, cy, cz),
        r.to_bits(),
        bbox,
        Material::Diffuse { albedo: v(0.5, 0.5, 0.5) },
    ))
}

fn tracer(now: u64) -> RayTracer {
    let mut rng = StdRng::seed_from_u64(7);
    let objects = vec![sphere(0.0, 1.0, 0.0, 1.0)];
    RayTracer::new(&objects, &mut rng, now)
}

#[test]
fn set_params_equal_is_noop() {
    let mut rt = tracer(5);
    let mut p = *rt.get_params();
    p.display_size = Vec2 { x: 100, y: 50 };
    assert!(rt.set_params(&p, 10));
    assert!(rt.update(12).is_some());
    let stat_before = *rt.get_stat();
    let q = p;
    assert!(!rt.set_params(&q, 99));
    let stat_after = *rt.get_stat();
    assert_eq!(stat_before.frame_counter, stat_after.frame_counter);
    assert_eq!(stat_before.time_spent, stat_after.time_spent);
    assert_eq!(stat_before.time_start, stat_after.time_start);
}

#[test]
fn set_params_changed_resets_counter() {
    let mut rt = tracer(0);
    let mut p = *rt.get_params();
    p.display_size = Vec2 { x: 64, y: 64 };
    assert!(rt.set_params(&p, 1));
    rt.update(2);
    rt.update(3);
    assert_eq!(rt.get_stat().frame_counter, 2);
    p.camera.yaw = 81.0f32.to_bits();
    assert!(rt.set_params(&p, 40));
    assert_eq!(rt.get_stat().frame_counter, 0);
    assert!(rt.get_stat().is_rendering);
    assert_eq!(rt.get_stat().time_start, 40);
    assert_eq!(rt.get_stat().time_spent, 0);
}

#[test]
fn update_idempotent_after_cap() {
    let mut rt = tracer(0);
    let mut p = *rt.get_params();
    p.max_sample = 2;
    p.display_size = Vec2 { x: 16, y: 16 };
    rt.set_params(&p, 0);
    assert!(rt.update(1).is_some());
    assert!(rt.update(2).is_some());
    assert!(rt.update(3).is_none());
    let frozen = *rt.get_stat();
    assert!(!frozen.is_rendering);
    assert_eq!(frozen.time_spent, 3);
    for now in 4..10u64 {
        assert!(rt.update(now).is_none());
        assert_eq!(*rt.get_stat(), frozen);
    }
}

#[test]
fn four_updates_then_finish() {
    let mut rt = tracer(0);
    let mut p = *rt.get_params();
    p.max_sample = 4;
    p.display_size = Vec2 { x: 32, y: 32 };
    rt.set_params(&p, 0);
    for expected in 0..4u32 {
        assert_eq!(rt.get_stat().frame_counter, expected);
        let d = rt.update(u64::from(expected) + 1).expect("dispatch while accumulating");
        assert_eq!(d.frame_index, expected);
        assert_eq!(rt.get_stat().frame_counter, expected + 1);
    }
    assert_eq!(rt.get_stat().frame_counter, 4);
    assert!(rt.get_stat().is_rendering);
    assert!(rt.update(9).is_none());
    assert_eq!(rt.get_stat().frame_counter, 4);
    assert!(!rt.get_stat().is_rendering);
}

#[test]
fn dispatch_grid_covers_viewport() {
    let mut rt = tracer(0);
    let mut p = *rt.get_params();
    p.display_size = Vec2 { x: 100, y: 50 };
    rt.set_params(&p, 0);
    let d = rt.update(1).unwrap();
    assert_eq!(
        d,
        ComputeDispatch { frame_index: 0, groups_x: 100 / 16 + 1, groups_y: 50 / 16 + 1 }
    );
    assert_eq!(d.groups_x, 7);
    assert_eq!(d.groups_y, 4);
}

#[test]
fn default_param_values() {
    let rt = tracer(0);
    let p = *rt.get_params();
    assert_eq!(p.max_sample, 256);
    assert_eq!(p.max_bounce, 8);
    assert_eq!(p.display_size, Vec2 { x: 1, y: 1 });
    assert_eq!(p.camera.yaw, 80.0f32.to_bits());
    assert_eq!(p.camera.pitch, (-5.0f32).to_bits());
    assert_eq!(p.camera.fov, 20.0f32.to_bits());
    assert_eq!(p.camera.aperture, 0.1f32.to_bits());
    assert_eq!(p.camera.focus_distance, 10.0f32.to_bits());
    assert_eq!(p.camera.position, v(13.0, 2.0, 3.0));
}

#[test]
fn time_spent_tracks_updates() {
    let mut rt = tracer(100);
    let mut p = *rt.get_params();
    p.display_size = Vec2 { x: 8, y: 8 };
    rt.set_params(&p, 100);
    rt.update(130);
    assert_eq!(rt.get_stat().time_spent, 30);
    rt.update(145);
    assert_eq!(rt.get_stat().time_spent, 45);
    assert_eq!(rt.get_stat().time_start, 100);
}

#[test]
fn elapsed_time_never_negative() {
    let mut rt = tracer(1000);
    let mut p = *rt.get_params();
    p.display_size = Vec2 { x: 8, y: 8 };
    rt.set_params(&p, 1000);
    // a clock reading earlier than the accumulation start clamps to zero
    rt.update(900);
    assert_eq!(rt.get_stat().time_spent, 0);
    rt.update(1004);
    assert_eq!(rt.get_stat().time_spent, 4);
}

#[test]
fn param_default_trait() {
    let p = Param::default();
    assert_eq!(p.max_sample, 256);
    let q = Param::default();
    assert_eq!(p, q);
}
