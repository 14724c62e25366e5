//! The ray tracer's host-side core.
//!
//! `object` models geometry and builds the bounding-volume hierarchy,
//! `shader_type` defines the GPU wire layout of every uploaded block,
//! `buffer` lays out bind groups and serializes words to bytes, and
//! `util` holds the random source used by the scene builder.
//!
//! This module owns the progressive-sampling state machine. The GPU device
//! is driven by an unverified shell: each method here decides — compare and
//! store parameters, advance the frame counter, size the dispatch grid —
//! and hands the shell the actions to perform. Time enters as a caller
//! tick value, never read here.

pub mod buffer;
pub mod object;
pub mod shader_type;
pub mod util;

use crate::ray_tracer::object::{
    all_prim_indices, bvh_wf, covers_all, flat_prims, leaf_indices, prim_boxes, shader_materials,
    shader_objects, Object, Vec2, Vec3,
};
use vstd::prelude::*;

verus! {

/// Compute tile width: invocations per workgroup along x.
pub const WORKGROUP_SIZE_X: u32 = 16;

/// Compute tile height: invocations per workgroup along y.
pub const WORKGROUP_SIZE_Y: u32 = 16;

/// Largest supported viewport width; the frame buffer is allocated for it.
pub const MAX_WINDOW_SIZE_X: u32 = 1920;

/// Largest supported viewport height.
pub const MAX_WINDOW_SIZE_Y: u32 = 1080;

/// Bit pattern of 13.0, the default camera x position.
pub const DEFAULT_CAMERA_X: u32 = 0x4150_0000;

/// Bit pattern of 2.0, the default camera y position.
pub const DEFAULT_CAMERA_Y: u32 = 0x4000_0000;

/// Bit pattern of 3.0, the default camera z position.
pub const DEFAULT_CAMERA_Z: u32 = 0x4040_0000;

/// Bit pattern of 80.0, the default yaw in degrees.
pub const DEFAULT_YAW: u32 = 0x42A0_0000;

/// Bit pattern of -5.0, the default pitch in degrees.
pub const DEFAULT_PITCH: u32 = 0xC0A0_0000;

/// Bit pattern of 20.0, the default field of view in degrees.
pub const DEFAULT_FOV: u32 = 0x41A0_0000;

/// Bit pattern of 0.1, the default aperture.
pub const DEFAULT_APERTURE: u32 = 0x3DCC_CCCD;

/// Bit pattern of 10.0, the default focus distance.
pub const DEFAULT_FOCUS_DISTANCE: u32 = 0x4120_0000;

/// How rays are intersected with the scene.
#[derive(Clone, Copy, Debug, PartialEq, Eq, Structural)]
pub enum HitAlgorithm {
    Brute,
    BVH,
}

/// How surface normals are shaded.
#[derive(Clone, Copy, Debug, PartialEq, Eq, Structural)]
pub enum ShadingAlgorithm {
    Flat,
    Smooth,
}

/// The camera as the user steers it: position, yaw/pitch/fov in degrees,
/// aperture and focus distance — all scalar bit patterns. The device shell
/// derives the GPU camera basis from these in real arithmetic.
#[derive(Clone, Copy, Debug, PartialEq, Eq, Structural)]
pub struct CameraParam {
    pub position: Vec3,
    pub yaw: u32,
    pub pitch: u32,
    pub fov: u32,
    pub aperture: u32,
    pub focus_distance: u32,
}

impl CameraParam {
    /// The default viewpoint: position (13, 2, 3), yaw 80°, pitch -5°,
    /// fov 20°, aperture 0.1, focus distance 10.
    pub open spec fn spec_default() -> CameraParam {
        CameraParam {
            position: Vec3 { x: DEFAULT_CAMERA_X, y: DEFAULT_CAMERA_Y, z: DEFAULT_CAMERA_Z },
            yaw: DEFAULT_YAW,
            pitch: DEFAULT_PITCH,
            fov: DEFAULT_FOV,
            aperture: DEFAULT_APERTURE,
            focus_distance: DEFAULT_FOCUS_DISTANCE,
        }
    }
}

impl Default for CameraParam {
    fn default() -> (r: Self)
        ensures
            r == CameraParam::spec_default(),
    {
        CameraParam {
            position: Vec3 { x: DEFAULT_CAMERA_X, y: DEFAULT_CAMERA_Y, z: DEFAULT_CAMERA_Z },
            yaw: DEFAULT_YAW,
            pitch: DEFAULT_PITCH,
            fov: DEFAULT_FOV,
            aperture: DEFAULT_APERTURE,
            focus_distance: DEFAULT_FOCUS_DISTANCE,
        }
    }
}

/// Everything the host can change between frames. Compared bit-for-bit:
/// any difference — even a sub-pixel camera nudge — forces a full
/// accumulation reset, by design.
#[derive(Clone, Copy, Debug, PartialEq, Eq, Structural)]
pub struct Param {
    pub camera: CameraParam,
    pub display_size: Vec2,
    pub hit_algorithm: HitAlgorithm,
    pub shading_algorithm: ShadingAlgorithm,
    pub max_sample: u32,
    pub max_bounce: u32,
}

impl Param {
    /// The viewport fits the preallocated frame buffer and is non-empty.
    pub open spec fn wf(self) -> bool {
        &&& 1 <= self.display_size.x <= MAX_WINDOW_SIZE_X
        &&& 1 <= self.display_size.y <= MAX_WINDOW_SIZE_Y
    }

    pub open spec fn spec_default() -> Param {
        Param {
            camera: CameraParam::spec_default(),
            display_size: Vec2 { x: 1, y: 1 },
            hit_algorithm: HitAlgorithm::BVH,
            shading_algorithm: ShadingAlgorithm::Smooth,
            max_sample: 256,
            max_bounce: 8,
        }
    }

    /// The wire code of the hit algorithm.
    pub open spec fn spec_hit_code(self) -> u32 {
        match self.hit_algorithm {
            HitAlgorithm::Brute => shader_type::HIT_BRUTE,
            HitAlgorithm::BVH => shader_type::HIT_BVH,
        }
    }

    /// The wire code of the shading algorithm.
    pub open spec fn spec_shading_code(self) -> u32 {
        match self.shading_algorithm {
            ShadingAlgorithm::Flat => shader_type::SHADE_FLAT,
            ShadingAlgorithm::Smooth => shader_type::SHADE_SMOOTH,
        }
    }

    /// The parameter block as uploaded, given the camera basis the shell
    /// derived from `self.camera` and the viewport's aspect ratio.
    pub open spec fn spec_shader(self, camera: shader_type::Camera) -> shader_type::Param {
        shader_type::Param {
            camera,
            display_size: self.display_size,
            hit_algorithm: self.spec_hit_code(),
            shading_algorithm: self.spec_shading_code(),
            max_bounce: self.max_bounce,
        }
    }

    /// Assemble the wire parameter block around the derived camera basis.
    pub fn as_shader_type(&self, camera: shader_type::Camera) -> (r: shader_type::Param)
        ensures
            r == self.spec_shader(camera),
    {
        shader_type::Param {
            camera,
            display_size: self.display_size,
            hit_algorithm: match self.hit_algorithm {
                HitAlgorithm::Brute => shader_type::HIT_BRUTE,
                HitAlgorithm::BVH => shader_type::HIT_BVH,
            },
            shading_algorithm: match self.shading_algorithm {
                ShadingAlgorithm::Flat => shader_type::SHADE_FLAT,
                ShadingAlgorithm::Smooth => shader_type::SHADE_SMOOTH,
            },
            max_bounce: self.max_bounce,
        }
    }
}

impl Default for Param {
    /// Defaults: a one-pixel viewport until the host reports a size,
    /// hierarchy traversal, smooth shading, 256 samples, 8 bounces.
    fn default() -> (r: Self)
        ensures
            r == Param::spec_default(),
    {
        Param {
            camera: CameraParam::default(),
            display_size: Vec2 { x: 1, y: 1 },
            hit_algorithm: HitAlgorithm::BVH,
            shading_algorithm: ShadingAlgorithm::Smooth,
            max_sample: 256,
            max_bounce: 8,
        }
    }
}

/// Elapsed ticks between a start tick and now, zero if the clock reads
/// earlier than the start.
pub open spec fn elapsed(now: u64, start: u64) -> u64 {
    if now >= start {
        (now - start) as u64
    } else {
        0
    }
}

fn elapsed_ticks(now: u64, start: u64) -> (r: u64)
    ensures
        r == elapsed(now, start),
{
    if now >= start {
        now - start
    } else {
        0
    }
}

/// Progress of the current accumulation: whether it is still running, how
/// many frames have been accumulated, the elapsed ticks frozen at the last
/// update, and the tick the accumulation started at.
#[derive(Clone, Copy, Debug, PartialEq, Eq, Structural)]
pub struct Stat {
    pub is_rendering: bool,
    pub frame_counter: u32,
    pub time_spent: u64,
    pub time_start: u64,
}

impl Stat {
    /// A fresh accumulation started at `now`.
    pub open spec fn spec_new(now: u64) -> Stat {
        Stat { is_rendering: true, frame_counter: 0, time_spent: 0, time_start: now }
    }

    pub fn new(now: u64) -> (r: Stat)
        ensures
            r == Stat::spec_new(now),
    {
        Stat { is_rendering: true, frame_counter: 0, time_spent: 0, time_start: now }
    }

    /// The one field the GPU programs read: the frame counter.
    pub open spec fn spec_shader(self) -> shader_type::Stat {
        shader_type::Stat { frame_counter: self.frame_counter }
    }

    pub fn as_shader_type(&self) -> (r: shader_type::Stat)
        ensures
            r == self.spec_shader(),
    {
        shader_type::Stat { frame_counter: self.frame_counter }
    }
}

impl Default for Stat {
    /// A fresh accumulation with the clock at tick zero.
    fn default() -> (r: Self)
        ensures
            r == Stat::spec_new(0),
    {
        Stat::new(0)
    }
}

/// One compute dispatch the shell must submit: which accumulation frame it
/// contributes (uploaded to the progress uniform first) and the workgroup
/// grid covering the viewport.
#[derive(Clone, Copy, Debug, PartialEq, Eq, Structural)]
pub struct ComputeDispatch {
    pub frame_index: u32,
    pub groups_x: u32,
    pub groups_y: u32,
}

/// The orchestrator's host state: the stored parameter block, the
/// progress block, and the scene's three GPU arrays built once at
/// construction. The GPU handles themselves live in the device shell.
#[derive(Clone, Debug)]
pub struct RayTracer {
    pub stat: Stat,
    pub param: Param,
    pub bvh: shader_type::BVH,
    pub objects: shader_type::Objects,
    pub materials: shader_type::Materials,
}

impl RayTracer {
    /// Build the host state for a scene: default parameters, a fresh
    /// progress block started at `now`, and the three flat arrays the shell
    /// uploads once (encoded by their `encode` methods).
    pub fn new(objects: &Vec<Object>, rng: &mut rand::rngs::StdRng, now: u64) -> (r: RayTracer)
        requires
            1 <= flat_prims(objects@).len() <= 0x1000_0000,
            objects@.len() <= 0x1000_0000,
        ensures
            r.stat == Stat::spec_new(now),
            r.param == Param::spec_default(),
            r.bvh.nodes@.len() == 2 * flat_prims(objects@).len() - 1,
            bvh_wf(r.bvh.nodes@, prim_boxes(flat_prims(objects@))),
            covers_all(r.bvh.nodes@[0].bbox, prim_boxes(flat_prims(objects@))),
            leaf_indices(r.bvh.nodes@) == all_prim_indices(flat_prims(objects@).len()),
            r.objects.objects@ == shader_objects(objects@),
            r.materials.materials@ == shader_materials(objects@),
    {
        let (bvh, shader_objs, shader_mats) = object::as_shader_types(objects, rng);
        RayTracer {
            stat: Stat::new(now),
            param: Param::default(),
            bvh,
            objects: shader_objs,
            materials: shader_mats,
        }
    }

    pub fn get_params(&self) -> (r: &Param)
        ensures
            *r == self.param,
    {
        &self.param
    }

    pub fn get_stat(&self) -> (r: &Stat)
        ensures
            *r == self.stat,
    {
        &self.stat
    }

    /// What `set_params` does: the new state and whether anything changed.
    pub open spec fn spec_set_params(rt: RayTracer, param: Param, now: u64) -> (RayTracer, bool) {
        if rt.param == param {
            (rt, false)
        } else {
            (RayTracer { stat: Stat::spec_new(now), param, ..rt }, true)
        }
    }

    /// Adopt a parameter block. Equal to the stored one (bit-for-bit, the
    /// camera included): nothing happens. Different: it is stored and the
    /// progressive accumulation resets, the timer restarting at `now`.
    /// Returns whether anything changed; on `true` the shell re-uploads
    /// the encoded parameter block.
    pub fn set_params(&mut self, param: &Param, now: u64) -> (changed: bool)
        requires
            param.wf(),
        ensures
            (*final(self), changed) == RayTracer::spec_set_params(*old(self), *param, now),
            changed == (old(self).param != *param),
            !changed ==> *final(self) == *old(self),
            changed ==> *final(self) == (RayTracer {
                stat: Stat::spec_new(now),
                param: *param,
                ..*old(self)
            }),
    {
        if self.param == *param {
            return false;
        }
        self.param = *param;
        self.reset(now);
        true
    }

    /// Discard the accumulation and restart the timer.
    fn reset(&mut self, now: u64)
        ensures
            *final(self) == (RayTracer { stat: Stat::spec_new(now), ..*old(self) }),
    {
        self.stat = Stat::new(now);
    }

    /// What `update` does: the new state and the dispatch to submit, if
    /// any. A finished accumulation is untouched; one at its sample cap
    /// transitions to finished and freezes the elapsed time; a running one
    /// dispatches exactly once, its grid one workgroup beyond the viewport
    /// quotient on each axis, and advances the frame counter by exactly
    /// one.
    pub open spec fn spec_update(rt: RayTracer, now: u64) -> (RayTracer, Option<ComputeDispatch>) {
        if !rt.stat.is_rendering {
            (rt, None)
        } else if rt.stat.frame_counter >= rt.param.max_sample {
            (
                RayTracer {
                    stat: Stat {
                        is_rendering: false,
                        time_spent: elapsed(now, rt.stat.time_start),
                        ..rt.stat
                    },
                    ..rt
                },
                None,
            )
        } else {
            (
                RayTracer {
                    stat: Stat {
                        frame_counter: (rt.stat.frame_counter + 1) as u32,
                        time_spent: elapsed(now, rt.stat.time_start),
                        ..rt.stat
                    },
                    ..rt
                },
                Some(
                    ComputeDispatch {
                        frame_index: rt.stat.frame_counter,
                        groups_x: (rt.param.display_size.x / WORKGROUP_SIZE_X + 1) as u32,
                        groups_y: (rt.param.display_size.y / WORKGROUP_SIZE_Y + 1) as u32,
                    },
                ),
            )
        }
    }

    /// Advance the accumulation by one frame.
    ///
    /// Finished accumulations are left exactly as they are. An accumulation
    /// that just reached its sample cap transitions to finished, freezing
    /// the elapsed time; no dispatch. Otherwise exactly one dispatch is
    /// returned — tagged with the frame it contributes, its grid one
    /// workgroup beyond the viewport quotient on each axis (the program
    /// bounds-checks) — and the frame counter advances by exactly one.
    pub fn update(&mut self, now: u64) -> (r: Option<ComputeDispatch>)
        ensures
            (*final(self), r) == RayTracer::spec_update(*old(self), now),
            !old(self).stat.is_rendering ==> r is None && *final(self) == *old(self),
            old(self).stat.is_rendering && old(self).stat.frame_counter >= old(
                self,
            ).param.max_sample ==> r is None && *final(self) == (RayTracer {
                stat: Stat {
                    is_rendering: false,
                    frame_counter: old(self).stat.frame_counter,
                    time_spent: elapsed(now, old(self).stat.time_start),
                    time_start: old(self).stat.time_start,
                },
                ..*old(self)
            }),
            old(self).stat.is_rendering && old(self).stat.frame_counter < old(
                self,
            ).param.max_sample ==> r == Some(
                ComputeDispatch {
                    frame_index: old(self).stat.frame_counter,
                    groups_x: (old(self).param.display_size.x / WORKGROUP_SIZE_X + 1) as u32,
                    groups_y: (old(self).param.display_size.y / WORKGROUP_SIZE_Y + 1) as u32,
                },
            ) && *final(self) == (RayTracer {
                stat: Stat {
                    is_rendering: true,
                    frame_counter: (old(self).stat.frame_counter + 1) as u32,
                    time_spent: elapsed(now, old(self).stat.time_start),
                    time_start: old(self).stat.time_start,
                },
                ..*old(self)
            }),
    {
        if !self.stat.is_rendering {
            return None;
        }
        if self.stat.frame_counter >= self.param.max_sample {
            self.stat.is_rendering = false;
            self.stat.time_spent = elapsed_ticks(now, self.stat.time_start);
            return None;
        }
        let d = ComputeDispatch {
            frame_index: self.stat.frame_counter,
            groups_x: self.param.display_size.x / WORKGROUP_SIZE_X + 1,
            groups_y: self.param.display_size.y / WORKGROUP_SIZE_Y + 1,
        };
        self.stat.frame_counter = self.stat.frame_counter + 1;
        self.stat.time_spent = elapsed_ticks(now, self.stat.time_start);
        Some(d)
    }
}

/// Law: adopting equal parameter blocks twice, the second adoption changes
/// nothing — frame counter and elapsed time included.
pub proof fn lemma_set_params_equal_noop(rt: RayTracer, a: Param, b: Param, now1: u64, now2: u64)
    requires
        a == b,
    ensures
        ({
            let (rt1, c1) = RayTracer::spec_set_params(rt, a, now1);
            let (rt2, c2) = RayTracer::spec_set_params(rt1, b, now2);
            rt2 == rt1 && !c2
        }),
{
}

/// Law: adopting a parameter block different from the stored one resets the
/// frame counter to zero and restarts the accumulation.
pub proof fn lemma_set_params_changed_resets(rt: RayTracer, p: Param, now: u64)
    requires
        rt.param != p,
    ensures
        ({
            let (rt1, c1) = RayTracer::spec_set_params(rt, p, now);
            c1 && rt1.stat.frame_counter == 0 && rt1.stat.is_rendering && rt1.param == p
        }),
{
}

/// Law: once the frame counter has reached the sample cap, updating is
/// idempotent — the first update may only close the accumulation, and every
/// later update leaves the state untouched and dispatches nothing.
pub proof fn lemma_update_idempotent_at_cap(rt: RayTracer, now1: u64, now2: u64)
    requires
        rt.stat.frame_counter >= rt.param.max_sample,
    ensures
        ({
            let (rt1, d1) = RayTracer::spec_update(rt, now1);
            let (rt2, d2) = RayTracer::spec_update(rt1, now2);
            d1 is None && d2 is None && rt2 == rt1 && rt1.stat.frame_counter
                == rt.stat.frame_counter
        }),
{
}

/// Law: while accumulating, each update dispatches exactly one compute
/// pass and advances the frame counter by exactly one, up to the cap.
pub proof fn lemma_update_dispatches_once(rt: RayTracer, now: u64)
    requires
        rt.stat.is_rendering,
        rt.stat.frame_counter < rt.param.max_sample,
    ensures
        ({
            let (rt1, d1) = RayTracer::spec_update(rt, now);
            d1 is Some && rt1.stat.frame_counter == rt.stat.frame_counter + 1
                && rt1.stat.is_rendering
        }),
{
}

} // verus!
