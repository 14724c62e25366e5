//! GPU-mirror types and their wire layout.
//!
//! Every block shared with the GPU programs has a byte-exact layout: explicit
//! field order, vectors padded to four words, bulk arrays prefixed by an
//! element count in a four-word header. The layout is stated here as word
//! sequences (`spec_words`), read back by `spec_from_words`, and each mirror
//! struct carries a proof that reading back what was written reproduces the
//! original fields exactly.
//!
//! Scalar fields hold single-precision bit patterns (see `object`); counts,
//! discriminants and indices are plain integers. Signed indices travel as
//! two's-complement words.

use crate::ray_tracer::buffer::{
    i32_of_word, lemma_i32_word_roundtrip, lemma_words_bytes_roundtrip, spec_bytes_of_words,
    spec_words_of_bytes, word_of_i32, i32_to_word, word_to_i32, words_to_bytes,
};
use crate::ray_tracer::object::{Vec2, Vec3, AABB};
use vstd::prelude::*;

verus! {

/// Hit-algorithm discriminant: brute-force intersection.
pub const HIT_BRUTE: u32 = 0;

/// Hit-algorithm discriminant: bounding-volume-hierarchy traversal.
pub const HIT_BVH: u32 = 1;

/// Shading discriminant: flat normals.
pub const SHADE_FLAT: u32 = 0;

/// Shading discriminant: interpolated normals.
pub const SHADE_SMOOTH: u32 = 1;

/// Primitive discriminant: triangle.
pub const OBJ_TRIANGLE: u32 = 0;

/// Primitive discriminant: sphere.
pub const OBJ_SPHERE: u32 = 1;

/// Material discriminant: diffuse.
pub const MAT_DIFFUSE: u32 = 0;

/// Material discriminant: reflective.
pub const MAT_REFLECTIVE: u32 = 1;

/// Material discriminant: transparent.
pub const MAT_TRANSPARENT: u32 = 2;

/// A three-component vector on the wire: three words and one padding word,
/// since the GPU aligns vectors to four words.
pub open spec fn vec3_words(v: Vec3) -> Seq<u32> {
    seq![v.x, v.y, v.z, 0]
}

/// Read a vector back from three words (the padding word is ignored).
pub open spec fn vec3_from_words(ws: Seq<u32>, off: int) -> Vec3 {
    Vec3 { x: ws[off], y: ws[off + 1], z: ws[off + 2] }
}

/// A bounding box on the wire: two padded vectors, eight words.
pub open spec fn aabb_words(b: AABB) -> Seq<u32> {
    vec3_words(b.min) + vec3_words(b.max)
}

pub open spec fn aabb_from_words(ws: Seq<u32>, off: int) -> AABB {
    AABB { min: vec3_from_words(ws, off), max: vec3_from_words(ws, off + 4) }
}

/// Append the padded wire image of a vector.
pub fn push_vec3_words(v: &Vec3, out: &mut Vec<u32>)
    ensures
        final(out)@ == old(out)@ + vec3_words(*v),
{
    out.push(v.x);
    out.push(v.y);
    out.push(v.z);
    out.push(0);
    proof {
        assert(final(out)@ =~= old(out)@ + vec3_words(*v));
    }
}

/// Append the wire image of a bounding box.
pub fn push_aabb_words(b: &AABB, out: &mut Vec<u32>)
    ensures
        final(out)@ == old(out)@ + aabb_words(*b),
{
    push_vec3_words(&b.min, out);
    push_vec3_words(&b.max, out);
    proof {
        assert(final(out)@ =~= old(out)@ + aabb_words(*b));
    }
}

/// The progress block read by both GPU programs: which accumulation frame
/// the next dispatch contributes.
#[derive(Clone, Copy, Debug, PartialEq, Eq, Structural)]
pub struct Stat {
    pub frame_counter: u32,
}

impl Stat {
    /// One word.
    pub open spec fn spec_words(self) -> Seq<u32> {
        seq![self.frame_counter]
    }

    pub open spec fn spec_from_words(ws: Seq<u32>, off: int) -> Stat {
        Stat { frame_counter: ws[off] }
    }

    pub fn push_words(&self, out: &mut Vec<u32>)
        ensures
            final(out)@ == old(out)@ + self.spec_words(),
    {
        out.push(self.frame_counter);
        proof {
            assert(final(out)@ =~= old(out)@ + self.spec_words());
        }
    }

    pub fn from_words(ws: &Vec<u32>, off: usize) -> (r: Stat)
        requires
            off + 1 <= ws.len(),
        ensures
            r == Stat::spec_from_words(ws@, off as int),
    {
        Stat { frame_counter: ws[off] }
    }

    /// The byte image uploaded to the progress uniform.
    pub fn encode(&self) -> (r: Vec<u8>)
        ensures
            r@ == spec_bytes_of_words(self.spec_words()),
    {
        let mut ws: Vec<u32> = Vec::new();
        self.push_words(&mut ws);
        words_to_bytes(&ws)
    }

    /// Reading the written words back gives the written block.
    pub proof fn lemma_roundtrip(self, ws: Seq<u32>, off: int)
        requires
            0 <= off,
            off + 1 <= ws.len(),
            ws.subrange(off, off + 1) == self.spec_words(),
        ensures
            Stat::spec_from_words(ws, off) == self,
    {
        assert(self.spec_words()[0] == ws.subrange(off, off + 1)[0]);
    }
    /// Serializing the progress block to its byte image and reading it back reproduces it exactly.
    pub proof fn lemma_byte_roundtrip(self)
        ensures
            Stat::spec_from_words(
                spec_words_of_bytes(spec_bytes_of_words(self.spec_words())),
                0,
            ) == self,
    {
        lemma_words_bytes_roundtrip(self.spec_words());
        assert(self.spec_words().subrange(0, 1) =~= self.spec_words());
        self.lemma_roundtrip(self.spec_words(), 0);
    }
}

/// A material on the wire: discriminant, padded albedo vector, and one
/// payload slot whose meaning the discriminant fixes (unused for diffuse,
/// fuzz for reflective, refractive index for transparent).
#[derive(Clone, Copy, Debug, PartialEq, Eq, Structural)]
pub struct Material {
    pub mat_type: u32,
    pub albedo: Vec3,
    pub param1: u32,
}

impl Material {
    /// Eight words: discriminant, three words of padding up to the vector
    /// alignment, the albedo, and the payload slot in the vector's padding
    /// word.
    pub open spec fn spec_words(self) -> Seq<u32> {
        seq![
            self.mat_type,
            0,
            0,
            0,
            self.albedo.x,
            self.albedo.y,
            self.albedo.z,
            self.param1,
        ]
    }

    pub open spec fn spec_from_words(ws: Seq<u32>, off: int) -> Material {
        Material {
            mat_type: ws[off],
            albedo: vec3_from_words(ws, off + 4),
            param1: ws[off + 7],
        }
    }

    pub fn push_words(&self, out: &mut Vec<u32>)
        ensures
            final(out)@ == old(out)@ + self.spec_words(),
    {
        out.push(self.mat_type);
        out.push(0);
        out.push(0);
        out.push(0);
        out.push(self.albedo.x);
        out.push(self.albedo.y);
        out.push(self.albedo.z);
        out.push(self.param1);
        proof {
            assert(final(out)@ =~= old(out)@ + self.spec_words());
        }
    }

    pub fn from_words(ws: &Vec<u32>, off: usize) -> (r: Material)
        requires
            off + 8 <= ws.len(),
        ensures
            r == Material::spec_from_words(ws@, off as int),
    {
        Material {
            mat_type: ws[off],
            albedo: Vec3 { x: ws[off + 4], y: ws[off + 5], z: ws[off + 6] },
            param1: ws[off + 7],
        }
    }

    /// Reading the written words back gives the written material.
    pub proof fn lemma_roundtrip(self, ws: Seq<u32>, off: int)
        requires
            0 <= off,
            off + 8 <= ws.len(),
            ws.subrange(off, off + 8) == self.spec_words(),
        ensures
            Material::spec_from_words(ws, off) == self,
    {
        assert(self.spec_words()[0] == ws.subrange(off, off + 8)[0]);
        assert(self.spec_words()[4] == ws.subrange(off, off + 8)[4]);
        assert(self.spec_words()[5] == ws.subrange(off, off + 8)[5]);
        assert(self.spec_words()[6] == ws.subrange(off, off + 8)[6]);
        assert(self.spec_words()[7] == ws.subrange(off, off + 8)[7]);
    }
    /// Serializing a material to its byte image and reading it back reproduces every field exactly.
    pub proof fn lemma_byte_roundtrip(self)
        ensures
            Material::spec_from_words(
                spec_words_of_bytes(spec_bytes_of_words(self.spec_words())),
                0,
            ) == self,
    {
        lemma_words_bytes_roundtrip(self.spec_words());
        assert(self.spec_words().subrange(0, 8) =~= self.spec_words());
        self.lemma_roundtrip(self.spec_words(), 0);
    }
}

/// The derived camera basis read by the compute program: eye position, the
/// two image-plane basis vectors, the ray-origin corner, the two step
/// vectors, and the lens radius for depth-of-field jitter.
#[derive(Clone, Copy, Debug, PartialEq, Eq, Structural)]
pub struct Camera {
    pub position: Vec3,
    pub horizontal: Vec3,
    pub vertical: Vec3,
    pub start: Vec3,
    pub vx: Vec3,
    pub vy: Vec3,
    pub lens_radius: u32,
}

impl Camera {
    /// Twenty-four words: six padded vectors, with the lens radius taking
    /// the last vector's padding slot (a scalar may follow a vector without
    /// padding).
    pub open spec fn spec_words(self) -> Seq<u32> {
        vec3_words(self.position) + vec3_words(self.horizontal) + vec3_words(self.vertical)
            + vec3_words(self.start) + vec3_words(self.vx) + seq![
            self.vy.x,
            self.vy.y,
            self.vy.z,
            self.lens_radius,
        ]
    }

    pub open spec fn spec_from_words(ws: Seq<u32>, off: int) -> Camera {
        Camera {
            position: vec3_from_words(ws, off),
            horizontal: vec3_from_words(ws, off + 4),
            vertical: vec3_from_words(ws, off + 8),
            start: vec3_from_words(ws, off + 12),
            vx: vec3_from_words(ws, off + 16),
            vy: vec3_from_words(ws, off + 20),
            lens_radius: ws[off + 23],
        }
    }

    pub fn push_words(&self, out: &mut Vec<u32>)
        ensures
            final(out)@ == old(out)@ + self.spec_words(),
    {
        push_vec3_words(&self.position, out);
        push_vec3_words(&self.horizontal, out);
        push_vec3_words(&self.vertical, out);
        push_vec3_words(&self.start, out);
        push_vec3_words(&self.vx, out);
        out.push(self.vy.x);
        out.push(self.vy.y);
        out.push(self.vy.z);
        out.push(self.lens_radius);
        proof {
            assert(final(out)@ =~= old(out)@ + self.spec_words());
        }
    }

    pub fn from_words(ws: &Vec<u32>, off: usize) -> (r: Camera)
        requires
            off + 24 <= ws.len(),
        ensures
            r == Camera::spec_from_words(ws@, off as int),
    {
        Camera {
            position: Vec3 { x: ws[off], y: ws[off + 1], z: ws[off + 2] },
            horizontal: Vec3 { x: ws[off + 4], y: ws[off + 5], z: ws[off + 6] },
            vertical: Vec3 { x: ws[off + 8], y: ws[off + 9], z: ws[off + 10] },
            start: Vec3 { x: ws[off + 12], y: ws[off + 13], z: ws[off + 14] },
            vx: Vec3 { x: ws[off + 16], y: ws[off + 17], z: ws[off + 18] },
            vy: Vec3 { x: ws[off + 20], y: ws[off + 21], z: ws[off + 22] },
            lens_radius: ws[off + 23],
        }
    }

    /// Reading the written words back gives the written camera block.
    pub proof fn lemma_roundtrip(self, ws: Seq<u32>, off: int)
        requires
            0 <= off,
            off + 24 <= ws.len(),
            ws.subrange(off, off + 24) == self.spec_words(),
        ensures
            Camera::spec_from_words(ws, off) == self,
    {
        let sub = ws.subrange(off, off + 24);
        assert(self.spec_words().len() == 24);
        assert(self.spec_words()[0] == self.position.x && self.spec_words()[1] == self.position.y
            && self.spec_words()[2] == self.position.z);
        assert(self.spec_words()[4] == self.horizontal.x && self.spec_words()[5]
            == self.horizontal.y && self.spec_words()[6] == self.horizontal.z);
        assert(self.spec_words()[8] == self.vertical.x && self.spec_words()[9] == self.vertical.y
            && self.spec_words()[10] == self.vertical.z);
        assert(self.spec_words()[12] == self.start.x && self.spec_words()[13] == self.start.y
            && self.spec_words()[14] == self.start.z);
        assert(self.spec_words()[16] == self.vx.x && self.spec_words()[17] == self.vx.y
            && self.spec_words()[18] == self.vx.z);
        assert(self.spec_words()[20] == self.vy.x && self.spec_words()[21] == self.vy.y
            && self.spec_words()[22] == self.vy.z && self.spec_words()[23] == self.lens_radius);
        assert(sub[0] == ws[off + 0] && sub[1] == ws[off + 1] && sub[2] == ws[off + 2]);
        assert(sub[4] == ws[off + 4] && sub[5] == ws[off + 5] && sub[6] == ws[off + 6]);
        assert(sub[8] == ws[off + 8] && sub[9] == ws[off + 9] && sub[10] == ws[off + 10]);
        assert(sub[12] == ws[off + 12] && sub[13] == ws[off + 13] && sub[14] == ws[off + 14]);
        assert(sub[16] == ws[off + 16] && sub[17] == ws[off + 17] && sub[18] == ws[off + 18]);
        assert(sub[20] == ws[off + 20] && sub[21] == ws[off + 21] && sub[22] == ws[off + 22]
            && sub[23] == ws[off + 23]);
    }
    /// Serializing the camera block to its byte image and reading it back reproduces every field exactly.
    pub proof fn lemma_byte_roundtrip(self)
        ensures
            Camera::spec_from_words(
                spec_words_of_bytes(spec_bytes_of_words(self.spec_words())),
                0,
            ) == self,
    {
        lemma_words_bytes_roundtrip(self.spec_words());
        assert(self.spec_words().subrange(0, 24) =~= self.spec_words());
        self.lemma_roundtrip(self.spec_words(), 0);
    }
}

/// The parameter block read by both GPU programs: the derived camera, the
/// viewport size in pixels, the two algorithm selectors, and the bounce cap.
#[derive(Clone, Copy, Debug, PartialEq, Eq, Structural)]
pub struct Param {
    pub camera: Camera,
    pub display_size: Vec2,
    pub hit_algorithm: u32,
    pub shading_algorithm: u32,
    pub max_bounce: u32,
}

impl Param {
    /// Thirty-two words: the camera block, the viewport pair, the two
    /// selectors, the bounce cap, and three words of padding up to the
    /// block alignment.
    pub open spec fn spec_words(self) -> Seq<u32> {
        self.camera.spec_words() + seq![
            self.display_size.x,
            self.display_size.y,
            self.hit_algorithm,
            self.shading_algorithm,
            self.max_bounce,
            0,
            0,
            0,
        ]
    }

    pub open spec fn spec_from_words(ws: Seq<u32>, off: int) -> Param {
        Param {
            camera: Camera::spec_from_words(ws, off),
            display_size: Vec2 { x: ws[off + 24], y: ws[off + 25] },
            hit_algorithm: ws[off + 26],
            shading_algorithm: ws[off + 27],
            max_bounce: ws[off + 28],
        }
    }

    pub fn push_words(&self, out: &mut Vec<u32>)
        ensures
            final(out)@ == old(out)@ + self.spec_words(),
    {
        self.camera.push_words(out);
        out.push(self.display_size.x);
        out.push(self.display_size.y);
        out.push(self.hit_algorithm);
        out.push(self.shading_algorithm);
        out.push(self.max_bounce);
        out.push(0);
        out.push(0);
        out.push(0);
        proof {
            assert(final(out)@ =~= old(out)@ + self.spec_words());
        }
    }

    pub fn from_words(ws: &Vec<u32>, off: usize) -> (r: Param)
        requires
            off + 32 <= ws.len(),
        ensures
            r == Param::spec_from_words(ws@, off as int),
    {
        Param {
            camera: Camera::from_words(ws, off),
            display_size: Vec2 { x: ws[off + 24], y: ws[off + 25] },
            hit_algorithm: ws[off + 26],
            shading_algorithm: ws[off + 27],
            max_bounce: ws[off + 28],
        }
    }

    /// The byte image uploaded to the parameter uniform.
    pub fn encode(&self) -> (r: Vec<u8>)
        ensures
            r@ == spec_bytes_of_words(self.spec_words()),
    {
        let mut ws: Vec<u32> = Vec::new();
        self.push_words(&mut ws);
        words_to_bytes(&ws)
    }

    /// Reading the written words back gives the written parameter block.
    pub proof fn lemma_roundtrip(self, ws: Seq<u32>, off: int)
        requires
            0 <= off,
            off + 32 <= ws.len(),
            ws.subrange(off, off + 32) == self.spec_words(),
        ensures
            Param::spec_from_words(ws, off) == self,
    {
        let sub = ws.subrange(off, off + 32);
        assert(self.camera.spec_words().len() == 24);
        assert forall|k: int| 0 <= k < 24 implies ws[off + k] == self.camera.spec_words()[k] by {
            assert(sub[k] == ws[off + k]);
            assert(self.spec_words()[k] == self.camera.spec_words()[k]);
        }
        assert(ws.subrange(off, off + 24) =~= self.camera.spec_words());
        self.camera.lemma_roundtrip(ws, off);
        assert(self.spec_words()[24] == self.display_size.x && sub[24] == ws[off + 24]);
        assert(self.spec_words()[25] == self.display_size.y && sub[25] == ws[off + 25]);
        assert(self.spec_words()[26] == self.hit_algorithm && sub[26] == ws[off + 26]);
        assert(self.spec_words()[27] == self.shading_algorithm && sub[27] == ws[off + 27]);
        assert(self.spec_words()[28] == self.max_bounce && sub[28] == ws[off + 28]);
    }
    /// Serializing the parameter block to its byte image and reading it back reproduces every field exactly.
    pub proof fn lemma_byte_roundtrip(self)
        ensures
            Param::spec_from_words(
                spec_words_of_bytes(spec_bytes_of_words(self.spec_words())),
                0,
            ) == self,
    {
        lemma_words_bytes_roundtrip(self.spec_words());
        assert(self.spec_words().subrange(0, 32) =~= self.spec_words());
        self.lemma_roundtrip(self.spec_words(), 0);
    }
}

/// One intersection primitive on the wire. For a triangle the six vectors
/// are its vertices and vertex normals; for a sphere, the first vector is
/// the center and the second vector's first component is the radius.
#[derive(Clone, Copy, Debug, PartialEq, Eq, Structural)]
pub struct Object {
    pub obj_type: u32,
    pub mat_idx: u32,
    pub v0: Vec3,
    pub v1: Vec3,
    pub v2: Vec3,
    pub n0: Vec3,
    pub n1: Vec3,
    pub n2: Vec3,
}

impl Object {
    /// Twenty-eight words: discriminant, material index, two words of
    /// padding up to the vector alignment, and six padded vectors.
    pub open spec fn spec_words(self) -> Seq<u32> {
        seq![self.obj_type, self.mat_idx, 0, 0] + vec3_words(self.v0) + vec3_words(self.v1)
            + vec3_words(self.v2) + vec3_words(self.n0) + vec3_words(self.n1) + vec3_words(self.n2)
    }

    pub open spec fn spec_from_words(ws: Seq<u32>, off: int) -> Object {
        Object {
            obj_type: ws[off],
            mat_idx: ws[off + 1],
            v0: vec3_from_words(ws, off + 4),
            v1: vec3_from_words(ws, off + 8),
            v2: vec3_from_words(ws, off + 12),
            n0: vec3_from_words(ws, off + 16),
            n1: vec3_from_words(ws, off + 20),
            n2: vec3_from_words(ws, off + 24),
        }
    }

    pub fn push_words(&self, out: &mut Vec<u32>)
        ensures
            final(out)@ == old(out)@ + self.spec_words(),
    {
        out.push(self.obj_type);
        out.push(self.mat_idx);
        out.push(0);
        out.push(0);
        push_vec3_words(&self.v0, out);
        push_vec3_words(&self.v1, out);
        push_vec3_words(&self.v2, out);
        push_vec3_words(&self.n0, out);
        push_vec3_words(&self.n1, out);
        push_vec3_words(&self.n2, out);
        proof {
            assert(final(out)@ =~= old(out)@ + self.spec_words());
        }
    }

    pub fn from_words(ws: &Vec<u32>, off: usize) -> (r: Object)
        requires
            off + 28 <= ws.len(),
        ensures
            r == Object::spec_from_words(ws@, off as int),
    {
        Object {
            obj_type: ws[off],
            mat_idx: ws[off + 1],
            v0: Vec3 { x: ws[off + 4], y: ws[off + 5], z: ws[off + 6] },
            v1: Vec3 { x: ws[off + 8], y: ws[off + 9], z: ws[off + 10] },
            v2: Vec3 { x: ws[off + 12], y: ws[off + 13], z: ws[off + 14] },
            n0: Vec3 { x: ws[off + 16], y: ws[off + 17], z: ws[off + 18] },
            n1: Vec3 { x: ws[off + 20], y: ws[off + 21], z: ws[off + 22] },
            n2: Vec3 { x: ws[off + 24], y: ws[off + 25], z: ws[off + 26] },
        }
    }

    /// Reading the written words back gives the written primitive.
    pub proof fn lemma_roundtrip(self, ws: Seq<u32>, off: int)
        requires
            0 <= off,
            off + 28 <= ws.len(),
            ws.subrange(off, off + 28) == self.spec_words(),
        ensures
            Object::spec_from_words(ws, off) == self,
    {
        let sub = ws.subrange(off, off + 28);
        assert(self.spec_words().len() == 28);
        assert(self.spec_words()[0] == self.obj_type && self.spec_words()[1] == self.mat_idx);
        assert(self.spec_words()[4] == self.v0.x && self.spec_words()[5] == self.v0.y
            && self.spec_words()[6] == self.v0.z);
        assert(self.spec_words()[8] == self.v1.x && self.spec_words()[9] == self.v1.y
            && self.spec_words()[10] == self.v1.z);
        assert(self.spec_words()[12] == self.v2.x && self.spec_words()[13] == self.v2.y
            && self.spec_words()[14] == self.v2.z);
        assert(self.spec_words()[16] == self.n0.x && self.spec_words()[17] == self.n0.y
            && self.spec_words()[18] == self.n0.z);
        assert(self.spec_words()[20] == self.n1.x && self.spec_words()[21] == self.n1.y
            && self.spec_words()[22] == self.n1.z);
        assert(self.spec_words()[24] == self.n2.x && self.spec_words()[25] == self.n2.y
            && self.spec_words()[26] == self.n2.z);
        assert(sub[0] == ws[off + 0] && sub[1] == ws[off + 1]);
        assert(sub[4] == ws[off + 4] && sub[5] == ws[off + 5] && sub[6] == ws[off + 6]);
        assert(sub[8] == ws[off + 8] && sub[9] == ws[off + 9] && sub[10] == ws[off + 10]);
        assert(sub[12] == ws[off + 12] && sub[13] == ws[off + 13] && sub[14] == ws[off + 14]);
        assert(sub[16] == ws[off + 16] && sub[17] == ws[off + 17] && sub[18] == ws[off + 18]);
        assert(sub[20] == ws[off + 20] && sub[21] == ws[off + 21] && sub[22] == ws[off + 22]);
        assert(sub[24] == ws[off + 24] && sub[25] == ws[off + 25] && sub[26] == ws[off + 26]);
    }
    /// Serializing a primitive to its byte image and reading it back reproduces every field exactly.
    pub proof fn lemma_byte_roundtrip(self)
        ensures
            Object::spec_from_words(
                spec_words_of_bytes(spec_bytes_of_words(self.spec_words())),
                0,
            ) == self,
    {
        lemma_words_bytes_roundtrip(self.spec_words());
        assert(self.spec_words().subrange(0, 28) =~= self.spec_words());
        self.lemma_roundtrip(self.spec_words(), 0);
    }
}

/// One node of the bounding-volume hierarchy, in the exact form traversed by
/// the GPU program. Leaves carry a primitive index and `-1` children;
/// internal nodes carry `-1` as primitive index and two child node indices.
#[derive(Clone, Copy, Debug, PartialEq, Eq, Structural)]
pub struct BVHNode {
    pub bbox: AABB,
    pub left_idx: i32,
    pub right_idx: i32,
    pub object_idx: i32,
}

impl Default for BVHNode {
    /// A node with a degenerate box and no links.
    fn default() -> (r: Self)
        ensures
            r == (BVHNode {
                bbox: AABB { min: Vec3 { x: 0, y: 0, z: 0 }, max: Vec3 { x: 0, y: 0, z: 0 } },
                left_idx: -1i32,
                right_idx: -1i32,
                object_idx: -1i32,
            }),
    {
        BVHNode {
            bbox: AABB { min: Vec3 { x: 0, y: 0, z: 0 }, max: Vec3 { x: 0, y: 0, z: 0 } },
            left_idx: -1,
            right_idx: -1,
            object_idx: -1,
        }
    }
}

impl BVHNode {
    /// Twelve words: the box, the three indices, one padding word up to the
    /// node stride.
    pub open spec fn spec_words(self) -> Seq<u32> {
        aabb_words(self.bbox) + seq![
            word_of_i32(self.left_idx),
            word_of_i32(self.right_idx),
            word_of_i32(self.object_idx),
            0,
        ]
    }

    pub open spec fn spec_from_words(ws: Seq<u32>, off: int) -> BVHNode {
        BVHNode {
            bbox: aabb_from_words(ws, off),
            left_idx: i32_of_word(ws[off + 8]),
            right_idx: i32_of_word(ws[off + 9]),
            object_idx: i32_of_word(ws[off + 10]),
        }
    }

    pub fn push_words(&self, out: &mut Vec<u32>)
        ensures
            final(out)@ == old(out)@ + self.spec_words(),
    {
        push_aabb_words(&self.bbox, out);
        out.push(i32_to_word(self.left_idx));
        out.push(i32_to_word(self.right_idx));
        out.push(i32_to_word(self.object_idx));
        out.push(0);
        proof {
            assert(final(out)@ =~= old(out)@ + self.spec_words());
        }
    }

    pub fn from_words(ws: &Vec<u32>, off: usize) -> (r: BVHNode)
        requires
            off + 12 <= ws.len(),
        ensures
            r == BVHNode::spec_from_words(ws@, off as int),
    {
        BVHNode {
            bbox: AABB {
                min: Vec3 { x: ws[off], y: ws[off + 1], z: ws[off + 2] },
                max: Vec3 { x: ws[off + 4], y: ws[off + 5], z: ws[off + 6] },
            },
            left_idx: word_to_i32(ws[off + 8]),
            right_idx: word_to_i32(ws[off + 9]),
            object_idx: word_to_i32(ws[off + 10]),
        }
    }

    /// Reading the written words back gives the written node.
    pub proof fn lemma_roundtrip(self, ws: Seq<u32>, off: int)
        requires
            0 <= off,
            off + 12 <= ws.len(),
            ws.subrange(off, off + 12) == self.spec_words(),
        ensures
            BVHNode::spec_from_words(ws, off) == self,
    {
        let sub = ws.subrange(off, off + 12);
        assert(aabb_words(self.bbox).len() == 8);
        assert(self.spec_words()[0] == self.bbox.min.x);
        assert(self.spec_words()[1] == self.bbox.min.y);
        assert(self.spec_words()[2] == self.bbox.min.z);
        assert(self.spec_words()[4] == self.bbox.max.x);
        assert(self.spec_words()[5] == self.bbox.max.y);
        assert(self.spec_words()[6] == self.bbox.max.z);
        assert(self.spec_words()[8] == word_of_i32(self.left_idx));
        assert(self.spec_words()[9] == word_of_i32(self.right_idx));
        assert(self.spec_words()[10] == word_of_i32(self.object_idx));
        assert(self.spec_words()[0] == sub[0]);
        assert(self.spec_words()[1] == sub[1]);
        assert(self.spec_words()[2] == sub[2]);
        assert(self.spec_words()[4] == sub[4]);
        assert(self.spec_words()[5] == sub[5]);
        assert(self.spec_words()[6] == sub[6]);
        assert(self.spec_words()[8] == sub[8]);
        assert(self.spec_words()[9] == sub[9]);
        assert(self.spec_words()[10] == sub[10]);
        lemma_i32_word_roundtrip(self.left_idx);
        lemma_i32_word_roundtrip(self.right_idx);
        lemma_i32_word_roundtrip(self.object_idx);
    }
    /// Serializing a node to its byte image and reading it back reproduces every field exactly.
    pub proof fn lemma_byte_roundtrip(self)
        ensures
            BVHNode::spec_from_words(
                spec_words_of_bytes(spec_bytes_of_words(self.spec_words())),
                0,
            ) == self,
    {
        lemma_words_bytes_roundtrip(self.spec_words());
        assert(self.spec_words().subrange(0, 12) =~= self.spec_words());
        self.lemma_roundtrip(self.spec_words(), 0);
    }
}

/// Wire image of a node sequence: the nodes' words in order.
pub open spec fn nodes_words(s: Seq<BVHNode>) -> Seq<u32>
    decreases s.len(),
{
    if s.len() == 0 {
        Seq::<u32>::empty()
    } else {
        nodes_words(s.drop_last()) + s.last().spec_words()
    }
}

/// Wire image of a primitive sequence.
pub open spec fn objects_words(s: Seq<Object>) -> Seq<u32>
    decreases s.len(),
{
    if s.len() == 0 {
        Seq::<u32>::empty()
    } else {
        objects_words(s.drop_last()) + s.last().spec_words()
    }
}

/// Wire image of a material sequence.
pub open spec fn materials_words(s: Seq<Material>) -> Seq<u32>
    decreases s.len(),
{
    if s.len() == 0 {
        Seq::<u32>::empty()
    } else {
        materials_words(s.drop_last()) + s.last().spec_words()
    }
}

/// The bounding-volume hierarchy as uploaded: a node count in a four-word
/// header, then the nodes at the array stride.
#[derive(Clone, Debug)]
pub struct BVH {
    pub nodes: Vec<BVHNode>,
}

impl Default for BVH {
    /// An empty hierarchy.
    fn default() -> (r: Self)
        ensures
            r.nodes@ == Seq::<BVHNode>::empty(),
    {
        BVH { nodes: Vec::new() }
    }
}

impl BVH {
    pub open spec fn spec_words(self) -> Seq<u32> {
        seq![self.nodes@.len() as u32, 0, 0, 0] + nodes_words(self.nodes@)
    }

    /// The byte image uploaded to the node storage buffer.
    pub fn encode(&self) -> (r: Vec<u8>)
        requires
            self.nodes@.len() <= u32::MAX,
        ensures
            r@ == spec_bytes_of_words(self.spec_words()),
    {
        let mut ws: Vec<u32> = Vec::new();
        ws.push(self.nodes.len() as u32);
        ws.push(0);
        ws.push(0);
        ws.push(0);
        let header: Ghost<Seq<u32>> = Ghost(ws@);
        let mut i: usize = 0;
        proof {
            assert(self.nodes@.subrange(0, 0) =~= Seq::<BVHNode>::empty());
            assert(header@ =~= seq![self.nodes@.len() as u32, 0u32, 0u32, 0u32]);
            assert(ws@ =~= header@ + nodes_words(self.nodes@.subrange(0, 0)));
        }
        while i < self.nodes.len()
            invariant
                i <= self.nodes@.len(),
                header@ == seq![self.nodes@.len() as u32, 0u32, 0u32, 0u32],
                ws@ == header@ + nodes_words(self.nodes@.subrange(0, i as int)),
            decreases self.nodes@.len() - i,
        {
            let node = self.nodes[i];
            node.push_words(&mut ws);
            proof {
                let pre = self.nodes@.subrange(0, i as int);
                let cur = self.nodes@.subrange(0, i + 1);
                assert(cur.drop_last() =~= pre);
                assert(cur.last() == self.nodes@[i as int]);
                assert(ws@ =~= header@ + nodes_words(cur));
            }
            i = i + 1;
        }
        proof {
            assert(self.nodes@.subrange(0, self.nodes@.len() as int) =~= self.nodes@);
        }
        words_to_bytes(&ws)
    }
}

/// The primitive array as uploaded: a count header, then the primitives.
#[derive(Clone, Debug)]
pub struct Objects {
    pub objects: Vec<Object>,
}

impl Default for Objects {
    /// An empty primitive array.
    fn default() -> (r: Self)
        ensures
            r.objects@ == Seq::<Object>::empty(),
    {
        Objects { objects: Vec::new() }
    }
}

impl Objects {
    pub open spec fn spec_words(self) -> Seq<u32> {
        seq![self.objects@.len() as u32, 0, 0, 0] + objects_words(self.objects@)
    }

    /// The byte image uploaded to the primitive storage buffer.
    pub fn encode(&self) -> (r: Vec<u8>)
        requires
            self.objects@.len() <= u32::MAX,
        ensures
            r@ == spec_bytes_of_words(self.spec_words()),
    {
        let mut ws: Vec<u32> = Vec::new();
        ws.push(self.objects.len() as u32);
        ws.push(0);
        ws.push(0);
        ws.push(0);
        let header: Ghost<Seq<u32>> = Ghost(ws@);
        let mut i: usize = 0;
        proof {
            assert(self.objects@.subrange(0, 0) =~= Seq::<Object>::empty());
            assert(header@ =~= seq![self.objects@.len() as u32, 0u32, 0u32, 0u32]);
            assert(ws@ =~= header@ + objects_words(self.objects@.subrange(0, 0)));
        }
        while i < self.objects.len()
            invariant
                i <= self.objects@.len(),
                header@ == seq![self.objects@.len() as u32, 0u32, 0u32, 0u32],
                ws@ == header@ + objects_words(self.objects@.subrange(0, i as int)),
            decreases self.objects@.len() - i,
        {
            let obj = self.objects[i];
            obj.push_words(&mut ws);
            proof {
                let pre = self.objects@.subrange(0, i as int);
                let cur = self.objects@.subrange(0, i + 1);
                assert(cur.drop_last() =~= pre);
                assert(cur.last() == self.objects@[i as int]);
                assert(ws@ =~= header@ + objects_words(cur));
            }
            i = i + 1;
        }
        proof {
            assert(self.objects@.subrange(0, self.objects@.len() as int) =~= self.objects@);
        }
        words_to_bytes(&ws)
    }
}

/// The material array as uploaded: a count header, then the materials.
#[derive(Clone, Debug)]
pub struct Materials {
    pub materials: Vec<Material>,
}

impl Default for Materials {
    /// An empty material array.
    fn default() -> (r: Self)
        ensures
            r.materials@ == Seq::<Material>::empty(),
    {
        Materials { materials: Vec::new() }
    }
}

impl Materials {
    pub open spec fn spec_words(self) -> Seq<u32> {
        seq![self.materials@.len() as u32, 0, 0, 0] + materials_words(self.materials@)
    }

    /// The byte image uploaded to the material storage buffer.
    pub fn encode(&self) -> (r: Vec<u8>)
        requires
            self.materials@.len() <= u32::MAX,
        ensures
            r@ == spec_bytes_of_words(self.spec_words()),
    {
        let mut ws: Vec<u32> = Vec::new();
        ws.push(self.materials.len() as u32);
        ws.push(0);
        ws.push(0);
        ws.push(0);
        let header: Ghost<Seq<u32>> = Ghost(ws@);
        let mut i: usize = 0;
        proof {
            assert(self.materials@.subrange(0, 0) =~= Seq::<Material>::empty());
            assert(header@ =~= seq![self.materials@.len() as u32, 0u32, 0u32, 0u32]);
            assert(ws@ =~= header@ + materials_words(self.materials@.subrange(0, 0)));
        }
        while i < self.materials.len()
            invariant
                i <= self.materials@.len(),
                header@ == seq![self.materials@.len() as u32, 0u32, 0u32, 0u32],
                ws@ == header@ + materials_words(self.materials@.subrange(0, i as int)),
            decreases self.materials@.len() - i,
        {
            let mat = self.materials[i];
            mat.push_words(&mut ws);
            proof {
                let pre = self.materials@.subrange(0, i as int);
                let cur = self.materials@.subrange(0, i + 1);
                assert(cur.drop_last() =~= pre);
                assert(cur.last() == self.materials@[i as int]);
                assert(ws@ =~= header@ + materials_words(cur));
            }
            i = i + 1;
        }
        proof {
            assert(self.materials@.subrange(0, self.materials@.len() as int) =~= self.materials@);
        }
        words_to_bytes(&ws)
    }
}

} // verus!
