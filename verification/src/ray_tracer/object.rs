//! Geometry model: scalars, vectors, bounding boxes, primitives, and the
//! bounding-volume-hierarchy build.
//!
//! Scalars are IEEE-754 single-precision values carried by bit pattern in a
//! `u32`. The core never does scalar arithmetic — it only compares, and for
//! that the bit pattern is enough: `flt_key` maps bit patterns to integers in
//! a way that agrees with the standard total order on the encoded values
//! (negative values reversed below the positive range). All bounding-box
//! reasoning is stated over that order.

use crate::ray_tracer::shader_type;
use crate::ray_tracer::util::random_axis;
use vstd::multiset::Multiset;
use vstd::prelude::*;

verus! {

/// First bit pattern with the sign bit set.
pub const SIGN_BIT: u32 = 0x8000_0000;

/// Rank of a scalar bit pattern in the total order: patterns with the sign
/// bit clear (non-negative values) keep their order above all patterns with
/// the sign bit set (negative values), whose order is reversed.
pub open spec fn flt_key(a: u32) -> int {
    if a < SIGN_BIT {
        a + SIGN_BIT
    } else {
        0xFFFF_FFFF - a
    }
}

/// Total order on scalar bit patterns.
pub open spec fn flt_le(a: u32, b: u32) -> bool {
    flt_key(a) <= flt_key(b)
}

/// The smaller of two scalars (the first when equal).
pub open spec fn flt_min(a: u32, b: u32) -> u32 {
    if flt_le(a, b) {
        a
    } else {
        b
    }
}

/// The larger of two scalars (the second when equal).
pub open spec fn flt_max(a: u32, b: u32) -> u32 {
    if flt_le(a, b) {
        b
    } else {
        a
    }
}

/// Rank of a scalar bit pattern, executable form.
pub fn cmp_key(a: u32) -> (r: u32)
    ensures
        r == flt_key(a),
{
    if a < SIGN_BIT {
        a + SIGN_BIT
    } else {
        0xFFFF_FFFFu32 - a
    }
}

/// Order test on scalar bit patterns.
pub fn cmp_le(a: u32, b: u32) -> (r: bool)
    ensures
        r == flt_le(a, b),
{
    cmp_key(a) <= cmp_key(b)
}

/// The smaller of two scalars.
pub fn cmp_min(a: u32, b: u32) -> (r: u32)
    ensures
        r == flt_min(a, b),
{
    if cmp_le(a, b) {
        a
    } else {
        b
    }
}

/// The larger of two scalars.
pub fn cmp_max(a: u32, b: u32) -> (r: u32)
    ensures
        r == flt_max(a, b),
{
    if cmp_le(a, b) {
        b
    } else {
        a
    }
}

/// A three-component vector of scalar bit patterns.
#[derive(Clone, Copy, Debug, PartialEq, Eq, Structural)]
pub struct Vec3 {
    pub x: u32,
    pub y: u32,
    pub z: u32,
}

/// A pair of plain integer components (pixel dimensions).
#[derive(Clone, Copy, Debug, PartialEq, Eq, Structural)]
pub struct Vec2 {
    pub x: u32,
    pub y: u32,
}

/// Axis-aligned bounding box: componentwise lower and upper corners.
#[derive(Clone, Copy, Debug, PartialEq, Eq, Structural)]
pub struct AABB {
    pub min: Vec3,
    pub max: Vec3,
}

impl AABB {
    /// Componentwise bound of two corner points, in either order.
    pub open spec fn spec_new(p: Vec3, q: Vec3) -> AABB {
        AABB {
            min: Vec3 { x: flt_min(p.x, q.x), y: flt_min(p.y, q.y), z: flt_min(p.z, q.z) },
            max: Vec3 { x: flt_max(p.x, q.x), y: flt_max(p.y, q.y), z: flt_max(p.z, q.z) },
        }
    }

    pub fn new(p: Vec3, q: Vec3) -> (r: AABB)
        ensures
            r == AABB::spec_new(p, q),
    {
        AABB {
            min: Vec3 { x: cmp_min(p.x, q.x), y: cmp_min(p.y, q.y), z: cmp_min(p.z, q.z) },
            max: Vec3 { x: cmp_max(p.x, q.x), y: cmp_max(p.y, q.y), z: cmp_max(p.z, q.z) },
        }
    }

    /// Smallest box enclosing both boxes.
    pub open spec fn spec_union(self, other: AABB) -> AABB {
        AABB {
            min: Vec3 {
                x: flt_min(self.min.x, other.min.x),
                y: flt_min(self.min.y, other.min.y),
                z: flt_min(self.min.z, other.min.z),
            },
            max: Vec3 {
                x: flt_max(self.max.x, other.max.x),
                y: flt_max(self.max.y, other.max.y),
                z: flt_max(self.max.z, other.max.z),
            },
        }
    }

    pub fn union(&self, other: &AABB) -> (r: AABB)
        ensures
            r == self.spec_union(*other),
    {
        AABB {
            min: Vec3 {
                x: cmp_min(self.min.x, other.min.x),
                y: cmp_min(self.min.y, other.min.y),
                z: cmp_min(self.min.z, other.min.z),
            },
            max: Vec3 {
                x: cmp_max(self.max.x, other.max.x),
                y: cmp_max(self.max.y, other.max.y),
                z: cmp_max(self.max.z, other.max.z),
            },
        }
    }

    /// `self` encloses `inner`, componentwise in the scalar order.
    pub open spec fn contains(self, inner: AABB) -> bool {
        &&& flt_le(self.min.x, inner.min.x)
        &&& flt_le(self.min.y, inner.min.y)
        &&& flt_le(self.min.z, inner.min.z)
        &&& flt_le(inner.max.x, self.max.x)
        &&& flt_le(inner.max.y, self.max.y)
        &&& flt_le(inner.max.z, self.max.z)
    }

    /// The union encloses both of its arguments.
    pub proof fn lemma_union_bounds(a: AABB, b: AABB)
        ensures
            a.spec_union(b).contains(a),
            a.spec_union(b).contains(b),
    {
    }

    /// Enclosure is transitive.
    pub proof fn lemma_contains_trans(a: AABB, b: AABB, c: AABB)
        requires
            a.contains(b),
            b.contains(c),
        ensures
            a.contains(c),
    {
    }
}

impl Default for AABB {
    /// The degenerate box at the origin (all component patterns zero).
    fn default() -> (r: Self)
        ensures
            r == (AABB { min: Vec3 { x: 0, y: 0, z: 0 }, max: Vec3 { x: 0, y: 0, z: 0 } }),
    {
        AABB { min: Vec3 { x: 0, y: 0, z: 0 }, max: Vec3 { x: 0, y: 0, z: 0 } }
    }
}

/// A surface material. The scalar payloads (albedo components, fuzz,
/// refractive index) are carried by bit pattern.
#[derive(Clone, Copy, Debug, PartialEq, Eq, Structural)]
pub enum Material {
    Diffuse { albedo: Vec3 },
    Reflective { albedo: Vec3, fuzz: u32 },
    Transparent { albedo: Vec3, ref_idx: u32 },
}

impl Material {
    /// The wire form flattens the sum type into a discriminant plus one
    /// payload slot: unused for diffuse, fuzz for reflective, refractive
    /// index for transparent.
    pub open spec fn spec_shader(self) -> shader_type::Material {
        match self {
            Material::Diffuse { albedo } => shader_type::Material {
                mat_type: shader_type::MAT_DIFFUSE,
                albedo,
                param1: 0,
            },
            Material::Reflective { albedo, fuzz } => shader_type::Material {
                mat_type: shader_type::MAT_REFLECTIVE,
                albedo,
                param1: fuzz,
            },
            Material::Transparent { albedo, ref_idx } => shader_type::Material {
                mat_type: shader_type::MAT_TRANSPARENT,
                albedo,
                param1: ref_idx,
            },
        }
    }

    pub fn as_shader_type(&self) -> (r: shader_type::Material)
        ensures
            r == self.spec_shader(),
    {
        match self {
            Material::Diffuse { albedo } => shader_type::Material {
                mat_type: shader_type::MAT_DIFFUSE,
                albedo: *albedo,
                param1: 0,
            },
            Material::Reflective { albedo, fuzz } => shader_type::Material {
                mat_type: shader_type::MAT_REFLECTIVE,
                albedo: *albedo,
                param1: *fuzz,
            },
            Material::Transparent { albedo, ref_idx } => shader_type::Material {
                mat_type: shader_type::MAT_TRANSPARENT,
                albedo: *albedo,
                param1: *ref_idx,
            },
        }
    }
}

/// A sphere intersection primitive: center, radius, and its bounding box.
/// The box is data: computing `center ± radius` is scalar arithmetic, which
/// the caller performs where scalars are real numbers.
#[derive(Clone, Copy, Debug, PartialEq, Eq, Structural)]
pub struct SpherePrim {
    pub center: Vec3,
    pub radius: u32,
    pub bbox: AABB,
}

/// A triangle intersection primitive: three vertices, three vertex normals,
/// and its bounding box.
#[derive(Clone, Copy, Debug, PartialEq, Eq, Structural)]
pub struct Triangle {
    pub v0: Vec3,
    pub v1: Vec3,
    pub v2: Vec3,
    pub n0: Vec3,
    pub n1: Vec3,
    pub n2: Vec3,
    pub bbox: AABB,
}

impl Triangle {
    /// Builds a triangle and its bounding box from the vertices: the bound
    /// of the first two corners joined with the bound of the outer two.
    pub fn new(v0: Vec3, v1: Vec3, v2: Vec3, n0: Vec3, n1: Vec3, n2: Vec3) -> (r: Triangle)
        ensures
            r == (Triangle {
                v0,
                v1,
                v2,
                n0,
                n1,
                n2,
                bbox: AABB::spec_new(v0, v1).spec_union(AABB::spec_new(v0, v2)),
            }),
    {
        let bbox = AABB::new(v0, v1).union(&AABB::new(v0, v2));
        Triangle { v0, v1, v2, n0, n1, n2, bbox }
    }
}

/// One intersection primitive of either kind.
#[derive(Clone, Copy, Debug, PartialEq, Eq, Structural)]
pub enum ObjPrim {
    Triangle(Triangle),
    Sphere(SpherePrim),
}

impl ObjPrim {
    pub open spec fn spec_bbox(self) -> AABB {
        match self {
            ObjPrim::Triangle(t) => t.bbox,
            ObjPrim::Sphere(s) => s.bbox,
        }
    }

    pub fn bbox(&self) -> (r: &AABB)
        ensures
            *r == self.spec_bbox(),
    {
        match self {
            ObjPrim::Triangle(t) => &t.bbox,
            ObjPrim::Sphere(s) => &s.bbox,
        }
    }

    /// The wire form of the primitive, tagged with its material index. A
    /// sphere packs its center into the first vector slot and its radius
    /// into the first component of the second.
    pub open spec fn spec_shader(self, mat_idx: u32) -> shader_type::Object {
        match self {
            ObjPrim::Triangle(t) => shader_type::Object {
                obj_type: shader_type::OBJ_TRIANGLE,
                mat_idx,
                v0: t.v0,
                v1: t.v1,
                v2: t.v2,
                n0: t.n0,
                n1: t.n1,
                n2: t.n2,
            },
            ObjPrim::Sphere(s) => shader_type::Object {
                obj_type: shader_type::OBJ_SPHERE,
                mat_idx,
                v0: s.center,
                v1: Vec3 { x: s.radius, y: 0, z: 0 },
                v2: Vec3 { x: 0, y: 0, z: 0 },
                n0: Vec3 { x: 0, y: 0, z: 0 },
                n1: Vec3 { x: 0, y: 0, z: 0 },
                n2: Vec3 { x: 0, y: 0, z: 0 },
            },
        }
    }

    pub fn as_shader_type(&self, mat_idx: u32) -> (r: shader_type::Object)
        ensures
            r == self.spec_shader(mat_idx),
    {
        match self {
            ObjPrim::Triangle(t) => shader_type::Object {
                obj_type: shader_type::OBJ_TRIANGLE,
                mat_idx,
                v0: t.v0,
                v1: t.v1,
                v2: t.v2,
                n0: t.n0,
                n1: t.n1,
                n2: t.n2,
            },
            ObjPrim::Sphere(s) => shader_type::Object {
                obj_type: shader_type::OBJ_SPHERE,
                mat_idx,
                v0: s.center,
                v1: Vec3 { x: s.radius, y: 0, z: 0 },
                v2: Vec3 { x: 0, y: 0, z: 0 },
                n0: Vec3 { x: 0, y: 0, z: 0 },
                n1: Vec3 { x: 0, y: 0, z: 0 },
                n2: Vec3 { x: 0, y: 0, z: 0 },
            },
        }
    }
}

/// A sphere scene object: its single primitive and its material.
#[derive(Clone, Copy, Debug, PartialEq, Eq, Structural)]
pub struct Sphere {
    pub prim: SpherePrim,
    pub material: Material,
}

impl Sphere {
    /// Builds a sphere from its center, radius, precomputed bounding box
    /// (`center ± radius`, computed by the caller in scalar arithmetic), and
    /// material.
    pub fn new(center: Vec3, radius: u32, bbox: AABB, material: Material) -> (r: Sphere)
        ensures
            r == (Sphere { prim: SpherePrim { center, radius, bbox }, material }),
    {
        Sphere { prim: SpherePrim { center, radius, bbox }, material }
    }
}

/// A mesh scene object: triangles already transformed into world space, all
/// sharing one material.
#[derive(Clone, Debug)]
pub struct Mesh {
    pub triangles: Vec<Triangle>,
    pub material: Material,
}

/// A scene object: a sphere or a triangle mesh.
#[derive(Clone, Debug)]
pub enum Object {
    Sphere(Sphere),
    Mesh(Mesh),
}

impl Object {
    /// The intersection primitives the object decomposes into: the sphere's
    /// single primitive, or one primitive per mesh triangle.
    pub open spec fn spec_prims(self) -> Seq<ObjPrim> {
        match self {
            Object::Sphere(s) => seq![ObjPrim::Sphere(s.prim)],
            Object::Mesh(m) => m.triangles@.map_values(|t: Triangle| ObjPrim::Triangle(t)),
        }
    }

    pub open spec fn spec_material(self) -> Material {
        match self {
            Object::Sphere(s) => s.material,
            Object::Mesh(m) => m.material,
        }
    }

    pub fn as_prims(&self) -> (r: Vec<ObjPrim>)
        ensures
            r@ == self.spec_prims(),
    {
        match self {
            Object::Sphere(s) => {
                let mut r: Vec<ObjPrim> = Vec::new();
                r.push(ObjPrim::Sphere(s.prim));
                proof {
                    assert(r@ =~= self.spec_prims());
                }
                r
            },
            Object::Mesh(m) => {
                let mut r: Vec<ObjPrim> = Vec::new();
                let mut i: usize = 0;
                while i < m.triangles.len()
                    invariant
                        i <= m.triangles@.len(),
                        r@ == m.triangles@.subrange(0, i as int).map_values(
                            |t: Triangle| ObjPrim::Triangle(t),
                        ),
                    decreases m.triangles@.len() - i,
                {
                    r.push(ObjPrim::Triangle(m.triangles[i]));
                    proof {
                        assert(r@ =~= m.triangles@.subrange(0, i + 1).map_values(
                            |t: Triangle| ObjPrim::Triangle(t),
                        ));
                    }
                    i = i + 1;
                }
                proof {
                    assert(m.triangles@.subrange(0, m.triangles@.len() as int) =~= m.triangles@);
                }
                r
            },
        }
    }

    pub fn material(&self) -> (r: &Material)
        ensures
            *r == self.spec_material(),
    {
        match self {
            Object::Sphere(s) => &s.material,
            Object::Mesh(m) => &m.material,
        }
    }
}

/// All primitives of a scene, in object order, each object's primitives in
/// their own order.
pub open spec fn flat_prims(objs: Seq<Object>) -> Seq<ObjPrim>
    decreases objs.len(),
{
    if objs.len() == 0 {
        Seq::<ObjPrim>::empty()
    } else {
        flat_prims(objs.drop_last()) + objs.last().spec_prims()
    }
}

/// The wire primitives of a scene: the flattened primitives, each tagged
/// with the index of its object's material (one material per object, pushed
/// in object order).
pub open spec fn shader_objects(objs: Seq<Object>) -> Seq<shader_type::Object>
    decreases objs.len(),
{
    if objs.len() == 0 {
        Seq::<shader_type::Object>::empty()
    } else {
        shader_objects(objs.drop_last()) + objs.last().spec_prims().map_values(
            |p: ObjPrim| p.spec_shader((objs.len() - 1) as u32),
        )
    }
}

/// The wire materials of a scene: one per object, in object order.
pub open spec fn shader_materials(objs: Seq<Object>) -> Seq<shader_type::Material> {
    objs.map_values(|o: Object| o.spec_material().spec_shader())
}

/// The bounding boxes of a primitive sequence, index-aligned.
pub open spec fn prim_boxes(prims: Seq<ObjPrim>) -> Seq<AABB> {
    prims.map_values(|p: ObjPrim| p.spec_bbox())
}

/// One working entry of the hierarchy build: a primitive index and that
/// primitive's bounding box.
pub open spec fn elem_ok(e: (usize, AABB), boxes: Seq<AABB>) -> bool {
    e.0 < boxes.len() && e.1 == boxes[e.0 as int]
}

/// Every working entry indexes a real primitive and carries its box.
pub open spec fn entries_ok(es: Seq<(usize, AABB)>, boxes: Seq<AABB>) -> bool {
    forall|k: int| 0 <= k < es.len() ==> elem_ok(#[trigger] es[k], boxes)
}

/// Shape of one node of a finished hierarchy over the primitive boxes
/// `boxes`: a leaf carries a valid primitive index, that primitive's box,
/// and no children; an internal node carries no primitive, two valid child
/// indices (never the root slot 0, and both built before it, except under
/// the root itself), and exactly the union of its children's boxes.
pub open spec fn node_ok(nodes: Seq<shader_type::BVHNode>, boxes: Seq<AABB>, i: int) -> bool {
    let n = nodes[i];
    if n.object_idx >= 0 {
        &&& n.left_idx == -1i32
        &&& n.right_idx == -1i32
        &&& n.object_idx < boxes.len()
        &&& n.bbox == boxes[n.object_idx as int]
    } else {
        &&& n.object_idx == -1i32
        &&& 1 <= n.left_idx < nodes.len()
        &&& 1 <= n.right_idx < nodes.len()
        &&& (i > 0 ==> n.left_idx < i && n.right_idx < i)
        &&& n.bbox == nodes[n.left_idx as int].bbox.spec_union(nodes[n.right_idx as int].bbox)
    }
}

/// A well-formed hierarchy: non-empty, every node shaped as `node_ok` asks.
pub open spec fn bvh_wf(nodes: Seq<shader_type::BVHNode>, boxes: Seq<AABB>) -> bool {
    &&& nodes.len() >= 1
    &&& forall|i: int| 0 <= i < nodes.len() ==> node_ok(nodes, boxes, i)
}

/// `b` encloses every primitive box.
pub open spec fn covers_all(b: AABB, boxes: Seq<AABB>) -> bool {
    forall|j: int| 0 <= j < boxes.len() ==> b.contains(#[trigger] boxes[j])
}

/// The lower bound of a box on the chosen split axis.
pub open spec fn axis_coord(b: AABB, axis: int) -> u32 {
    if axis == 0 {
        b.min.x
    } else if axis == 1 {
        b.min.y
    } else {
        b.min.z
    }
}

fn min_coord(b: &AABB, axis: usize) -> (r: u32)
    requires
        axis < 3,
    ensures
        r == axis_coord(*b, axis as int),
{
    if axis == 0 {
        b.min.x
    } else if axis == 1 {
        b.min.y
    } else {
        b.min.z
    }
}

/// Node shape only reads the node itself and earlier nodes, so it survives
/// appending nodes and overwriting the root slot.
proof fn lemma_node_ok_extend(
    pre: Seq<shader_type::BVHNode>,
    post: Seq<shader_type::BVHNode>,
    boxes: Seq<AABB>,
    i: int,
)
    requires
        pre.len() <= post.len(),
        forall|k: int| 1 <= k < pre.len() ==> post[k] == pre[k],
        1 <= i < pre.len(),
        node_ok(pre, boxes, i),
    ensures
        node_ok(post, boxes, i),
{
    let n = pre[i];
    if n.object_idx < 0 {
        assert(post[n.left_idx as int] == pre[n.left_idx as int]);
        assert(post[n.right_idx as int] == pre[n.right_idx as int]);
    }
}

proof fn lemma_swap_multiset<T>(s: Seq<T>, a: int, b: int)
    requires
        0 <= a < s.len(),
        0 <= b < s.len(),
    ensures
        s.update(a, s[b]).update(b, s[a]).to_multiset() == s.to_multiset(),
{
    broadcast use vstd::seq_lib::to_multiset_update;
    broadcast use vstd::seq_lib::to_multiset_contains;
    broadcast use vstd::multiset::group_multiset_axioms;
    broadcast use vstd::multiset::group_multiset_properties;

    if a == b {
        assert(s.update(a, s[b]).update(b, s[a]) =~= s);
    } else {
        let s1 = s.update(a, s[b]);
        let s2 = s1.update(b, s[a]);
        assert(s.contains(s[a]));
        assert(s.to_multiset().count(s[a]) > 0);
        assert(s1[b] == s[b]);
        assert(s1.to_multiset() == s.to_multiset().insert(s[b]).remove(s[a]));
        assert(s2.to_multiset() == s1.to_multiset().insert(s[a]).remove(s[b]));
        assert(s2.to_multiset() =~= s.to_multiset());
    }
}

/// The primitive index a node contributes as a leaf (none for an internal
/// node).
pub open spec fn leaf_contrib(n: shader_type::BVHNode) -> Multiset<int> {
    if n.object_idx >= 0 {
        Multiset::<int>::empty().insert(n.object_idx as int)
    } else {
        Multiset::<int>::empty()
    }
}

/// The primitive indices carried by the leaves of a node array, as a
/// multiset.
pub open spec fn leaf_indices(nodes: Seq<shader_type::BVHNode>) -> Multiset<int>
    decreases nodes.len(),
{
    if nodes.len() == 0 {
        Multiset::<int>::empty()
    } else {
        leaf_indices(nodes.drop_last()).add(leaf_contrib(nodes.last()))
    }
}

/// The primitive indices carried by a working-entry sequence, as a
/// multiset.
pub open spec fn entry_indices(es: Seq<(usize, AABB)>) -> Multiset<int> {
    es.map_values(|e: (usize, AABB)| e.0 as int).to_multiset()
}

/// Every primitive index below `n`, once each.
pub open spec fn all_prim_indices(n: nat) -> Multiset<int> {
    Seq::new(n, |k: int| k).to_multiset()
}

proof fn lemma_leaf_indices_push(s: Seq<shader_type::BVHNode>, x: shader_type::BVHNode)
    ensures
        leaf_indices(s.push(x)) == leaf_indices(s).add(leaf_contrib(x)),
{
    assert(s.push(x).drop_last() =~= s);
    assert(s.push(x).last() == x);
}

/// Replacing the root slot by another internal node leaves the leaf
/// multiset alone.
proof fn lemma_leaf_indices_update_root(s: Seq<shader_type::BVHNode>, x: shader_type::BVHNode)
    requires
        s.len() >= 1,
        s[0].object_idx < 0,
        x.object_idx < 0,
    ensures
        leaf_indices(s.update(0, x)) == leaf_indices(s),
    decreases s.len(),
{
    if s.len() == 1 {
        assert(s.update(0, x).drop_last() =~= s.drop_last());
        assert(s.update(0, x).last() == x);
    } else {
        assert(s.update(0, x).drop_last() =~= s.drop_last().update(0, x));
        assert(s.update(0, x).last() == s.last());
        lemma_leaf_indices_update_root(s.drop_last(), x);
    }
}

/// The entry-index multiset of a subrange splits at any midpoint.
proof fn lemma_entry_indices_split(s: Seq<(usize, AABB)>, lo: int, mid: int, hi: int)
    requires
        0 <= lo <= mid <= hi <= s.len(),
    ensures
        entry_indices(s.subrange(lo, hi)) == entry_indices(s.subrange(lo, mid)).add(
            entry_indices(s.subrange(mid, hi)),
        ),
{
    let f = |e: (usize, AABB)| e.0 as int;
    assert(s.subrange(lo, hi).map_values(f) =~= s.subrange(lo, mid).map_values(f) + s.subrange(
        mid,
        hi,
    ).map_values(f));
    vstd::seq_lib::lemma_multiset_commutative(
        s.subrange(lo, mid).map_values(f),
        s.subrange(mid, hi).map_values(f),
    );
}

/// A subrange's multiset splits at any midpoint.
proof fn lemma_subrange_multiset_split(s: Seq<(usize, AABB)>, lo: int, mid: int, hi: int)
    requires
        0 <= lo <= mid <= hi <= s.len(),
    ensures
        s.subrange(lo, hi).to_multiset() == s.subrange(lo, mid).to_multiset().add(
            s.subrange(mid, hi).to_multiset(),
        ),
{
    assert(s.subrange(lo, hi) =~= s.subrange(lo, mid) + s.subrange(mid, hi));
    vstd::seq_lib::lemma_multiset_commutative(s.subrange(lo, mid), s.subrange(mid, hi));
}

/// Overwrite one working entry.
fn set_entry(v: &mut Vec<(usize, AABB)>, i: usize, x: (usize, AABB))
    requires
        i < old(v)@.len(),
    ensures
        final(v)@ == old(v)@.update(i as int, x),
{
    let r = &mut v[i];
    *r = x;
}

/// Overwrite one node slot.
fn set_node(v: &mut Vec<shader_type::BVHNode>, i: usize, x: shader_type::BVHNode)
    requires
        i < old(v)@.len(),
    ensures
        final(v)@ == old(v)@.update(i as int, x),
{
    let r = &mut v[i];
    *r = x;
}

/// Entries in `[lo, hi)` are ordered by their boxes' lower bound on `axis`.
pub open spec fn sorted_range(es: Seq<(usize, AABB)>, lo: int, hi: int, axis: int) -> bool {
    forall|a: int, b: int|
        lo <= a < b < hi ==> flt_le(
            axis_coord((#[trigger] es[a]).1, axis),
            axis_coord((#[trigger] es[b]).1, axis),
        )
}

/// Sort the working entries in `[lo, hi)` by their boxes' lower bound on the
/// chosen axis (insertion sort). The entries outside the range are
/// untouched; inside it they are only rearranged: the range ends up ordered,
/// keeps its multiset of entries, and every entry still describes its
/// primitive.
fn sort_range(
    entries: &mut Vec<(usize, AABB)>,
    lo: usize,
    hi: usize,
    axis: usize,
    boxes: Ghost<Seq<AABB>>,
)
    requires
        lo <= hi <= old(entries)@.len(),
        axis < 3,
        entries_ok(old(entries)@, boxes@),
    ensures
        final(entries)@.len() == old(entries)@.len(),
        forall|k: int|
            0 <= k < old(entries)@.len() && !(lo <= k < hi) ==> final(entries)@[k] == old(
                entries,
            )@[k],
        final(entries)@.subrange(lo as int, hi as int).to_multiset() == old(entries)@.subrange(
            lo as int,
            hi as int,
        ).to_multiset(),
        entries_ok(final(entries)@, boxes@),
        sorted_range(final(entries)@, lo as int, hi as int, axis as int),
        entry_indices(final(entries)@.subrange(lo as int, hi as int)) == entry_indices(
            old(entries)@.subrange(lo as int, hi as int),
        ),
{
    if hi - lo < 2 {
        return ;
    }
    let mut i: usize = lo + 1;
    while i < hi
        invariant
            lo + 1 <= i <= hi <= entries@.len(),
            axis < 3,
            entries@.len() == old(entries)@.len(),
            forall|k: int|
                0 <= k < old(entries)@.len() && !(lo <= k < hi) ==> entries@[k] == old(
                    entries,
                )@[k],
            entries@.subrange(lo as int, hi as int).to_multiset() == old(entries)@.subrange(
                lo as int,
                hi as int,
            ).to_multiset(),
            entries_ok(entries@, boxes@),
            entry_indices(entries@.subrange(lo as int, hi as int)) == entry_indices(
                old(entries)@.subrange(lo as int, hi as int),
            ),
            sorted_range(entries@, lo as int, i as int, axis as int),
        decreases hi - i,
    {
        let mut j: usize = i;
        while j > lo
            invariant
                lo <= j <= i < hi <= entries@.len(),
                axis < 3,
                entries@.len() == old(entries)@.len(),
                forall|k: int|
                    0 <= k < old(entries)@.len() && !(lo <= k < hi) ==> entries@[k] == old(
                        entries,
                    )@[k],
                entries@.subrange(lo as int, hi as int).to_multiset() == old(entries)@.subrange(
                    lo as int,
                    hi as int,
                ).to_multiset(),
                entries_ok(entries@, boxes@),
                entry_indices(entries@.subrange(lo as int, hi as int)) == entry_indices(
                    old(entries)@.subrange(lo as int, hi as int),
                ),
                // the still-sorted prefix, the already-shifted sorted
                // suffix, and: everything up to the moving entry is at most
                // everything after it
                sorted_range(entries@, lo as int, j as int, axis as int),
                sorted_range(entries@, j + 1, i + 1, axis as int),
                forall|a: int, b: int|
                    lo <= a <= j < b <= i ==> flt_le(
                        axis_coord((#[trigger] entries@[a]).1, axis as int),
                        axis_coord((#[trigger] entries@[b]).1, axis as int),
                    ),
            ensures
                lo <= j <= i < hi <= entries@.len(),
                entries@.len() == old(entries)@.len(),
                forall|k: int|
                    0 <= k < old(entries)@.len() && !(lo <= k < hi) ==> entries@[k] == old(
                        entries,
                    )@[k],
                entries@.subrange(lo as int, hi as int).to_multiset() == old(entries)@.subrange(
                    lo as int,
                    hi as int,
                ).to_multiset(),
                entries_ok(entries@, boxes@),
                entry_indices(entries@.subrange(lo as int, hi as int)) == entry_indices(
                    old(entries)@.subrange(lo as int, hi as int),
                ),
                sorted_range(entries@, lo as int, j as int, axis as int),
                sorted_range(entries@, j + 1, i + 1, axis as int),
                forall|a: int, b: int|
                    lo <= a <= j < b <= i ==> flt_le(
                        axis_coord((#[trigger] entries@[a]).1, axis as int),
                        axis_coord((#[trigger] entries@[b]).1, axis as int),
                    ),
                j > lo ==> flt_le(
                    axis_coord(entries@[j - 1].1, axis as int),
                    axis_coord(entries@[j as int].1, axis as int),
                ),
            decreases j,
        {
            let prev = entries[j - 1];
            let cur = entries[j];
            if cmp_le(min_coord(&prev.1, axis), min_coord(&cur.1, axis)) {
                break ;
            }
            let ghost pre = entries@;
            let ghost jj = j as int;
            set_entry(entries, j - 1, cur);
            set_entry(entries, j, prev);
            proof {
                let a = j - 1 - lo as int;
                let b = j - lo as int;
                let sub_pre = pre.subrange(lo as int, hi as int);
                let sub_post = entries@.subrange(lo as int, hi as int);
                assert(sub_post =~= sub_pre.update(a, sub_pre[b]).update(b, sub_pre[a]));
                lemma_swap_multiset(sub_pre, a, b);
                let f = |e: (usize, AABB)| e.0 as int;
                let m_pre = sub_pre.map_values(f);
                assert(sub_post.map_values(f) =~= m_pre.update(a, m_pre[b]).update(b, m_pre[a]));
                lemma_swap_multiset(m_pre, a, b);
                assert(entries_ok(entries@, boxes@)) by {
                    assert(forall|k: int|
                        0 <= k < entries@.len() ==> entries@[k] == pre[k] || entries@[k] == pre[jj
                            - 1] || entries@[k] == pre[jj]);
                }
                // the swap moved the smaller entry one slot left; each of
                // the three ordering facts carries over
                assert(entries@[jj - 1] == pre[jj] && entries@[jj] == pre[jj - 1]);
                assert(forall|k: int|
                    0 <= k < entries@.len() && k != jj - 1 && k != jj ==> entries@[k] == pre[k]);
                assert forall|x: int, y: int| lo <= x <= jj - 1 < y <= i implies flt_le(
                    axis_coord((#[trigger] entries@[x]).1, axis as int),
                    axis_coord((#[trigger] entries@[y]).1, axis as int),
                ) by {
                    if y == jj {
                        if x < jj - 1 {
                            assert(flt_le(
                                axis_coord(pre[x].1, axis as int),
                                axis_coord(pre[jj - 1].1, axis as int),
                            ));
                        }
                    } else {
                        if x < jj - 1 {
                            assert(flt_le(
                                axis_coord(pre[x].1, axis as int),
                                axis_coord(pre[y].1, axis as int),
                            ));
                        } else {
                            assert(flt_le(
                                axis_coord(pre[jj].1, axis as int),
                                axis_coord(pre[y].1, axis as int),
                            ));
                        }
                    }
                }
                assert forall|x: int, y: int| jj - 1 < x < y < i + 1 implies flt_le(
                    axis_coord((#[trigger] entries@[x]).1, axis as int),
                    axis_coord((#[trigger] entries@[y]).1, axis as int),
                ) by {
                    if x == jj {
                        assert(flt_le(
                            axis_coord(pre[jj - 1].1, axis as int),
                            axis_coord(pre[y].1, axis as int),
                        ));
                    }
                }
            }
            j = j - 1;
        }
        proof {
            let jj = j as int;
            assert forall|a: int, b: int| lo <= a < b < i + 1 implies flt_le(
                axis_coord((#[trigger] entries@[a]).1, axis as int),
                axis_coord((#[trigger] entries@[b]).1, axis as int),
            ) by {
                if b == jj {
                    // everything below the insertion point is ordered, and
                    // the loop stopped because the neighbour pair is
                    if a < jj - 1 {
                        assert(flt_le(
                            axis_coord(entries@[a].1, axis as int),
                            axis_coord(entries@[jj - 1].1, axis as int),
                        ));
                    }
                    assert(flt_le(
                        axis_coord(entries@[jj - 1].1, axis as int),
                        axis_coord(entries@[jj].1, axis as int),
                    ));
                }
            }
        }
        i = i + 1;
    }
}

/// Recursive half of the hierarchy build over the working entries in
/// `[lo, hi)`: sorts the range on a random axis, splits at the middle,
/// builds both halves, then appends their parent. Appends exactly
/// `2*(hi-lo) - 1` nodes, returns the index of the subtree root (the last
/// appended node), and that root's box encloses every entry left in the
/// range.
fn build_range(
    entries: &mut Vec<(usize, AABB)>,
    lo: usize,
    hi: usize,
    nodes: &mut Vec<shader_type::BVHNode>,
    rng: &mut rand::rngs::StdRng,
    boxes: Ghost<Seq<AABB>>,
) -> (root: usize)
    requires
        lo < hi <= old(entries)@.len(),
        entries_ok(old(entries)@, boxes@),
        boxes@.len() <= 0x1000_0000,
        1 <= old(nodes)@.len(),
        old(nodes)@.len() + 2 * (hi - lo) <= 0x4000_0000,
        forall|i: int| 1 <= i < old(nodes)@.len() ==> node_ok(old(nodes)@, boxes@, i),
    ensures
        final(entries)@.len() == old(entries)@.len(),
        forall|k: int|
            0 <= k < old(entries)@.len() && !(lo <= k < hi) ==> final(entries)@[k] == old(
                entries,
            )@[k],
        final(entries)@.subrange(lo as int, hi as int).to_multiset() == old(entries)@.subrange(
            lo as int,
            hi as int,
        ).to_multiset(),
        entries_ok(final(entries)@, boxes@),
        final(nodes)@.len() == old(nodes)@.len() + 2 * (hi - lo) - 1,
        forall|i: int| 0 <= i < old(nodes)@.len() ==> final(nodes)@[i] == old(nodes)@[i],
        forall|i: int| 1 <= i < final(nodes)@.len() ==> node_ok(final(nodes)@, boxes@, i),
        root == final(nodes)@.len() - 1,
        forall|k: int|
            lo <= k < hi ==> final(nodes)@[root as int].bbox.contains(
                #[trigger] final(entries)@[k].1,
            ),
        entry_indices(final(entries)@.subrange(lo as int, hi as int)) == entry_indices(
            old(entries)@.subrange(lo as int, hi as int),
        ),
        leaf_indices(final(nodes)@) == leaf_indices(old(nodes)@).add(
            entry_indices(final(entries)@.subrange(lo as int, hi as int)),
        ),
    decreases hi - lo,
{
    if hi - lo == 1 {
        let e = entries[lo];
        let node = shader_type::BVHNode {
            bbox: e.1,
            left_idx: -1,
            right_idx: -1,
            object_idx: e.0 as i32,
        };
        nodes.push(node);
        proof {
            let post = nodes@;
            let pre = post.drop_last();
            assert(pre =~= old(nodes)@);
            assert(forall|i: int| 1 <= i < pre.len() ==> post[i] == pre[i]);
            assert forall|i: int| 1 <= i < post.len() implies node_ok(post, boxes@, i) by {
                if i < pre.len() {
                    lemma_node_ok_extend(pre, post, boxes@, i);
                } else {
                    assert(elem_ok(entries@[lo as int], boxes@));
                    assert(post[i] == node);
                }
            }
            // the new leaf contributes exactly this range's one entry index
            broadcast use vstd::seq_lib::group_to_multiset_ensures;
            broadcast use vstd::multiset::lemma_multiset_empty_len;
            broadcast use vstd::multiset::group_multiset_axioms;

            lemma_leaf_indices_push(old(nodes)@, node);
            let f = |en: (usize, AABB)| en.0 as int;
            let sub = entries@.subrange(lo as int, lo + 1);
            assert(sub.map_values(f) =~= Seq::<int>::empty().push(e.0 as int));
            assert(Seq::<int>::empty().to_multiset().len() == 0);
            assert(Seq::<int>::empty().to_multiset() =~= Multiset::<int>::empty());
            assert(entry_indices(sub) =~= Multiset::<int>::empty().insert(e.0 as int));
            assert(leaf_indices(nodes@) =~= leaf_indices(old(nodes)@).add(entry_indices(sub)));
        }
        nodes.len() - 1
    } else {
        let axis = random_axis(rng);
        sort_range(entries, lo, hi, axis, boxes);
        let ghost e1 = entries@;
        let ghost n1 = nodes@;
        let mid = lo + (hi - lo) / 2;
        let left = build_range(entries, lo, mid, nodes, rng, boxes);
        let ghost e2 = entries@;
        let ghost n2 = nodes@;
        let right = build_range(entries, mid, hi, nodes, rng, boxes);
        let ghost e3 = entries@;
        let ghost n3 = nodes@;
        let lb = nodes[left].bbox;
        let rb = nodes[right].bbox;
        let parent = shader_type::BVHNode {
            bbox: lb.union(&rb),
            left_idx: left as i32,
            right_idx: right as i32,
            object_idx: -1,
        };
        nodes.push(parent);
        proof {
            let post = nodes@;
            // the two children kept their boxes through the later appends
            assert(n3[left as int] == n2[left as int]);
            assert(post[left as int] == n2[left as int]);
            assert(post[right as int] == n3[right as int]);
            // every earlier node keeps its shape; the new parent is shaped too
            assert(forall|i: int| 1 <= i < n3.len() ==> post[i] == n3[i]);
            assert forall|i: int| 1 <= i < post.len() implies node_ok(post, boxes@, i) by {
                if i < n3.len() {
                    lemma_node_ok_extend(n3, post, boxes@, i);
                } else {
                    assert(post[i] == parent);
                    assert(1 <= left < i && 1 <= right < i);
                }
            }
            // entries outside [lo, hi) are exactly as they were
            assert(forall|k: int|
                0 <= k < old(entries)@.len() && !(lo <= k < hi) ==> e3[k] == old(entries)@[k]);
            // the range keeps its multiset: sort, left half, right half
            let o = old(entries)@;
            assert(e2.subrange(mid as int, hi as int) =~= e1.subrange(mid as int, hi as int));
            assert(e3.subrange(lo as int, mid as int) =~= e2.subrange(lo as int, mid as int));
            lemma_subrange_multiset_split(o, lo as int, mid as int, hi as int);
            lemma_subrange_multiset_split(e1, lo as int, mid as int, hi as int);
            lemma_subrange_multiset_split(e2, lo as int, mid as int, hi as int);
            lemma_subrange_multiset_split(e3, lo as int, mid as int, hi as int);
            // leaves collect exactly the range's entry indices: the parent
            // adds none, each half contributed its own
            broadcast use vstd::multiset::group_multiset_axioms;

            lemma_leaf_indices_push(n3, parent);
            lemma_entry_indices_split(o, lo as int, mid as int, hi as int);
            lemma_entry_indices_split(e1, lo as int, mid as int, hi as int);
            lemma_entry_indices_split(e2, lo as int, mid as int, hi as int);
            lemma_entry_indices_split(e3, lo as int, mid as int, hi as int);
            assert(leaf_contrib(parent) =~= Multiset::<int>::empty());
            assert(entry_indices(e3.subrange(lo as int, mid as int)) == entry_indices(
                e2.subrange(lo as int, mid as int),
            ));
            assert(entry_indices(e2.subrange(mid as int, hi as int)) == entry_indices(
                e1.subrange(mid as int, hi as int),
            ));
            assert(entry_indices(e3.subrange(lo as int, hi as int)) =~= entry_indices(
                o.subrange(lo as int, hi as int),
            ));
            assert(leaf_indices(post) =~= leaf_indices(old(nodes)@).add(
                entry_indices(e3.subrange(lo as int, hi as int)),
            ));
            // the parent's box encloses both halves' entries
            assert forall|k: int| lo <= k < hi implies post[post.len() - 1].bbox.contains(
                #[trigger] e3[k].1,
            ) by {
                AABB::lemma_union_bounds(lb, rb);
                if k < mid {
                    assert(e3[k] == e2[k]);
                    assert(n2[left as int].bbox.contains(e2[k].1));
                    AABB::lemma_contains_trans(parent.bbox, lb, e3[k].1);
                } else {
                    assert(n3[right as int].bbox.contains(e3[k].1));
                    AABB::lemma_contains_trans(parent.bbox, rb, e3[k].1);
                }
            }
        }
        nodes.len() - 1
    }
}

/// Build the bounding-volume hierarchy over a non-empty primitive list.
///
/// The tree is built by recursive median split on a randomly chosen axis
/// per node (a documented simplification; not the longest axis), leaves
/// first, each parent after its children — and the root is placed in slot 0,
/// where the GPU traversal loop starts. A single primitive yields a single
/// leaf node. The result is well-formed (`bvh_wf`), has exactly
/// `2n - 1` nodes for `n` primitives, and its root box encloses every
/// primitive's box.
pub fn build_bvh(prims: &Vec<ObjPrim>, rng: &mut rand::rngs::StdRng) -> (nodes: Vec<
    shader_type::BVHNode,
>)
    requires
        1 <= prims@.len() <= 0x1000_0000,
    ensures
        nodes@.len() == 2 * prims@.len() - 1,
        bvh_wf(nodes@, prim_boxes(prims@)),
        covers_all(nodes@[0].bbox, prim_boxes(prims@)),
        leaf_indices(nodes@) == all_prim_indices(prims@.len()),
{
    let ghost boxes = prim_boxes(prims@);
    let n = prims.len();
    let mut entries: Vec<(usize, AABB)> = Vec::new();
    let mut i: usize = 0;
    while i < n
        invariant
            i <= n == prims@.len(),
            boxes == prim_boxes(prims@),
            boxes.len() == prims@.len(),
            entries@.len() == i,
            forall|k: int|
                0 <= k < i ==> (#[trigger] entries@[k]).0 == k && entries@[k].1 == boxes[k],
        decreases n - i,
    {
        let b = *prims[i].bbox();
        entries.push((i, b));
        proof {
            assert(boxes.len() == prims@.len());
            assert(boxes[i as int] == prims@[i as int].spec_bbox());
        }
        i = i + 1;
    }
    let ghost e0 = entries@;
    proof {
        // the initial entries list the primitive indices in order
        broadcast use vstd::seq_lib::group_to_multiset_ensures;
        broadcast use vstd::multiset::lemma_multiset_empty_len;
        broadcast use vstd::multiset::group_multiset_axioms;

        let f = |en: (usize, AABB)| en.0 as int;
        assert(e0.map_values(f) =~= Seq::new(prims@.len(), |k: int| k));
        assert(entry_indices(e0) == all_prim_indices(prims@.len()));
    }
    if n == 1 {
        let e = entries[0];
        let mut nodes: Vec<shader_type::BVHNode> = Vec::new();
        let leaf = shader_type::BVHNode {
            bbox: e.1,
            left_idx: -1,
            right_idx: -1,
            object_idx: e.0 as i32,
        };
        nodes.push(leaf);
        proof {
            broadcast use vstd::seq_lib::group_to_multiset_ensures;
            broadcast use vstd::multiset::lemma_multiset_empty_len;
            broadcast use vstd::multiset::group_multiset_axioms;

            lemma_leaf_indices_push(Seq::<shader_type::BVHNode>::empty(), leaf);
            assert(leaf_indices(Seq::<shader_type::BVHNode>::empty())
                == Multiset::<int>::empty());
            let f = |en: (usize, AABB)| en.0 as int;
            assert(e0.map_values(f) =~= Seq::<int>::empty().push(0));
            assert(Seq::<int>::empty().to_multiset().len() == 0);
            assert(Seq::<int>::empty().to_multiset() =~= Multiset::<int>::empty());
            assert(leaf_indices(nodes@) =~= all_prim_indices(prims@.len()));
        }
        return nodes;
    }
    let mut nodes: Vec<shader_type::BVHNode> = Vec::new();
    nodes.push(shader_type::BVHNode::default());
    proof {
        lemma_leaf_indices_push(
            Seq::<shader_type::BVHNode>::empty(),
            shader_type::BVHNode {
                bbox: AABB { min: Vec3 { x: 0, y: 0, z: 0 }, max: Vec3 { x: 0, y: 0, z: 0 } },
                left_idx: -1i32,
                right_idx: -1i32,
                object_idx: -1i32,
            },
        );
        broadcast use vstd::multiset::group_multiset_axioms;

        assert(leaf_indices(nodes@) =~= Multiset::<int>::empty());
    }
    let ghost l0 = leaf_indices(nodes@);
    let axis = random_axis(rng);
    sort_range(&mut entries, 0, n, axis, Ghost(boxes));
    let ghost e1 = entries@;
    let mid = n / 2;
    let left = build_range(&mut entries, 0, mid, &mut nodes, rng, Ghost(boxes));
    let ghost e2 = entries@;
    let ghost n2 = nodes@;
    let right = build_range(&mut entries, mid, n, &mut nodes, rng, Ghost(boxes));
    let ghost e3 = entries@;
    let ghost n3 = nodes@;
    let lb = nodes[left].bbox;
    let rb = nodes[right].bbox;
    let root = shader_type::BVHNode {
        bbox: lb.union(&rb),
        left_idx: left as i32,
        right_idx: right as i32,
        object_idx: -1,
    };
    set_node(&mut nodes, 0, root);
    proof {
        let post = nodes@;
        assert(forall|i: int| 1 <= i < n3.len() ==> post[i] == n3[i]);
        assert(post[left as int] == n2[left as int]);
        assert(post[right as int] == n3[right as int]);
        assert forall|i: int| 0 <= i < post.len() implies node_ok(post, boxes, i) by {
            if i == 0 {
                assert(post[0] == root);
                assert(1 <= left && 1 <= right);
            } else {
                lemma_node_ok_extend(n3, post, boxes, i);
            }
        }
        // the root's box encloses every entry of the final arrangement
        assert forall|k: int| 0 <= k < n implies root.bbox.contains(#[trigger] e3[k].1) by {
            AABB::lemma_union_bounds(lb, rb);
            if k < mid {
                assert(e3[k] == e2[k]);
                assert(n2[left as int].bbox.contains(e2[k].1));
                AABB::lemma_contains_trans(root.bbox, lb, e3[k].1);
            } else {
                assert(n3[right as int].bbox.contains(e3[k].1));
                AABB::lemma_contains_trans(root.bbox, rb, e3[k].1);
            }
        }
        // the final arrangement is a permutation of the initial entries, so
        // every primitive index is still present and therefore enclosed
        assert(e2.subrange(mid as int, n as int) =~= e1.subrange(mid as int, n as int));
        assert(e3.subrange(0, mid as int) =~= e2.subrange(0, mid as int));
        lemma_subrange_multiset_split(e0, 0, mid as int, n as int);
        lemma_subrange_multiset_split(e1, 0, mid as int, n as int);
        lemma_subrange_multiset_split(e2, 0, mid as int, n as int);
        lemma_subrange_multiset_split(e3, 0, mid as int, n as int);
        assert(e0.subrange(0, n as int) =~= e0);
        assert(e3.subrange(0, n as int) =~= e3);
        assert(e3.to_multiset() == e0.to_multiset());
        // the leaves carry every primitive index exactly once
        broadcast use vstd::multiset::group_multiset_axioms;

        lemma_leaf_indices_update_root(n3, root);
        lemma_entry_indices_split(e0, 0, mid as int, n as int);
        lemma_entry_indices_split(e1, 0, mid as int, n as int);
        lemma_entry_indices_split(e2, 0, mid as int, n as int);
        lemma_entry_indices_split(e3, 0, mid as int, n as int);
        assert(leaf_indices(post) == leaf_indices(n3));
        assert(entry_indices(e3.subrange(0, mid as int)) == entry_indices(
            e2.subrange(0, mid as int),
        ));
        assert(entry_indices(e2.subrange(mid as int, n as int)) == entry_indices(
            e1.subrange(mid as int, n as int),
        ));
        assert(leaf_indices(n3) =~= l0.add(entry_indices(e3.subrange(0, n as int))));
        assert(entry_indices(e3.subrange(0, n as int)) =~= entry_indices(
            e0.subrange(0, n as int),
        ));
        assert(entry_indices(e0.subrange(0, n as int)) == entry_indices(e0));
        assert(leaf_indices(post) =~= all_prim_indices(prims@.len()));
        broadcast use vstd::seq_lib::to_multiset_contains;

        assert forall|j: int| 0 <= j < boxes.len() implies root.bbox.contains(
            #[trigger] boxes[j],
        ) by {
            assert(e0[j] == (j as usize, boxes[j]));
            assert(e0.contains((j as usize, boxes[j])));
            assert(e0.to_multiset().count((j as usize, boxes[j])) > 0);
            assert(e3.contains((j as usize, boxes[j])));
            let k = choose|k: int| 0 <= k < e3.len() && e3[k] == (j as usize, boxes[j]);
            assert(root.bbox.contains(e3[k].1));
        }
    }
    nodes
}

/// Flatten a scene into its three GPU arrays: the primitives (each tagged
/// with its object's material index), one material per object in object
/// order, and the bounding-volume hierarchy over the primitives.
///
/// A scene without a primitive is outside this builder's contract; callers
/// keep at least one.
pub fn as_shader_types(objects: &Vec<Object>, rng: &mut rand::rngs::StdRng) -> (r: (
    shader_type::BVH,
    shader_type::Objects,
    shader_type::Materials,
))
    requires
        1 <= flat_prims(objects@).len() <= 0x1000_0000,
        objects@.len() <= 0x1000_0000,
    ensures
        r.0.nodes@.len() == 2 * flat_prims(objects@).len() - 1,
        bvh_wf(r.0.nodes@, prim_boxes(flat_prims(objects@))),
        covers_all(r.0.nodes@[0].bbox, prim_boxes(flat_prims(objects@))),
        leaf_indices(r.0.nodes@) == all_prim_indices(flat_prims(objects@).len()),
        r.1.objects@ == shader_objects(objects@),
        r.2.materials@ == shader_materials(objects@),
{
    let mut primitives: Vec<ObjPrim> = Vec::new();
    let mut sobjs: Vec<shader_type::Object> = Vec::new();
    let mut mats: Vec<shader_type::Material> = Vec::new();
    let mut i: usize = 0;
    while i < objects.len()
        invariant
            i <= objects@.len() <= 0x1000_0000,
            primitives@ == flat_prims(objects@.subrange(0, i as int)),
            sobjs@ == shader_objects(objects@.subrange(0, i as int)),
            mats@ == shader_materials(objects@.subrange(0, i as int)),
        decreases objects@.len() - i,
    {
        let obj = &objects[i];
        let mut prims = obj.as_prims();
        let mut j: usize = 0;
        while j < prims.len()
            invariant
                j <= prims@.len(),
                i < objects@.len() <= 0x1000_0000,
                prims@ == objects@[i as int].spec_prims(),
                sobjs@ == shader_objects(objects@.subrange(0, i as int)) + prims@.subrange(
                    0,
                    j as int,
                ).map_values(|p: ObjPrim| p.spec_shader(i as u32)),
            decreases prims@.len() - j,
        {
            let p = prims[j];
            sobjs.push(p.as_shader_type(i as u32));
            proof {
                assert(prims@.subrange(0, j + 1).map_values(
                    |p: ObjPrim| p.spec_shader(i as u32),
                ) =~= prims@.subrange(0, j as int).map_values(
                    |p: ObjPrim| p.spec_shader(i as u32),
                ).push(prims@[j as int].spec_shader(i as u32)));
                assert(sobjs@ =~= shader_objects(objects@.subrange(0, i as int)) + prims@.subrange(
                    0,
                    j + 1,
                ).map_values(|p: ObjPrim| p.spec_shader(i as u32)));
            }
            j = j + 1;
        }
        mats.push(obj.material().as_shader_type());
        let ghost pv = prims@;
        primitives.append(&mut prims);
        proof {
            let sub = objects@.subrange(0, i as int);
            let sub1 = objects@.subrange(0, i + 1);
            assert(sub1.drop_last() =~= sub);
            assert(sub1.last() == objects@[i as int]);
            assert(pv.subrange(0, pv.len() as int) =~= pv);
            assert(primitives@ == flat_prims(sub) + pv);
            assert(primitives@ =~= flat_prims(sub1));
            assert((sub1.len() - 1) as u32 == i as u32);
            assert(sobjs@ =~= shader_objects(sub1));
            assert(shader_materials(sub1) =~= shader_materials(sub).push(
                objects@[i as int].spec_material().spec_shader(),
            ));
            assert(mats@ =~= shader_materials(sub1));
        }
        i = i + 1;
    }
    proof {
        assert(objects@.subrange(0, objects@.len() as int) =~= objects@);
    }
    let bvh_nodes = build_bvh(&primitives, rng);
    (
        shader_type::BVH { nodes: bvh_nodes },
        shader_type::Objects { objects: sobjs },
        shader_type::Materials { materials: mats },
    )
}

} // verus!
