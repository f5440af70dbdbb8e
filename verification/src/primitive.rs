//! The scene tree and how it is written into the primitive table.
use crate::material::{lemma_material_frame, lemma_wf_frame, Material, MaterialRef};
use crate::structure::{Bits3, Bits4, PrimitiveRaw, RawVec, AABB};
use crate::texture::{Texture, TextureRef};
use crate::utils::KeySource;
use crate::material::Isotropic;
use vstd::prelude::*;

verus! {

/// A sphere; `center_dir` is how far the center moves during a frame (zero when still).
pub struct Sphere {
    pub center: Bits3,
    pub center_dir: Bits3,
    pub radius: u32,
    pub mat: MaterialRef,
    pub aabb: AABB,
}

/// A sequence of primitives that the shader tests one after the other.
pub struct PrimitiveList {
    pub prim_list: Vec<Primitive>,
    pub aabb: AABB,
}

/// A node of a bounding volume hierarchy.
pub struct BVHNode {
    pub left: Option<Box<Primitive>>,
    pub right: Option<Box<Primitive>>,
    pub aabb: AABB,
}

/// A parallelogram with corner `q` and sides `u` and `v`, with the plane data the
/// shader needs precomputed.
pub struct Quad {
    pub q: Bits3,
    pub u: Bits3,
    pub v: Bits3,
    pub normal: Bits3,
    pub d: u32,
    pub w: Bits3,
    pub area: u32,
    pub mat: MaterialRef,
    pub aabb: AABB,
}

/// A primitive moved by `offset`.
pub struct Translate {
    pub object: Box<Primitive>,
    pub offset: Bits3,
    pub aabb: AABB,
}

/// A primitive rotated about the y axis.
pub struct RotateY {
    pub object: Box<Primitive>,
    pub sin_theta: u32,
    pub cos_theta: u32,
    pub aabb: AABB,
}

/// A volume of constant density bounded by a primitive.
pub struct ConstantMedium {
    pub boundary: Box<Primitive>,
    pub neg_inv_density: u32,
    pub phase_function: MaterialRef,
}

/// Every kind of primitive of the scene tree.
pub enum Primitive {
    Sphere(Sphere),
    PrimitiveList(PrimitiveList),
    BVHNode(BVHNode),
    Quad(Quad),
    Translate(Translate),
    RotateY(RotateY),
    ConstantMedium(ConstantMedium),
}

/// The number of records of the first `k` primitives of `s`.
pub open spec fn prefix_count(s: Seq<Primitive>, k: nat) -> nat
    decreases s, k,
{
    if k == 0 || k > s.len() {
        0
    } else {
        prefix_count(s, (k - 1) as nat) + s[k - 1].count()
    }
}

/// The texture budget of the first `k` primitives of `s`.
pub open spec fn prefix_tex(s: Seq<Primitive>, k: nat) -> nat
    decreases s, k,
{
    if k == 0 || k > s.len() {
        0
    } else {
        prefix_tex(s, (k - 1) as nat) + s[k - 1].tex_budget()
    }
}

/// The texel budget of the first `k` primitives of `s`.
pub open spec fn prefix_data(s: Seq<Primitive>, k: nat) -> nat
    decreases s, k,
{
    if k == 0 || k > s.len() {
        0
    } else {
        prefix_data(s, (k - 1) as nat) + s[k - 1].data_budget()
    }
}

/// `mat_id` is the index registered for `key` in `rv`, and the material registered under
/// `key` is stored there.
pub open spec fn material_registered_at(rv: RawVec, key: u64, mat_id: i32) -> bool {
    &&& rv.material_reg@.contains_key(key)
    &&& rv.materials_hash@.contains_key(key)
    &&& rv.materials_hash@[key] as int == mat_id as int
    &&& rv.material_reg@[key].material_at(rv, mat_id as int)
}

/// `x` and `y` agree on every field but the link to the next list element.
pub open spec fn same_but_next(x: PrimitiveRaw, y: PrimitiveRaw) -> bool {
    &&& x.type_id == y.type_id
    &&& x.mat_id == y.mat_id
    &&& x.left_child_id == y.left_child_id
    &&& x.right_child_id == y.right_child_id
    &&& x.aabb == y.aabb
    &&& x._pad == y._pad
    &&& x.data0 == y.data0
    &&& x.data1 == y.data1
    &&& x.data2 == y.data2
    &&& x.data3 == y.data3
    &&& x.data4 == y.data4
}

/// The primitive records `lo..hi` of `b` are those of `a`, but for the list link of `lo`.
pub open spec fn prims_kept(a: RawVec, b: RawVec, lo: int, hi: int) -> bool {
    &&& 0 <= lo < hi <= a.primitives@.len()
    &&& hi <= b.primitives@.len()
    &&& same_but_next(b.primitives@[lo], a.primitives@[lo])
    &&& forall|j: int| lo < j < hi ==> #[trigger] b.primitives@[j] == a.primitives@[j]
}

/// A record of the given type and box with no material and data only in `data0`.
pub open spec fn header(r: PrimitiveRaw, type_id: u32, aabb: AABB) -> bool {
    &&& r.type_id == type_id
    &&& r.mat_id == -1
    &&& r.aabb == aabb
    &&& r._pad == 0
    &&& r.data1 == Bits4::spec_zero()
    &&& r.data2 == Bits4::spec_zero()
    &&& r.data3 == Bits4::spec_zero()
    &&& r.data4 == Bits4::spec_zero()
}

impl Primitive {
    /// The number of records that writing this primitive adds: one per node.
    pub open spec fn count(self) -> nat
        decreases self, 0nat,
    {
        match self {
            Primitive::PrimitiveList(l) => 1 + prefix_count(l.prim_list@, l.prim_list@.len()),
            Primitive::BVHNode(b) => 1 + (match b.left {
                Some(c) => c.count(),
                None => 0,
            }) + (match b.right {
                Some(c) => c.count(),
                None => 0,
            }),
            Primitive::Translate(t) => 1 + t.object.count(),
            Primitive::RotateY(r) => 1 + r.object.count(),
            Primitive::ConstantMedium(c) => 1 + c.boundary.count(),
            _ => 1,
        }
    }

    /// An upper bound of the texture records that writing this primitive adds.
    pub open spec fn tex_budget(self) -> nat
        decreases self, 0nat,
    {
        match self {
            Primitive::Sphere(s) => s.mat@.tex_count(),
            Primitive::Quad(q) => q.mat@.tex_count(),
            Primitive::PrimitiveList(l) => prefix_tex(l.prim_list@, l.prim_list@.len()),
            Primitive::BVHNode(b) => (match b.left {
                Some(c) => c.tex_budget(),
                None => 0,
            }) + (match b.right {
                Some(c) => c.tex_budget(),
                None => 0,
            }),
            Primitive::Translate(t) => t.object.tex_budget(),
            Primitive::RotateY(r) => r.object.tex_budget(),
            Primitive::ConstantMedium(c) => c.phase_function@.tex_count() + c.boundary.tex_budget(),
        }
    }

    /// An upper bound of the texel words that writing this primitive adds.
    pub open spec fn data_budget(self) -> nat
        decreases self, 0nat,
    {
        match self {
            Primitive::Sphere(s) => s.mat@.data_budget(),
            Primitive::Quad(q) => q.mat@.data_budget(),
            Primitive::PrimitiveList(l) => prefix_data(l.prim_list@, l.prim_list@.len()),
            Primitive::BVHNode(b) => (match b.left {
                Some(c) => c.data_budget(),
                None => 0,
            }) + (match b.right {
                Some(c) => c.data_budget(),
                None => 0,
            }),
            Primitive::Translate(t) => t.object.data_budget(),
            Primitive::RotateY(r) => r.object.data_budget(),
            Primitive::ConstantMedium(c) => c.phase_function@.data_budget()
                + c.boundary.data_budget(),
        }
    }

    /// The bounding box of this primitive.
    pub open spec fn spec_aabb(self) -> AABB
        decreases self,
    {
        match self {
            Primitive::Sphere(s) => s.aabb,
            Primitive::PrimitiveList(l) => l.aabb,
            Primitive::BVHNode(b) => b.aabb,
            Primitive::Quad(q) => q.aabb,
            Primitive::Translate(t) => t.aabb,
            Primitive::RotateY(r) => r.aabb,
            Primitive::ConstantMedium(c) => c.boundary.spec_aabb(),
        }
    }

    /// The primitive table of `rv` holds this primitive at index `id`, its nodes in
    /// pre-order: a node's first child right after it, the children of a list chained by
    /// their `next_elem_id` (the last one ends the chain with -1), and the materials at the
    /// indexes their keys were registered at.
    pub open spec fn primitive_at(self, rv: RawVec, id: int) -> bool
        decreases self,
    {
        &&& 0 <= id
        &&& id + self.count() <= rv.primitives@.len()
        &&& {
            let r = rv.primitives@[id];
            match self {
                Primitive::Sphere(s) => {
                    &&& r.type_id == 1
                    &&& material_registered_at(rv, s.mat.key, r.mat_id)
                    &&& r.left_child_id == -1
                    &&& r.right_child_id == -1
                    &&& r.aabb == s.aabb
                    &&& r._pad == 0
                    &&& r.data0 == Bits4 { x: s.center.x, y: s.center.y, z: s.center.z, w: s.radius }
                    &&& r.data1 == Bits4 {
                        x: s.center_dir.x,
                        y: s.center_dir.y,
                        z: s.center_dir.z,
                        w: 0,
                    }
                    &&& r.data2 == Bits4::spec_zero()
                    &&& r.data3 == Bits4::spec_zero()
                    &&& r.data4 == Bits4::spec_zero()
                },
                Primitive::Quad(q) => {
                    &&& r.type_id == 2
                    &&& material_registered_at(rv, q.mat.key, r.mat_id)
                    &&& r.left_child_id == -1
                    &&& r.right_child_id == -1
                    &&& r.aabb == q.aabb
                    &&& r._pad == 0
                    &&& r.data0 == Bits4 { x: q.q.x, y: q.q.y, z: q.q.z, w: 0 }
                    &&& r.data1 == Bits4 { x: q.u.x, y: q.u.y, z: q.u.z, w: 0 }
                    &&& r.data2 == Bits4 { x: q.v.x, y: q.v.y, z: q.v.z, w: 0 }
                    &&& r.data3 == Bits4 { x: q.normal.x, y: q.normal.y, z: q.normal.z, w: q.d }
                    &&& r.data4 == Bits4 { x: q.w.x, y: q.w.y, z: q.w.z, w: q.area }
                },
                Primitive::PrimitiveList(l) => {
                    let s = l.prim_list@;
                    &&& header(r, 0, l.aabb)
                    &&& r.left_child_id == -1
                    &&& r.data0 == Bits4::spec_zero()
                    &&& r.right_child_id == (if s.len() == 0 {
                        0
                    } else {
                        id + 1
                    })
                    &&& forall|k: int|
                        0 <= k < l.prim_list@.len() ==> {
                            &&& (#[trigger] l.prim_list@[k]).primitive_at(
                                rv,
                                id + 1 + prefix_count(l.prim_list@, k as nat),
                            )
                            &&& rv.primitives@[id + 1 + prefix_count(
                                l.prim_list@,
                                k as nat,
                            )].next_elem_id == (if k + 1 < l.prim_list@.len() {
                                id + 1 + prefix_count(l.prim_list@, (k + 1) as nat)
                            } else {
                                -1
                            })
                        }
                },
                Primitive::BVHNode(b) => {
                    let left_count: int = match b.left {
                        Some(c) => c.count() as int,
                        None => 0,
                    };
                    &&& header(r, 0, b.aabb)
                    &&& r.data0 == Bits4::spec_zero()
                    &&& match b.left {
                        Some(c) => r.left_child_id == id + 1 && c.primitive_at(rv, id + 1),
                        None => r.left_child_id == -1,
                    }
                    &&& match b.right {
                        Some(c) => r.right_child_id == id + 1 + left_count && c.primitive_at(
                            rv,
                            id + 1 + left_count,
                        ),
                        None => r.right_child_id == -1,
                    }
                },
                Primitive::Translate(t) => {
                    &&& header(r, 3, t.aabb)
                    &&& r.left_child_id == -1
                    &&& r.data0 == Bits4 { x: t.offset.x, y: t.offset.y, z: t.offset.z, w: 0 }
                    &&& r.right_child_id == id + 1
                    &&& t.object.primitive_at(rv, id + 1)
                },
                Primitive::RotateY(t) => {
                    &&& header(r, 4, t.aabb)
                    &&& r.left_child_id == -1
                    &&& r.data0 == Bits4 { x: t.sin_theta, y: t.cos_theta, z: 0, w: 0 }
                    &&& r.right_child_id == id + 1
                    &&& t.object.primitive_at(rv, id + 1)
                },
                Primitive::ConstantMedium(c) => {
                    &&& r.type_id == 5
                    &&& material_registered_at(rv, c.phase_function.key, r.mat_id)
                    &&& r.left_child_id == -1
                    &&& r.aabb == c.boundary.spec_aabb()
                    &&& r._pad == 0
                    &&& r.data0 == Bits4 { x: c.neg_inv_density, y: 0, z: 0, w: 0 }
                    &&& r.data1 == Bits4::spec_zero()
                    &&& r.data2 == Bits4::spec_zero()
                    &&& r.data3 == Bits4::spec_zero()
                    &&& r.data4 == Bits4::spec_zero()
                    &&& r.right_child_id == id + 1
                    &&& c.boundary.primitive_at(rv, id + 1)
                },
            }
        }
    }
}

impl Primitive {
    /// Some node of this primitive uses the material `m` shared under `key`.
    pub open spec fn uses_material(self, key: u64, m: Material) -> bool
        decreases self, 0nat,
    {
        match self {
            Primitive::Sphere(s) => s.mat.key == key && s.mat@ == m,
            Primitive::Quad(q) => q.mat.key == key && q.mat@ == m,
            Primitive::PrimitiveList(l) => prefix_uses_material(l.prim_list@, l.prim_list@.len(), key, m),
            Primitive::BVHNode(b) => (match b.left {
                Some(c) => c.uses_material(key, m),
                None => false,
            }) || (match b.right {
                Some(c) => c.uses_material(key, m),
                None => false,
            }),
            Primitive::Translate(t) => t.object.uses_material(key, m),
            Primitive::RotateY(t) => t.object.uses_material(key, m),
            Primitive::ConstantMedium(c) => (c.phase_function.key == key && c.phase_function@ == m)
                || c.boundary.uses_material(key, m),
        }
    }

    /// Some material of this primitive reads the texture `t` shared under `key`.
    pub open spec fn uses_texture(self, key: u64, t: Texture) -> bool
        decreases self, 0nat,
    {
        match self {
            Primitive::Sphere(s) => s.mat@.uses_texture(key, t),
            Primitive::Quad(q) => q.mat@.uses_texture(key, t),
            Primitive::PrimitiveList(l) => prefix_uses_texture(l.prim_list@, l.prim_list@.len(), key, t),
            Primitive::BVHNode(b) => (match b.left {
                Some(c) => c.uses_texture(key, t),
                None => false,
            }) || (match b.right {
                Some(c) => c.uses_texture(key, t),
                None => false,
            }),
            Primitive::Translate(t2) => t2.object.uses_texture(key, t),
            Primitive::RotateY(t2) => t2.object.uses_texture(key, t),
            Primitive::ConstantMedium(c) => c.phase_function@.uses_texture(key, t)
                || c.boundary.uses_texture(key, t),
        }
    }
}

/// Every key that `new` registers beyond `old` was registered for a material or texture
/// that `p` uses, and every material key that `p` uses is registered in `new`.
pub open spec fn registered_from(old: RawVec, new: RawVec, p: Primitive) -> bool {
    &&& forall|k: u64| #[trigger]
        new.material_reg@.contains_key(k) && !old.material_reg@.contains_key(k)
            ==> p.uses_material(k, new.material_reg@[k])
    &&& forall|k: u64| #[trigger]
        new.texture_reg@.contains_key(k) && !old.texture_reg@.contains_key(k)
            ==> p.uses_texture(k, new.texture_reg@[k])
    &&& forall|k: u64, m: Material| #[trigger] p.uses_material(k, m) ==> new.material_reg@.contains_key(k)
}

/// The shared materials and textures of `p` each have one content per key.
pub open spec fn keys_consistent(p: Primitive) -> bool {
    &&& forall|k: u64, m1: Material, m2: Material|
        #![trigger p.uses_material(k, m1), p.uses_material(k, m2)]
        p.uses_material(k, m1) && p.uses_material(k, m2) ==> m1 == m2
    &&& forall|k: u64, t1: Texture, t2: Texture|
        #![trigger p.uses_texture(k, t1), p.uses_texture(k, t2)]
        p.uses_texture(k, t1) && p.uses_texture(k, t2) ==> t1 == t2
}

/// What `mreg` and `treg` register under the keys that `p` uses is what `p` uses.
pub open spec fn keys_agree(p: Primitive, mreg: Map<u64, Material>, treg: Map<u64, Texture>) -> bool {
    &&& forall|k: u64, m: Material| #[trigger]
        p.uses_material(k, m) && mreg.contains_key(k) ==> mreg[k] == m
    &&& forall|k: u64, t: Texture| #[trigger]
        p.uses_texture(k, t) && treg.contains_key(k) ==> treg[k] == t
}

/// A texture that a primitive uses is read by a material that it uses.
pub proof fn lemma_texture_user(p: Primitive, key: u64, t: Texture) -> (r: (u64, Material))
    requires
        p.uses_texture(key, t),
    ensures
        p.uses_material(r.0, r.1),
        r.1.uses_texture(key, t),
    decreases p,
{
    match p {
        Primitive::Sphere(s) => (s.mat.key, s.mat@),
        Primitive::Quad(q) => (q.mat.key, q.mat@),
        Primitive::PrimitiveList(l) => {
            let j = lemma_prefix_uses_texture_witness(l.prim_list@, l.prim_list@.len(), key, t);
            let r = lemma_texture_user(l.prim_list@[j], key, t);
            lemma_prefix_uses(l.prim_list@, l.prim_list@.len(), j, r.0, r.1, t);
            r
        },
        Primitive::BVHNode(b) => {
            match b.left {
                Some(c) => {
                    if c.uses_texture(key, t) {
                        return lemma_texture_user(*c, key, t);
                    }
                },
                None => {},
            }
            match b.right {
                Some(c) => lemma_texture_user(*c, key, t),
                None => (0, arbitrary()),
            }
        },
        Primitive::Translate(tr) => lemma_texture_user(*tr.object, key, t),
        Primitive::RotateY(tr) => lemma_texture_user(*tr.object, key, t),
        Primitive::ConstantMedium(c) => {
            if c.phase_function@.uses_texture(key, t) {
                (c.phase_function.key, c.phase_function@)
            } else {
                lemma_texture_user(*c.boundary, key, t)
            }
        },
    }
}

/// Writing a primitive whose shared materials and textures have one content per key,
/// into tables whose registrations agree with it, registers every key it uses with that
/// content: reading the tables back gives the primitive's own materials and textures.
pub proof fn law_written_primitive_keeps_its_materials(p: Primitive, old: RawVec, new: RawVec, id: int)
    requires
        wrote(old, new, p, id),
        registered_from(old, new, p),
        keys_consistent(p),
        keys_agree(p, old.material_reg@, old.texture_reg@),
    ensures
        forall|k: u64, m: Material| #[trigger] p.uses_material(k, m) ==> new.material_reg@.contains_key(k)
            && new.material_reg@[k] == m,
        forall|k: u64, t: Texture| #[trigger] p.uses_texture(k, t) ==> new.texture_reg@.contains_key(k)
            && new.texture_reg@[k] == t,
{
    assert forall|k: u64, m: Material| #[trigger] p.uses_material(k, m) implies new.material_reg@.contains_key(k)
        && new.material_reg@[k] == m by {
        if old.material_reg@.contains_key(k) {
            assert(new.material_reg@[k] == old.material_reg@[k]);
        } else {
            assert(p.uses_material(k, new.material_reg@[k]));
        }
    }
    assert forall|k: u64, t: Texture| #[trigger] p.uses_texture(k, t) implies new.texture_reg@.contains_key(k)
        && new.texture_reg@[k] == t by {
        let (km, m) = lemma_texture_user(p, k, t);
        assert(new.material_reg@.contains_key(km) && new.material_reg@[km] == m);
        assert(m.material_at(new, new.materials_hash@[km] as int));
        assert(new.texture_reg@.contains_key(k));
        if old.texture_reg@.contains_key(k) {
            assert(new.texture_reg@[k] == old.texture_reg@[k]);
        } else {
            assert(p.uses_texture(k, new.texture_reg@[k]));
        }
    }
}

/// Every primitive adds at least its own record.
pub proof fn lemma_count_pos(p: Primitive)
    ensures
        p.count() >= 1,
{
}

/// Record counts of a prefix grow with the prefix.
pub proof fn lemma_prefix_count_mono(s: Seq<Primitive>, k: nat, j: nat)
    requires
        k <= j <= s.len(),
    ensures
        prefix_count(s, k) <= prefix_count(s, j),
        prefix_tex(s, k) <= prefix_tex(s, j),
        prefix_data(s, k) <= prefix_data(s, j),
    decreases j,
{
    if k < j {
        lemma_prefix_count_mono(s, k, (j - 1) as nat);
    }
}

/// A registration of `a` is still in every extension of `a`.
pub proof fn lemma_registration_kept(a: RawVec, b: RawVec, key: u64)
    requires
        b.extends(a),
        a.material_reg@.contains_key(key),
        a.materials_hash@.contains_key(key),
    ensures
        b.material_reg@.contains_key(key),
        b.material_reg@[key] == a.material_reg@[key],
        b.materials_hash@.contains_key(key),
        b.materials_hash@[key] == a.materials_hash@[key],
{
}

/// A primitive written into some tables is still there after the tables grow, as long
/// as its own records stay (its first record may get a new list link).
#[verifier::spinoff_prover]
#[verifier::rlimit(40)]
pub proof fn lemma_primitive_frame(p: Primitive, a: RawVec, b: RawVec, id: int)
    requires
        p.primitive_at(a, id),
        b.extends(a),
        prims_kept(a, b, id, id + p.count()),
    ensures
        p.primitive_at(b, id),
    decreases p,
{
    let r = a.primitives@[id];
    match p {
        Primitive::Sphere(s) => {
            assert(a.material_reg@.contains_key(s.mat.key) && a.materials_hash@.contains_key(s.mat.key));
            lemma_registration_kept(a, b, s.mat.key);
            lemma_material_frame(a.material_reg@[s.mat.key], a, b, r.mat_id as int);
        },
        Primitive::Quad(q) => {
            assert(p.primitive_at(a, id));
            assert(material_registered_at(a, q.mat.key, r.mat_id));
            assert(a.material_reg@.contains_key(q.mat.key) && a.materials_hash@.contains_key(q.mat.key));
            lemma_registration_kept(a, b, q.mat.key);
            lemma_material_frame(a.material_reg@[q.mat.key], a, b, r.mat_id as int);
        },
        Primitive::PrimitiveList(l) => {
            let s = l.prim_list@;
            assert forall|k: int| 0 <= k < l.prim_list@.len() implies {
                &&& (#[trigger] l.prim_list@[k]).primitive_at(
                    b,
                    id + 1 + prefix_count(l.prim_list@, k as nat),
                )
                &&& b.primitives@[id + 1 + prefix_count(l.prim_list@, k as nat)].next_elem_id == (
                if k + 1 < l.prim_list@.len() {
                    id + 1 + prefix_count(l.prim_list@, (k + 1) as nat)
                } else {
                    -1
                })
            } by {
                let pos = id + 1 + prefix_count(s, k as nat);
                lemma_prefix_count_mono(s, (k + 1) as nat, s.len());
                assert(prefix_count(s, (k + 1) as nat) == prefix_count(s, k as nat) + s[k].count());
                lemma_count_pos(s[k]);
                assert(b.primitives@[pos] == a.primitives@[pos]);
                lemma_primitive_frame(s[k], a, b, pos);
            }
        },
        Primitive::BVHNode(n) => {
            let left_count: int = match n.left {
                Some(c) => c.count() as int,
                None => 0,
            };
            match n.left {
                Some(c) => {
                    lemma_count_pos(*c);
                    assert(b.primitives@[id + 1] == a.primitives@[id + 1]);
                    lemma_primitive_frame(*c, a, b, id + 1);
                },
                None => {},
            }
            match n.right {
                Some(c) => {
                    lemma_count_pos(*c);
                    assert(b.primitives@[id + 1 + left_count] == a.primitives@[id + 1
                        + left_count]);
                    lemma_primitive_frame(*c, a, b, id + 1 + left_count);
                },
                None => {},
            }
        },
        Primitive::Translate(t) => {
            lemma_count_pos(*t.object);
            assert(b.primitives@[id + 1] == a.primitives@[id + 1]);
            lemma_primitive_frame(*t.object, a, b, id + 1);
        },
        Primitive::RotateY(t) => {
            lemma_count_pos(*t.object);
            assert(b.primitives@[id + 1] == a.primitives@[id + 1]);
            lemma_primitive_frame(*t.object, a, b, id + 1);
        },
        Primitive::ConstantMedium(c) => {
            assert(p.primitive_at(a, id));
            assert(material_registered_at(a, c.phase_function.key, r.mat_id));
            assert(a.material_reg@.contains_key(c.phase_function.key) && a.materials_hash@.contains_key(c.phase_function.key));
            lemma_registration_kept(a, b, c.phase_function.key);
            lemma_material_frame(a.material_reg@[c.phase_function.key], a, b, r.mat_id as int);
            lemma_count_pos(*c.boundary);
            assert(b.primitives@[id + 1] == a.primitives@[id + 1]);
            lemma_primitive_frame(*c.boundary, a, b, id + 1);
        },
    }
}


/// The tables of `rv` have room for writing `p`: every index fits the 32-bit fields
/// that the shader reads.
pub open spec fn has_room(rv: RawVec, p: Primitive) -> bool {
    &&& rv.primitives@.len() + p.count() <= i32::MAX
    &&& rv.materials@.len() + p.count() <= i32::MAX
    &&& rv.textures@.len() + p.tex_budget() <= i32::MAX
    &&& rv.tex_data@.len() + p.data_budget() <= u32::MAX
}

/// Going from `old` to `new` wrote `p` at index `id`: its records were appended to the
/// primitive table (the first one with no list link), the records before them were kept,
/// the other tables only grew, the tables are still well formed, every material record
/// still stands for one registered key, and the texture tables still hold exactly what
/// the registered textures wrote.
pub open spec fn wrote(old: RawVec, new: RawVec, p: Primitive, id: int) -> bool {
    &&& new.wf()
    &&& new.extends(old)
    &&& id == old.primitives@.len()
    &&& new.primitives@.len() == old.primitives@.len() + p.count()
    &&& forall|j: int| 0 <= j < old.primitives@.len() ==> #[trigger] new.primitives@[j] == old.primitives@[j]
    &&& new.primitives@[id].next_elem_id == -1
    &&& p.primitive_at(new, id)
    &&& new.materials@.len() <= old.materials@.len() + p.count()
    &&& new.textures@.len() <= old.textures@.len() + p.tex_budget()
    &&& new.tex_data@.len() <= old.tex_data@.len() + p.data_budget()
    &&& old.written_once() ==> new.written_once()
    &&& old.textures_exact() ==> new.textures_exact()
}

/// Changing only primitive records keeps the other tables, and so their well-formedness.
pub proof fn lemma_prims_only(a: RawVec, b: RawVec)
    requires
        a.wf(),
        b.materials@ == a.materials@,
        b.textures@ == a.textures@,
        b.tex_data@ == a.tex_data@,
        b.materials_hash@ == a.materials_hash@,
        b.textures_hash@ == a.textures_hash@,
        b.material_reg@ == a.material_reg@,
        b.texture_reg@ == a.texture_reg@,
    ensures
        b.extends(a),
        b.wf(),
{
    lemma_wf_frame(a, b);
}

/// `extends` chains.
pub proof fn lemma_extends_trans(a: RawVec, b: RawVec, c: RawVec)
    requires
        b.extends(a),
        c.extends(b),
    ensures
        c.extends(a),
{
    assert forall|i: int| 0 <= i < a.materials@.len() implies #[trigger] c.materials@[i] == a.materials@[i] by {
        assert(c.materials@[i] == b.materials@[i]);
    }
    assert forall|i: int| 0 <= i < a.textures@.len() implies #[trigger] c.textures@[i] == a.textures@[i] by {
        assert(c.textures@[i] == b.textures@[i]);
    }
    assert forall|i: int| 0 <= i < a.tex_data@.len() implies #[trigger] c.tex_data@[i] == a.tex_data@[i] by {
        assert(c.tex_data@[i] == b.tex_data@[i]);
    }
    assert forall|k: u64| #[trigger] a.material_reg@.contains_key(k) implies c.material_reg@.contains_key(k)
        && c.material_reg@[k] == a.material_reg@[k] by {
        assert(b.material_reg@.contains_key(k));
        assert(b.material_reg@[k] == a.material_reg@[k]);
        assert(c.material_reg@.contains_key(k));
        assert(c.material_reg@[k] == b.material_reg@[k]);
    }
    assert forall|k: u64| #[trigger] a.materials_hash@.contains_key(k) implies c.materials_hash@.contains_key(k)
        && c.materials_hash@[k] == a.materials_hash@[k] by {
        assert(b.materials_hash@.contains_key(k));
        assert(b.materials_hash@[k] == a.materials_hash@[k]);
        assert(c.materials_hash@.contains_key(k));
        assert(c.materials_hash@[k] == b.materials_hash@[k]);
    }
    assert forall|k: u64| #[trigger] a.textures_hash@.contains_key(k) implies c.textures_hash@.contains_key(k)
        && c.textures_hash@[k] == a.textures_hash@[k] by {
        assert(b.textures_hash@.contains_key(k));
        assert(b.textures_hash@[k] == a.textures_hash@[k]);
        assert(c.textures_hash@.contains_key(k));
        assert(c.textures_hash@[k] == b.textures_hash@[k]);
    }
    assert forall|k: u64| #[trigger] a.texture_reg@.contains_key(k) implies c.texture_reg@.contains_key(k)
        && c.texture_reg@[k] == a.texture_reg@[k] by {
        assert(b.texture_reg@.contains_key(k));
        assert(b.texture_reg@[k] == a.texture_reg@[k]);
        assert(c.texture_reg@.contains_key(k));
        assert(c.texture_reg@[k] == b.texture_reg@[k]);
    }
}

impl Primitive {
    /// The bounding box of this primitive.
    pub fn aabb(&self) -> (r: AABB)
        ensures
            r == self.spec_aabb(),
        decreases self,
    {
        match self {
            Primitive::Sphere(s) => s.aabb,
            Primitive::PrimitiveList(l) => l.aabb,
            Primitive::BVHNode(b) => b.aabb,
            Primitive::Quad(q) => q.aabb,
            Primitive::Translate(t) => t.aabb,
            Primitive::RotateY(r) => r.aabb,
            Primitive::ConstantMedium(c) => c.boundary.aabb(),
        }
    }

    /// Writes this primitive, its descendants and the materials and textures they use
    /// (each shared one once) into the tables, and returns the index of its first record.
    pub fn to_raw(&self, rv: &mut RawVec) -> (id: usize)
        requires
            old(rv).wf(),
            has_room(*old(rv), *self),
        ensures
            wrote(*old(rv), *final(rv), *self, id as int),
            registered_from(*old(rv), *final(rv), *self),
        decreases self, 1nat,
    {
        match self {
            Primitive::Sphere(s) => s.to_raw(rv),
            Primitive::Quad(q) => q.to_raw(rv),
            Primitive::PrimitiveList(l) => l.to_raw(rv),
            Primitive::BVHNode(b) => b.to_raw(rv),
            Primitive::Translate(t) => t.to_raw(rv),
            Primitive::RotateY(t) => t.to_raw(rv),
            Primitive::ConstantMedium(c) => c.to_raw(rv),
        }
    }
}

/// Registers `mat` and appends `this_raw` with its index as the material.
fn push_with_material(rv: &mut RawVec, mat: &MaterialRef, this_raw: PrimitiveRaw) -> (id: usize)
    requires
        old(rv).wf(),
        old(rv).primitives@.len() < i32::MAX,
        old(rv).materials@.len() < i32::MAX,
        old(rv).textures@.len() + mat@.tex_count() <= i32::MAX,
        old(rv).tex_data@.len() + mat@.data_budget() <= u32::MAX,
    ensures
        final(rv).wf(),
        final(rv).extends(*old(rv)),
        id == old(rv).primitives@.len(),
        final(rv).primitives@ == old(rv).primitives@.push(
            (PrimitiveRaw { mat_id: final(rv).primitives@[id as int].mat_id, ..this_raw }),
        ),
        material_registered_at(*final(rv), mat.key, final(rv).primitives@[id as int].mat_id),
        final(rv).materials@.len() <= old(rv).materials@.len() + 1,
        final(rv).textures@.len() <= old(rv).textures@.len() + mat@.tex_count(),
        final(rv).tex_data@.len() <= old(rv).tex_data@.len() + mat@.data_budget(),
        forall|k: u64| #[trigger]
            final(rv).material_reg@.contains_key(k) && !old(rv).material_reg@.contains_key(k)
                ==> k == mat.key && final(rv).material_reg@[k] == mat@,
        forall|k: u64| #[trigger]
            final(rv).texture_reg@.contains_key(k) && !old(rv).texture_reg@.contains_key(k)
                ==> mat@.uses_texture(k, final(rv).texture_reg@[k]),
        final(rv).material_reg@.contains_key(mat.key),
        old(rv).written_once() ==> final(rv).written_once(),
        old(rv).textures_exact() ==> final(rv).textures_exact(),
{
    let mat_id = rv.register_material(mat);
    let ghost mid = *rv;
    let mut r = this_raw;
    r.mat_id = mat_id as i32;
    let id = rv.primitives.len();
    rv.primitives.push(r);
    proof {
        lemma_prims_only(mid, *rv);
        lemma_extends_trans(*old(rv), mid, *rv);
        lemma_material_frame(mid.material_reg@[mat.key], mid, *rv, mat_id as int);
    }
    id
}

impl Sphere {
    /// Writes this sphere (after its material) and returns the index of its record.
    pub fn to_raw(&self, rv: &mut RawVec) -> (id: usize)
        requires
            old(rv).wf(),
            has_room(*old(rv), Primitive::Sphere(*self)),
        ensures
            wrote(*old(rv), *final(rv), Primitive::Sphere(*self), id as int),
            registered_from(*old(rv), *final(rv), Primitive::Sphere(*self)),
    {
        let this_raw = PrimitiveRaw {
            type_id: 1,
            mat_id: -1,
            left_child_id: -1,
            right_child_id: -1,
            next_elem_id: -1,
            aabb: self.aabb,
            _pad: 0,
            data0: Bits4 { x: self.center.x, y: self.center.y, z: self.center.z, w: self.radius },
            data1: Bits4 { x: self.center_dir.x, y: self.center_dir.y, z: self.center_dir.z, w: 0 },
            data2: Bits4::zero(),
            data3: Bits4::zero(),
            data4: Bits4::zero(),
        };
        let id = push_with_material(rv, &self.mat, this_raw);
        id
    }
}

impl Quad {
    /// Writes this quad (after its material) and returns the index of its record.
    pub fn to_raw(&self, rv: &mut RawVec) -> (id: usize)
        requires
            old(rv).wf(),
            has_room(*old(rv), Primitive::Quad(*self)),
        ensures
            wrote(*old(rv), *final(rv), Primitive::Quad(*self), id as int),
            registered_from(*old(rv), *final(rv), Primitive::Quad(*self)),
    {
        let this_raw = PrimitiveRaw {
            type_id: 2,
            mat_id: -1,
            left_child_id: -1,
            right_child_id: -1,
            next_elem_id: -1,
            aabb: self.aabb,
            _pad: 0,
            data0: Bits4 { x: self.q.x, y: self.q.y, z: self.q.z, w: 0 },
            data1: Bits4 { x: self.u.x, y: self.u.y, z: self.u.z, w: 0 },
            data2: Bits4 { x: self.v.x, y: self.v.y, z: self.v.z, w: 0 },
            data3: Bits4 { x: self.normal.x, y: self.normal.y, z: self.normal.z, w: self.d },
            data4: Bits4 { x: self.w.x, y: self.w.y, z: self.w.z, w: self.area },
        };
        let id = push_with_material(rv, &self.mat, this_raw);
        id
    }
}


/// Registrations made in two steps come from the two parts of what was written.
proof fn lemma_registered_from_join(a: RawVec, b: RawVec, c: RawVec, p: Primitive, q1: Primitive, q2: Primitive)
    requires
        registered_from(a, b, q1),
        registered_from(b, c, q2),
        b.extends(a),
        c.extends(b),
        forall|k: u64, m: Material| #[trigger] p.uses_material(k, m) <==> (q1.uses_material(k, m) || q2.uses_material(k, m)),
        forall|k: u64, t: Texture| #[trigger] p.uses_texture(k, t) <==> (q1.uses_texture(k, t) || q2.uses_texture(k, t)),
    ensures
        registered_from(a, c, p),
{
    assert forall|k: u64| #[trigger] c.material_reg@.contains_key(k) && !a.material_reg@.contains_key(k)
        implies p.uses_material(k, c.material_reg@[k]) by {
        if b.material_reg@.contains_key(k) {
            assert(c.material_reg@[k] == b.material_reg@[k]);
            assert(q1.uses_material(k, b.material_reg@[k]));
        } else {
            assert(q2.uses_material(k, c.material_reg@[k]));
        }
    }
    assert forall|k: u64| #[trigger] c.texture_reg@.contains_key(k) && !a.texture_reg@.contains_key(k)
        implies p.uses_texture(k, c.texture_reg@[k]) by {
        if b.texture_reg@.contains_key(k) {
            assert(c.texture_reg@[k] == b.texture_reg@[k]);
            assert(q1.uses_texture(k, b.texture_reg@[k]));
        } else {
            assert(q2.uses_texture(k, c.texture_reg@[k]));
        }
    }
    assert forall|k: u64, m: Material| #[trigger] p.uses_material(k, m) implies c.material_reg@.contains_key(k) by {
        if q1.uses_material(k, m) {
            assert(b.material_reg@.contains_key(k));
        } else {
            assert(q2.uses_material(k, m));
        }
    }
}

/// A primitive that uses exactly what another uses is registered from the same writes.
proof fn lemma_registered_from_same(a: RawVec, b: RawVec, p: Primitive, q: Primitive)
    requires
        registered_from(a, b, q),
        forall|k: u64, m: Material| #[trigger] p.uses_material(k, m) <==> q.uses_material(k, m),
        forall|k: u64, t: Texture| #[trigger] p.uses_texture(k, t) <==> q.uses_texture(k, t),
    ensures
        registered_from(a, b, p),
{
    assert forall|k: u64| #[trigger] b.material_reg@.contains_key(k) && !a.material_reg@.contains_key(k)
        implies p.uses_material(k, b.material_reg@[k]) by {
        assert(q.uses_material(k, b.material_reg@[k]));
    }
    assert forall|k: u64| #[trigger] b.texture_reg@.contains_key(k) && !a.texture_reg@.contains_key(k)
        implies p.uses_texture(k, b.texture_reg@[k]) by {
        assert(q.uses_texture(k, b.texture_reg@[k]));
    }
    assert forall|k: u64, m: Material| #[trigger] p.uses_material(k, m) implies b.material_reg@.contains_key(k) by {
        assert(q.uses_material(k, m));
    }
}

/// Appends `this_raw` and then `child` right after it, and points the right child link of
/// `this_raw` at the child.
fn push_with_child(rv: &mut RawVec, this_raw: PrimitiveRaw, child: &Primitive) -> (id: usize)
    requires
        old(rv).wf(),
        this_raw.next_elem_id == -1,
        old(rv).primitives@.len() + 1 + child.count() <= i32::MAX,
        old(rv).materials@.len() + child.count() <= i32::MAX,
        old(rv).textures@.len() + child.tex_budget() <= i32::MAX,
        old(rv).tex_data@.len() + child.data_budget() <= u32::MAX,
    ensures
        final(rv).wf(),
        final(rv).extends(*old(rv)),
        id == old(rv).primitives@.len(),
        final(rv).primitives@.len() == old(rv).primitives@.len() + 1 + child.count(),
        forall|j: int| 0 <= j < old(rv).primitives@.len() ==> #[trigger] final(rv).primitives@[j] == old(rv).primitives@[j],
        final(rv).primitives@[id as int] == (PrimitiveRaw { right_child_id: (id + 1) as i32, ..this_raw }),
        child.primitive_at(*final(rv), id + 1),
        final(rv).materials@.len() <= old(rv).materials@.len() + child.count(),
        final(rv).textures@.len() <= old(rv).textures@.len() + child.tex_budget(),
        final(rv).tex_data@.len() <= old(rv).tex_data@.len() + child.data_budget(),
        registered_from(*old(rv), *final(rv), *child),
        old(rv).written_once() ==> final(rv).written_once(),
        old(rv).textures_exact() ==> final(rv).textures_exact(),
    decreases child, 2nat,
{
    let ghost start = *rv;
    let this_pid = rv.primitives.len();
    rv.primitives.push(this_raw);
    proof {
        lemma_prims_only(start, *rv);
    }
    let ghost after_push = *rv;
    let child_pid = child.to_raw(rv);
    let ghost after_child = *rv;
    let mut node = rv.primitives[this_pid];
    node.right_child_id = child_pid as i32;
    rv.primitives.set(this_pid, node);
    proof {
        lemma_prims_only(after_child, *rv);
        lemma_extends_trans(start, after_push, after_child);
        lemma_extends_trans(start, after_child, *rv);
        lemma_primitive_frame(*child, after_child, *rv, child_pid as int);
        assert forall|j: int| 0 <= j < start.primitives@.len() implies #[trigger] rv.primitives@[j]
            == start.primitives@[j] by {
            assert(after_child.primitives@[j] == after_push.primitives@[j]);
        }
    }
    this_pid
}

impl Translate {
    /// Writes this node and then the moved primitive; returns the index of this node.
    pub fn to_raw(&self, rv: &mut RawVec) -> (id: usize)
        requires
            old(rv).wf(),
            has_room(*old(rv), Primitive::Translate(*self)),
        ensures
            wrote(*old(rv), *final(rv), Primitive::Translate(*self), id as int),
            registered_from(*old(rv), *final(rv), Primitive::Translate(*self)),
        decreases self, 0nat,
    {
        let this_raw = PrimitiveRaw {
            type_id: 3,
            mat_id: -1,
            left_child_id: -1,
            right_child_id: -1,
            next_elem_id: -1,
            aabb: self.aabb,
            _pad: 0,
            data0: Bits4 { x: self.offset.x, y: self.offset.y, z: self.offset.z, w: 0 },
            data1: Bits4::zero(),
            data2: Bits4::zero(),
            data3: Bits4::zero(),
            data4: Bits4::zero(),
        };
        let id = push_with_child(rv, this_raw, &self.object);
        proof {
            let p = Primitive::Translate(*self);
            assert forall|k: u64, m: Material| #[trigger] p.uses_material(k, m) <==> self.object.uses_material(k, m) by {}
            assert forall|k: u64, t: Texture| #[trigger] p.uses_texture(k, t) <==> self.object.uses_texture(k, t) by {}
            lemma_registered_from_same(*old(rv), *rv, p, *self.object);
        }
        id
    }
}

impl RotateY {
    /// Writes this node and then the rotated primitive; returns the index of this node.
    pub fn to_raw(&self, rv: &mut RawVec) -> (id: usize)
        requires
            old(rv).wf(),
            has_room(*old(rv), Primitive::RotateY(*self)),
        ensures
            wrote(*old(rv), *final(rv), Primitive::RotateY(*self), id as int),
            registered_from(*old(rv), *final(rv), Primitive::RotateY(*self)),
        decreases self, 0nat,
    {
        let this_raw = PrimitiveRaw {
            type_id: 4,
            mat_id: -1,
            left_child_id: -1,
            right_child_id: -1,
            next_elem_id: -1,
            aabb: self.aabb,
            _pad: 0,
            data0: Bits4 { x: self.sin_theta, y: self.cos_theta, z: 0, w: 0 },
            data1: Bits4::zero(),
            data2: Bits4::zero(),
            data3: Bits4::zero(),
            data4: Bits4::zero(),
        };
        let id = push_with_child(rv, this_raw, &self.object);
        proof {
            let p = Primitive::RotateY(*self);
            assert forall|k: u64, m: Material| #[trigger] p.uses_material(k, m) <==> self.object.uses_material(k, m) by {}
            assert forall|k: u64, t: Texture| #[trigger] p.uses_texture(k, t) <==> self.object.uses_texture(k, t) by {}
            lemma_registered_from_same(*old(rv), *rv, p, *self.object);
        }
        id
    }
}

impl ConstantMedium {
    /// Writes the phase function, then this node and then the boundary; returns the index
    /// of this node.
    pub fn to_raw(&self, rv: &mut RawVec) -> (id: usize)
        requires
            old(rv).wf(),
            has_room(*old(rv), Primitive::ConstantMedium(*self)),
        ensures
            wrote(*old(rv), *final(rv), Primitive::ConstantMedium(*self), id as int),
            registered_from(*old(rv), *final(rv), Primitive::ConstantMedium(*self)),
        decreases self, 0nat,
    {
        let mat_id = rv.register_material(&self.phase_function);
        let ghost after_mat = *rv;
        let this_raw = PrimitiveRaw {
            type_id: 5,
            mat_id: mat_id as i32,
            left_child_id: -1,
            right_child_id: -1,
            next_elem_id: -1,
            aabb: self.boundary.aabb(),
            _pad: 0,
            data0: Bits4 { x: self.neg_inv_density, y: 0, z: 0, w: 0 },
            data1: Bits4::zero(),
            data2: Bits4::zero(),
            data3: Bits4::zero(),
            data4: Bits4::zero(),
        };
        let id = push_with_child(rv, this_raw, &self.boundary);
        proof {
            lemma_extends_trans(*old(rv), after_mat, *rv);
            lemma_material_frame(
                after_mat.material_reg@[self.phase_function.key],
                after_mat,
                *rv,
                mat_id as int,
            );
            let fin = *rv;
            let start = *old(rv);
            let p = Primitive::ConstantMedium(*self);
            let key = self.phase_function.key;
            assert(after_mat.material_reg@.contains_key(key));
            lemma_registration_kept(after_mat, fin, key);
            assert(material_registered_at(fin, key, fin.primitives@[id as int].mat_id));
            assert(p.primitive_at(fin, id as int));
            assert forall|k: u64| #[trigger] fin.material_reg@.contains_key(k) && !start.material_reg@.contains_key(k)
                implies p.uses_material(k, fin.material_reg@[k]) by {
                if after_mat.material_reg@.contains_key(k) {
                    assert(fin.material_reg@[k] == after_mat.material_reg@[k]);
                } else {
                    assert(self.boundary.uses_material(k, fin.material_reg@[k]));
                }
            }
            assert forall|k: u64| #[trigger] fin.texture_reg@.contains_key(k) && !start.texture_reg@.contains_key(k)
                implies p.uses_texture(k, fin.texture_reg@[k]) by {
                if after_mat.texture_reg@.contains_key(k) {
                    assert(fin.texture_reg@[k] == after_mat.texture_reg@[k]);
                    assert(self.phase_function@.uses_texture(k, fin.texture_reg@[k]));
                } else {
                    assert(self.boundary.uses_texture(k, fin.texture_reg@[k]));
                }
            }
            assert forall|k: u64, m: Material| #[trigger] p.uses_material(k, m) implies fin.material_reg@.contains_key(k) by {
                if !self.boundary.uses_material(k, m) {
                    assert(k == key);
                }
            }
            assert(fin.tex_data@.len() <= start.tex_data@.len() + p.data_budget());
        }
        id
    }
}

impl BVHNode {
    /// Writes this node, then its left subtree and then its right subtree; returns the
    /// index of this node.
    pub fn to_raw(&self, rv: &mut RawVec) -> (id: usize)
        requires
            old(rv).wf(),
            has_room(*old(rv), Primitive::BVHNode(*self)),
        ensures
            wrote(*old(rv), *final(rv), Primitive::BVHNode(*self), id as int),
            registered_from(*old(rv), *final(rv), Primitive::BVHNode(*self)),
        decreases self, 0nat,
    {
        let ghost start = *rv;
        let this_pid = rv.primitives.len();
        let this_raw = PrimitiveRaw {
            type_id: 0,
            mat_id: -1,
            left_child_id: -1,
            right_child_id: -1,
            next_elem_id: -1,
            aabb: self.aabb,
            _pad: 0,
            data0: Bits4::zero(),
            data1: Bits4::zero(),
            data2: Bits4::zero(),
            data3: Bits4::zero(),
            data4: Bits4::zero(),
        };
        rv.primitives.push(this_raw);
        proof {
            lemma_prims_only(start, *rv);
        }
        let ghost after_push = *rv;
        let left_id: i32 = match &self.left {
            Some(left_child) => {
                let lid = left_child.to_raw(rv);
                proof {
                    lemma_extends_trans(start, after_push, *rv);
                }
                lid as i32
            },
            None => -1,
        };
        let ghost after_left = *rv;
        proof {
            assert forall|j: int| 0 <= j <= start.primitives@.len() implies #[trigger] after_left.primitives@[j]
                == after_push.primitives@[j] by {}
        }
        let right_id: i32 = match &self.right {
            Some(right_child) => {
                let rid = right_child.to_raw(rv);
                proof {
                    lemma_extends_trans(start, after_left, *rv);
                    match &self.left {
                        Some(c) => lemma_primitive_frame(**c, after_left, *rv, left_id as int),
                        None => {},
                    }
                }
                rid as i32
            },
            None => -1,
        };
        let ghost after_right = *rv;
        assert(after_left.primitives@[this_pid as int] == this_raw);
        assert(after_right.primitives@[this_pid as int] == after_left.primitives@[this_pid as int]);
        let mut node = rv.primitives[this_pid];
        node.left_child_id = left_id;
        node.right_child_id = right_id;
        rv.primitives.set(this_pid, node);
        proof {
            lemma_prims_only(after_right, *rv);
            lemma_extends_trans(start, after_right, *rv);
            match &self.left {
                Some(c) => lemma_primitive_frame(**c, after_right, *rv, left_id as int),
                None => {},
            }
            match &self.right {
                Some(c) => lemma_primitive_frame(**c, after_right, *rv, right_id as int),
                None => {},
            }
            let fin = *rv;
            let p = Primitive::BVHNode(*self);
            let r = fin.primitives@[this_pid as int];
            match &self.left {
                Some(c) => {
                    assert(c.primitive_at(fin, this_pid + 1));
                },
                None => {},
            }
            let left_count: int = match &self.left {
                Some(c) => c.count() as int,
                None => 0,
            };
            match &self.right {
                Some(c) => {
                    assert(c.primitive_at(fin, this_pid + 1 + left_count));
                },
                None => {},
            }
            assert(fin.material_reg == after_right.material_reg && fin.texture_reg == after_right.texture_reg);
            assert(after_push.material_reg == start.material_reg && after_push.texture_reg == start.texture_reg);
            match (&self.left, &self.right) {
                (Some(l), Some(rt)) => {
                    assert forall|k: u64, m: Material| #[trigger] p.uses_material(k, m) <==> (l.uses_material(k, m) || rt.uses_material(k, m)) by {}
                    assert forall|k: u64, t: Texture| #[trigger] p.uses_texture(k, t) <==> (l.uses_texture(k, t) || rt.uses_texture(k, t)) by {}
                    lemma_registered_from_join(start, after_left, fin, p, **l, **rt);
                },
                (Some(l), None) => {
                    assert forall|k: u64, m: Material| #[trigger] p.uses_material(k, m) <==> l.uses_material(k, m) by {}
                    assert forall|k: u64, t: Texture| #[trigger] p.uses_texture(k, t) <==> l.uses_texture(k, t) by {}
                    lemma_registered_from_same(start, fin, p, **l);
                },
                (None, Some(rt)) => {
                    assert forall|k: u64, m: Material| #[trigger] p.uses_material(k, m) <==> rt.uses_material(k, m) by {}
                    assert forall|k: u64, t: Texture| #[trigger] p.uses_texture(k, t) <==> rt.uses_texture(k, t) by {}
                    lemma_registered_from_same(start, fin, p, **rt);
                },
                (None, None) => {
                    assert forall|k: u64, m: Material| #[trigger] p.uses_material(k, m) implies false by {}
                    assert forall|k: u64, t: Texture| #[trigger] p.uses_texture(k, t) implies false by {}
                },
            }
            assert(p.primitive_at(fin, this_pid as int));
            assert(fin.materials@.len() <= start.materials@.len() + p.count());
            assert(fin.textures@.len() <= start.textures@.len() + p.tex_budget());
            assert(fin.tex_data@.len() <= start.tex_data@.len() + p.data_budget());
        }
        this_pid
    }
}


/// The first `n` primitives of `s` are written in `rv` one after the other from index
/// `base`, each linked to the next, the last one with no link.
#[verifier::opaque]
pub open spec fn chained(s: Seq<Primitive>, rv: RawVec, base: int, n: int) -> bool {
    forall|k: int|
        0 <= k < n ==> {
            &&& (#[trigger] s[k]).primitive_at(rv, base + prefix_count(s, k as nat))
            &&& rv.primitives@[base + prefix_count(s, k as nat)].next_elem_id == (if k + 1 < n {
                base + prefix_count(s, (k + 1) as nat)
            } else {
                -1
            })
        }
}

/// The record ranges of the first `n` primitives of `s` lie in `base..base + prefix_count(s, n)`.
proof fn lemma_prefix_step(s: Seq<Primitive>, k: nat)
    requires
        k < s.len(),
    ensures
        prefix_count(s, k + 1) == prefix_count(s, k) + s[k as int].count(),
        prefix_tex(s, k + 1) == prefix_tex(s, k) + s[k as int].tex_budget(),
        prefix_data(s, k + 1) == prefix_data(s, k) + s[k as int].data_budget(),
        s[k as int].count() >= 1,
{
}

#[verifier::spinoff_prover]
#[verifier::rlimit(60)]
/// Appending records after the first `i` chained primitives keeps them chained.
proof fn lemma_chain_keeps(s: Seq<Primitive>, a: RawVec, b: RawVec, base: int, i: int)
    requires
        0 <= i <= s.len(),
        1 <= base,
        chained(s, a, base, i),
        base + prefix_count(s, i as nat) <= a.primitives@.len(),
        b.extends(a),
        a.primitives@.len() <= b.primitives@.len(),
        forall|j: int| 0 <= j < a.primitives@.len() ==> #[trigger] b.primitives@[j] == a.primitives@[j],
    ensures
        chained(s, b, base, i),
{
    reveal(chained);
    assert forall|k: int| 0 <= k < i implies {
        &&& (#[trigger] s[k]).primitive_at(b, base + prefix_count(s, k as nat))
        &&& b.primitives@[base + prefix_count(s, k as nat)].next_elem_id == (if k + 1 < i {
            base + prefix_count(s, (k + 1) as nat)
        } else {
            -1
        })
    } by {
        let pos = base + prefix_count(s, k as nat);
        lemma_prefix_step(s, k as nat);
        lemma_prefix_count_mono(s, (k + 1) as nat, i as nat);
        assert(b.primitives@[pos] == a.primitives@[pos]);
        lemma_primitive_frame(s[k], a, b, pos);
    }
}

/// The records that linking changes: only the link of the previous element.
pub open spec fn linked(s: Seq<Primitive>, a: RawVec, b: RawVec, base: int, i: int) -> bool {
    &&& i == 0 ==> b.primitives@ == a.primitives@
    &&& i > 0 ==> b.primitives@ == a.primitives@.update(
        base + prefix_count(s, (i - 1) as nat),
        PrimitiveRaw {
            next_elem_id: (base + prefix_count(s, i as nat)) as i32,
            ..a.primitives@[base + prefix_count(s, (i - 1) as nat)]
        },
    )
}

#[verifier::spinoff_prover]
proof fn lemma_chain_link_one(s: Seq<Primitive>, a: RawVec, b: RawVec, base: int, i: int, k: int)
    requires
        0 <= k <= i < s.len(),
        1 <= base,
        k < i ==> (s[k].primitive_at(a, base + prefix_count(s, k as nat))
            && a.primitives@[base + prefix_count(s, k as nat)].next_elem_id == (if k + 1 < i {
            base + prefix_count(s, (k + 1) as nat)
        } else {
            -1
        })),
        s[i].primitive_at(a, base + prefix_count(s, i as nat)),
        a.primitives@[base + prefix_count(s, i as nat)].next_elem_id == -1,
        b.extends(a),
        linked(s, a, b, base, i),
        base + prefix_count(s, (i + 1) as nat) <= a.primitives@.len() <= i32::MAX,
    ensures
        s[k].primitive_at(b, base + prefix_count(s, k as nat)),
        b.primitives@[base + prefix_count(s, k as nat)].next_elem_id == (if k + 1 < i + 1 {
            base + prefix_count(s, (k + 1) as nat)
        } else {
            -1
        }),
{
    let pos = base + prefix_count(s, k as nat);
    lemma_prefix_step(s, k as nat);
    lemma_prefix_step(s, i as nat);
    if i > 0 {
        lemma_prefix_step(s, (i - 1) as nat);
        lemma_prefix_count_mono(s, i as nat, i as nat);
    }
    if k < i {
        lemma_prefix_count_mono(s, (k + 1) as nat, i as nat);
        if k + 1 < i {
            lemma_prefix_step(s, (k + 1) as nat);
            lemma_prefix_count_mono(s, (k + 2) as nat, i as nat);
            lemma_prefix_count_mono(s, (k + 1) as nat, (i - 1) as nat);
        }
    }
    lemma_primitive_frame(s[k], a, b, pos);
}

#[verifier::spinoff_prover]
#[verifier::rlimit(60)]
/// Linking the last of the first `i` chained primitives to primitive `i`, written right
/// after them with no link, chains the first `i + 1`.
proof fn lemma_chain_link(s: Seq<Primitive>, a: RawVec, b: RawVec, base: int, i: int)
    requires
        0 <= i < s.len(),
        1 <= base,
        chained(s, a, base, i),
        s[i].primitive_at(a, base + prefix_count(s, i as nat)),
        a.primitives@[base + prefix_count(s, i as nat)].next_elem_id == -1,
        b.extends(a),
        linked(s, a, b, base, i),
        base + prefix_count(s, (i + 1) as nat) <= a.primitives@.len() <= i32::MAX,
    ensures
        chained(s, b, base, i + 1),
{
    reveal(chained);
    assert forall|k: int| 0 <= k <= i implies {
        &&& (#[trigger] s[k]).primitive_at(b, base + prefix_count(s, k as nat))
        &&& b.primitives@[base + prefix_count(s, k as nat)].next_elem_id == (if k + 1 < i + 1 {
            base + prefix_count(s, (k + 1) as nat)
        } else {
            -1
        })
    } by {
        lemma_chain_link_one(s, a, b, base, i, k);
    }
}

#[verifier::spinoff_prover]
#[verifier::rlimit(60)]
/// Changing only the record before a chain keeps the chain.
proof fn lemma_chain_keeps_root(s: Seq<Primitive>, a: RawVec, b: RawVec, base: int)
    requires
        1 <= base,
        chained(s, a, base, s.len() as int),
        base + prefix_count(s, s.len()) <= a.primitives@.len(),
        b.extends(a),
        b.primitives@.len() == a.primitives@.len(),
        forall|j: int| base <= j < a.primitives@.len() ==> #[trigger] b.primitives@[j] == a.primitives@[j],
    ensures
        chained(s, b, base, s.len() as int),
{
    reveal(chained);
    assert forall|k: int| 0 <= k < s.len() implies {
        &&& (#[trigger] s[k]).primitive_at(b, base + prefix_count(s, k as nat))
        &&& b.primitives@[base + prefix_count(s, k as nat)].next_elem_id == (if k + 1 < s.len() {
            base + prefix_count(s, (k + 1) as nat)
        } else {
            -1
        })
    } by {
        let pos = base + prefix_count(s, k as nat);
        lemma_prefix_step(s, k as nat);
        lemma_prefix_count_mono(s, (k + 1) as nat, s.len());
        lemma_primitive_frame(s[k], a, b, pos);
    }
}

/// One of the first `i` primitives of `s` uses the material `m` under `key`.
pub open spec fn prefix_uses_material(s: Seq<Primitive>, i: nat, key: u64, m: Material) -> bool
    decreases s, i,
{
    if i == 0 || i > s.len() {
        false
    } else {
        prefix_uses_material(s, (i - 1) as nat, key, m) || s[i - 1].uses_material(key, m)
    }
}

/// One of the first `i` primitives of `s` uses the texture `t` under `key`.
pub open spec fn prefix_uses_texture(s: Seq<Primitive>, i: nat, key: u64, t: Texture) -> bool
    decreases s, i,
{
    if i == 0 || i > s.len() {
        false
    } else {
        prefix_uses_texture(s, (i - 1) as nat, key, t) || s[i - 1].uses_texture(key, t)
    }
}

/// A primitive that one of the first `i` primitives of `s` is uses what it uses, and
/// every use of the first `i` comes from one of them.
pub proof fn lemma_prefix_uses(s: Seq<Primitive>, i: nat, j: int, key: u64, m: Material, t: Texture)
    requires
        i <= s.len(),
    ensures
        0 <= j < i && s[j].uses_material(key, m) ==> prefix_uses_material(s, i, key, m),
        0 <= j < i && s[j].uses_texture(key, t) ==> prefix_uses_texture(s, i, key, t),
    decreases i,
{
    if i > 0 {
        lemma_prefix_uses(s, (i - 1) as nat, j, key, m, t);
    }
}

/// A use by one of the first `i` primitives names one of them.
pub proof fn lemma_prefix_uses_witness(s: Seq<Primitive>, i: nat, key: u64, m: Material) -> (j: int)
    requires
        prefix_uses_material(s, i, key, m),
    ensures
        0 <= j < i && j < s.len() && s[j].uses_material(key, m),
    decreases i,
{
    if s[i - 1].uses_material(key, m) {
        (i - 1) as int
    } else {
        lemma_prefix_uses_witness(s, (i - 1) as nat, key, m)
    }
}

/// A texture use by one of the first `i` primitives names one of them.
pub proof fn lemma_prefix_uses_texture_witness(s: Seq<Primitive>, i: nat, key: u64, t: Texture) -> (j: int)
    requires
        prefix_uses_texture(s, i, key, t),
    ensures
        0 <= j < i && j < s.len() && s[j].uses_texture(key, t),
    decreases i,
{
    if s[i - 1].uses_texture(key, t) {
        (i - 1) as int
    } else {
        lemma_prefix_uses_texture_witness(s, (i - 1) as nat, key, t)
    }
}

/// `registered_from` for the first `i` primitives of `s`.
pub open spec fn prefix_registered_from(a: RawVec, b: RawVec, s: Seq<Primitive>, i: int) -> bool {
    &&& forall|k: u64| #[trigger]
        b.material_reg@.contains_key(k) && !a.material_reg@.contains_key(k)
            ==> prefix_uses_material(s, i as nat, k, b.material_reg@[k])
    &&& forall|k: u64| #[trigger]
        b.texture_reg@.contains_key(k) && !a.texture_reg@.contains_key(k)
            ==> prefix_uses_texture(s, i as nat, k, b.texture_reg@[k])
    &&& forall|j: int, k: u64, m: Material|
        0 <= j < i && #[trigger] s[j].uses_material(k, m) ==> b.material_reg@.contains_key(k)
}

/// Writing primitive `i` after the first `i` extends what they registered.
proof fn lemma_prefix_registered_step(a: RawVec, b: RawVec, c: RawVec, s: Seq<Primitive>, i: int)
    requires
        0 <= i < s.len(),
        prefix_registered_from(a, b, s, i),
        registered_from(b, c, s[i]),
        c.extends(b),
    ensures
        prefix_registered_from(a, c, s, i + 1),
{
    assert forall|k: u64| #[trigger] c.material_reg@.contains_key(k) && !a.material_reg@.contains_key(k)
        implies prefix_uses_material(s, (i + 1) as nat, k, c.material_reg@[k]) by {
        if b.material_reg@.contains_key(k) {
            assert(c.material_reg@[k] == b.material_reg@[k]);
        }
    }
    assert forall|k: u64| #[trigger] c.texture_reg@.contains_key(k) && !a.texture_reg@.contains_key(k)
        implies prefix_uses_texture(s, (i + 1) as nat, k, c.texture_reg@[k]) by {
        if b.texture_reg@.contains_key(k) {
            assert(c.texture_reg@[k] == b.texture_reg@[k]);
        }
    }
    assert forall|j: int, k: u64, m: Material| 0 <= j < i + 1 && #[trigger] s[j].uses_material(k, m)
        implies c.material_reg@.contains_key(k) by {
        if j < i {
            assert(b.material_reg@.contains_key(k));
        }
    }
}

/// What the whole list registered comes from its elements.
proof fn lemma_list_registered_from(before: RawVec, after: RawVec, list: PrimitiveList)
    requires
        prefix_registered_from(before, after, list.prim_list@, list.prim_list@.len() as int),
    ensures
        registered_from(before, after, Primitive::PrimitiveList(list)),
{
    let elems = list.prim_list@;
    let whole = Primitive::PrimitiveList(list);
    assert forall|key: u64, mm: Material| #[trigger] whole.uses_material(key, mm) implies after.material_reg@.contains_key(key) by {
        let j = lemma_prefix_uses_witness(elems, elems.len(), key, mm);
    }
}

impl PrimitiveList {
    #[verifier::spinoff_prover]
    #[verifier::rlimit(60)]
    /// Writes this list node and then its elements in order, each element linked to the
    /// next one; returns the index of the list node.
    pub fn to_raw(&self, rv: &mut RawVec) -> (id: usize)
        requires
            old(rv).wf(),
            has_room(*old(rv), Primitive::PrimitiveList(*self)),
        ensures
            wrote(*old(rv), *final(rv), Primitive::PrimitiveList(*self), id as int),
            registered_from(*old(rv), *final(rv), Primitive::PrimitiveList(*self)),
        decreases self, 0nat,
    {
        let ghost start = *rv;
        let ghost s = self.prim_list@;
        let this_pid = rv.primitives.len();
        let this_raw = PrimitiveRaw {
            type_id: 0,
            mat_id: -1,
            left_child_id: -1,
            right_child_id: -1,
            next_elem_id: -1,
            aabb: self.aabb,
            _pad: 0,
            data0: Bits4::zero(),
            data1: Bits4::zero(),
            data2: Bits4::zero(),
            data3: Bits4::zero(),
            data4: Bits4::zero(),
        };
        rv.primitives.push(this_raw);
        proof {
            lemma_prims_only(start, *rv);
        }
        let mut first_pid: usize = 0;
        let mut prev_pid: usize = 0;
        let mut i: usize = 0;
        proof {
            reveal(chained);
        }
        while i < self.prim_list.len()
            invariant
                0 <= i <= s.len(),
                s == self.prim_list@,
                this_pid == start.primitives@.len(),
                has_room(start, Primitive::PrimitiveList(*self)),
                rv.wf(),
                rv.extends(start),
                rv.primitives@.len() == this_pid + 1 + prefix_count(s, i as nat),
                forall|j: int| 0 <= j < this_pid ==> #[trigger] rv.primitives@[j] == start.primitives@[j],
                rv.primitives@[this_pid as int] == this_raw,
                rv.materials@.len() <= start.materials@.len() + prefix_count(s, i as nat),
                rv.textures@.len() <= start.textures@.len() + prefix_tex(s, i as nat),
                rv.tex_data@.len() <= start.tex_data@.len() + prefix_data(s, i as nat),
                i == 0 ==> first_pid == 0,
                i > 0 ==> first_pid == this_pid + 1,
                i > 0 ==> prev_pid == this_pid + 1 + prefix_count(s, (i - 1) as nat),
                chained(s, *rv, this_pid + 1, i as int),
                prefix_registered_from(start, *rv, s, i as int),
                start.written_once() ==> rv.written_once(),
                start.textures_exact() ==> rv.textures_exact(),
            decreases s.len() - i,
        {
            proof {
                lemma_prefix_step(s, i as nat);
                lemma_prefix_count_mono(s, (i + 1) as nat, s.len());
            }
            let ghost before = *rv;
            let pid = self.prim_list[i].to_raw(rv);
            let ghost after_child = *rv;
            proof {
                lemma_extends_trans(start, before, after_child);
                lemma_chain_keeps(s, before, after_child, this_pid + 1, i as int);
            }
            if i > 0 {
                let mut r = rv.primitives[prev_pid];
                r.next_elem_id = pid as i32;
                rv.primitives.set(prev_pid, r);
            } else {
                first_pid = pid;
            }
            proof {
                lemma_prims_only(after_child, *rv);
                lemma_extends_trans(start, after_child, *rv);
                lemma_chain_link(s, after_child, *rv, this_pid + 1, i as int);
                lemma_prefix_registered_step(start, before, after_child, s, i as int);
            }
            prev_pid = pid;
            i = i + 1;
        }
        let ghost after_loop = *rv;
        let mut node = rv.primitives[this_pid];
        node.right_child_id = first_pid as i32;
        rv.primitives.set(this_pid, node);
        proof {
            lemma_prims_only(after_loop, *rv);
            lemma_extends_trans(start, after_loop, *rv);
            let fin = *rv;
            lemma_chain_keeps_root(s, after_loop, fin, this_pid + 1);
            lemma_list_registered_from(start, fin, *self);
            reveal(chained);
            assert(Primitive::PrimitiveList(*self).primitive_at(fin, this_pid as int));
        }
        this_pid
    }
}


impl Sphere {
    /// A still sphere; `aabb` is its bounding box.
    pub fn sphere(center: Bits3, radius: u32, mat: MaterialRef, aabb: AABB) -> (r: Self)
        ensures
            r == (Sphere { center, center_dir: Bits3 { x: 0, y: 0, z: 0 }, radius, mat, aabb }),
    {
        Sphere { center, center_dir: Bits3 { x: 0, y: 0, z: 0 }, radius, mat, aabb }
    }

    /// A sphere that moves from `center` by `center_dir` during a frame; `aabb` bounds both
    /// of its positions.
    pub fn sphere_moving(center: Bits3, center_dir: Bits3, radius: u32, mat: MaterialRef, aabb: AABB) -> (r: Self)
        ensures
            r == (Sphere { center, center_dir, radius, mat, aabb }),
    {
        Sphere { center, center_dir, radius, mat, aabb }
    }
}

impl PrimitiveList {
    /// An empty list with the empty box.
    pub fn new() -> (r: Self)
        ensures
            r.prim_list@.len() == 0,
            r.aabb == AABB::spec_empty(),
    {
        PrimitiveList { prim_list: Vec::new(), aabb: AABB::empty() }
    }

    /// Removes every element; the box stays as it was.
    pub fn clear(&mut self)
        ensures
            final(self).prim_list@.len() == 0,
            final(self).aabb == old(self).aabb,
    {
        self.prim_list.clear();
    }

    /// Appends `prim`; `aabb` is the merged box of the list and `prim`.
    pub fn add(&mut self, prim: Primitive, aabb: AABB)
        ensures
            final(self).prim_list@ == old(self).prim_list@.push(prim),
            final(self).aabb == aabb,
    {
        self.aabb = aabb;
        self.prim_list.push(prim);
    }
}

/// How a bounding volume hierarchy node is built from `n` primitives.
#[derive(PartialEq, Eq, Structural, Clone, Copy, Debug)]
pub enum BvhSplit {
    /// One primitive: it becomes the right child and there is no left child.
    Single,
    /// Two primitives: the first becomes the left child and the second the right child.
    Pair,
    /// More: after ordering along the longest axis, the first `mid` primitives build the
    /// left subtree and the rest build the right subtree.
    Halves(usize),
}

/// The split of `n` primitives: the first half is the smaller one when `n` is odd.
pub open spec fn spec_bvh_split(n: usize) -> BvhSplit {
    if n == 1 {
        BvhSplit::Single
    } else if n == 2 {
        BvhSplit::Pair
    } else {
        BvhSplit::Halves(n / 2)
    }
}

/// Decides how `n` primitives (at least one) are split into the children of a node.
pub fn bvh_split(n: usize) -> (r: BvhSplit)
    requires
        n >= 1,
    ensures
        r == spec_bvh_split(n),
{
    if n == 1 {
        BvhSplit::Single
    } else if n == 2 {
        BvhSplit::Pair
    } else {
        BvhSplit::Halves(n / 2)
    }
}

/// Splitting three or more primitives gives two non-empty parts, each smaller than the
/// whole, so building the hierarchy ends.
pub proof fn law_bvh_split_shrinks(n: usize)
    requires
        n >= 3,
    ensures
        spec_bvh_split(n) matches BvhSplit::Halves(mid) && 1 <= mid < n && 1 <= n - mid < n,
{
}

impl BVHNode {
    /// A node with the given children and box.
    pub fn new(left: Option<Box<Primitive>>, right: Option<Box<Primitive>>, aabb: AABB) -> (r: Self)
        ensures
            r == (BVHNode { left, right, aabb }),
    {
        BVHNode { left, right, aabb }
    }
}

impl Quad {
    /// A quad with corner `q` and sides `u`, `v`; `normal`, `d`, `w` and `area` are its
    /// plane data and `aabb` its box.
    pub fn new(
        q: Bits3,
        u: Bits3,
        v: Bits3,
        normal: Bits3,
        d: u32,
        w: Bits3,
        area: u32,
        mat: MaterialRef,
        aabb: AABB,
    ) -> (r: Self)
        ensures
            r == (Quad { q, u, v, normal, d, w, area, mat, aabb }),
    {
        Quad { q, u, v, normal, d, w, area, mat, aabb }
    }
}

impl Translate {
    /// `object` moved by `offset`; `aabb` is the moved box.
    pub fn new(object: Primitive, offset: Bits3, aabb: AABB) -> (r: Self)
        ensures
            *r.object == object,
            r.offset == offset,
            r.aabb == aabb,
    {
        Translate { object: Box::new(object), offset, aabb }
    }
}

impl RotateY {
    /// `object` rotated about the y axis by the angle of the given sine and cosine;
    /// `aabb` is the rotated box.
    pub fn new(object: Primitive, sin_theta: u32, cos_theta: u32, aabb: AABB) -> (r: Self)
        ensures
            *r.object == object,
            r.sin_theta == sin_theta,
            r.cos_theta == cos_theta,
            r.aabb == aabb,
    {
        RotateY { object: Box::new(object), sin_theta, cos_theta, aabb }
    }
}

impl ConstantMedium {
    /// A medium inside `boundary` with a new shared phase function coloured by `tex`;
    /// `neg_inv_density` is `-1 / density`.
    pub fn new(boundary: Primitive, neg_inv_density: u32, tex: TextureRef, keys: &mut KeySource) -> (r: Self)
        requires
            old(keys).next < u64::MAX,
        ensures
            *r.boundary == boundary,
            r.neg_inv_density == neg_inv_density,
            r.phase_function.key == old(keys).next,
            r.phase_function@ == Material::Isotropic(Isotropic { tex }),
            final(keys).next == old(keys).next + 1,
    {
        ConstantMedium {
            boundary: Box::new(boundary),
            neg_inv_density,
            phase_function: Isotropic::new(tex, keys),
        }
    }

    /// A medium inside `boundary` with a new shared phase function of the colour `albedo`.
    pub fn from_color(boundary: Primitive, neg_inv_density: u32, albedo: Bits3, keys: &mut KeySource) -> (r: Self)
        requires
            old(keys).next < u64::MAX - 1,
        ensures
            *r.boundary == boundary,
            r.neg_inv_density == neg_inv_density,
            r.phase_function.key == old(keys).next + 1,
            r.phase_function@ is Isotropic,
            r.phase_function@->Isotropic_0.tex.key == old(keys).next,
            r.phase_function@->Isotropic_0.tex@ == crate::texture::Texture::SolidColor(
                crate::texture::SolidColor { albedo },
            ),
            final(keys).next == old(keys).next + 2,
    {
        ConstantMedium {
            boundary: Box::new(boundary),
            neg_inv_density,
            phase_function: Isotropic::from_color(albedo, keys),
        }
    }
}

/// The record written for a primitive carries that primitive's own data: a sphere its
/// centre, radius and motion, a quad its corner, edges, plane and area, a transform its
/// offset or rotation, a medium its density, each with its kind's number.
pub proof fn law_records_carry_their_data(p: Primitive, rv: RawVec, id: int)
    requires
        p.primitive_at(rv, id),
    ensures
        0 <= id < rv.primitives@.len(),
        match p {
            Primitive::Sphere(s) => {
                let r = rv.primitives@[id];
                &&& r.type_id == 1
                &&& r.data0.x == s.center.x && r.data0.y == s.center.y && r.data0.z == s.center.z
                &&& r.data0.w == s.radius
                &&& r.data1.x == s.center_dir.x && r.data1.y == s.center_dir.y
                &&& r.data1.z == s.center_dir.z && r.data1.w == 0
                &&& r.aabb == s.aabb
            },
            Primitive::Quad(q) => {
                let r = rv.primitives@[id];
                &&& r.type_id == 2
                &&& r.data0.x == q.q.x && r.data0.y == q.q.y && r.data0.z == q.q.z
                &&& r.data1.x == q.u.x && r.data1.y == q.u.y && r.data1.z == q.u.z
                &&& r.data2.x == q.v.x && r.data2.y == q.v.y && r.data2.z == q.v.z
                &&& r.data3.x == q.normal.x && r.data3.y == q.normal.y && r.data3.z == q.normal.z
                &&& r.data3.w == q.d
                &&& r.data4.x == q.w.x && r.data4.y == q.w.y && r.data4.z == q.w.z
                &&& r.data4.w == q.area
                &&& r.aabb == q.aabb
            },
            Primitive::Translate(t) => {
                let r = rv.primitives@[id];
                &&& r.type_id == 3
                &&& r.data0.x == t.offset.x && r.data0.y == t.offset.y && r.data0.z == t.offset.z
                &&& r.right_child_id == id + 1
            },
            Primitive::RotateY(t) => {
                let r = rv.primitives@[id];
                &&& r.type_id == 4
                &&& r.data0.x == t.sin_theta && r.data0.y == t.cos_theta
                &&& r.right_child_id == id + 1
            },
            Primitive::ConstantMedium(c) => {
                let r = rv.primitives@[id];
                &&& r.type_id == 5
                &&& r.data0.x == c.neg_inv_density
                &&& r.right_child_id == id + 1
            },
            _ => rv.primitives@[id].type_id == 0,
        },
{
    lemma_count_pos(p);
}

} // verus!
