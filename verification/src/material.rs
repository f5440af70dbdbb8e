//! Materials and how they are written into the material table.
use crate::structure::{Bits3, Bits4, MaterialRaw, RawVec};
use crate::texture::{lemma_texture_frame, SolidColor, Texture, TextureRef};
use crate::utils::{share_rc, KeySource};
use std::rc::Rc;
use vstd::prelude::*;

verus! {

/// A diffuse material coloured by a texture.
pub struct Lambertian {
    pub tex: TextureRef,
}

/// A reflective material; `fuzz` blurs the reflection.
pub struct Metal {
    pub albedo: Bits3,
    pub fuzz: u32,
}

/// A clear material that refracts light.
pub struct Dielectric {
    pub refraction_index: u32,
}

/// A material that emits the colours of a texture.
pub struct DiffuseLight {
    pub tex: TextureRef,
}

/// The phase function of a participating medium, coloured by a texture.
pub struct Isotropic {
    pub tex: TextureRef,
}

/// Every kind of material.
pub enum Material {
    Lambertian(Lambertian),
    Metal(Metal),
    Dielectric(Dielectric),
    DiffuseLight(DiffuseLight),
    Isotropic(Isotropic),
}

/// A shared material: every copy of a reference carries the same identity `key`, and the
/// material is written into the tables once per key.
pub struct MaterialRef {
    pub key: u64,
    pub mat: Rc<Material>,
}

impl View for MaterialRef {
    type V = Material;

    /// The shared material itself.
    open spec fn view(&self) -> Material {
        *self.mat
    }
}

/// `tex_id` is the index registered for `key` in `rv`, and the texture registered under
/// `key` is stored there.
pub open spec fn texture_registered_at(rv: RawVec, key: u64, tex_id: i32) -> bool {
    &&& rv.texture_reg@.contains_key(key)
    &&& rv.textures_hash@.contains_key(key)
    &&& rv.textures_hash@[key] as int == tex_id as int
    &&& rv.texture_reg@[key].texture_at(rv, tex_id as int)
}

impl Material {
    /// The texture this material reads, if any.
    pub open spec fn texture(self) -> Option<TextureRef> {
        match self {
            Material::Lambertian(l) => Some(l.tex),
            Material::DiffuseLight(l) => Some(l.tex),
            Material::Isotropic(l) => Some(l.tex),
            _ => None,
        }
    }

    /// This material reads the texture `t` shared under `key`.
    pub open spec fn uses_texture(self, key: u64, t: Texture) -> bool {
        self.texture() matches Some(tr) && tr.key == key && tr@ == t
    }

    /// The number of texture records that writing this material may add.
    pub open spec fn tex_count(self) -> nat {
        match self.texture() {
            Some(t) => t@.count(),
            None => 0,
        }
    }

    /// The texel budget that writing this material may use.
    pub open spec fn data_budget(self) -> nat {
        match self.texture() {
            Some(t) => t@.data_budget(),
            None => 0,
        }
    }

    /// The material table of `rv` holds this material at index `id`; a textured material
    /// points at the texture registered under its texture's key.
    pub open spec fn material_at(self, rv: RawVec, id: int) -> bool {
        &&& 0 <= id < rv.materials@.len()
        &&& rv.materials@[id]._pad0@ == seq![0u32, 0u32]
        &&& {
            let r = rv.materials@[id];
            match self {
                Material::Lambertian(l) => {
                    &&& r.type_id == 0
                    &&& r.data0 == Bits4::spec_zero()
                    &&& texture_registered_at(rv, l.tex.key, r.tex_id)
                },
                Material::Metal(m) => {
                    &&& r.type_id == 1
                    &&& r.tex_id == -1
                    &&& r.data0 == Bits4 { x: m.albedo.x, y: m.albedo.y, z: m.albedo.z, w: m.fuzz }
                },
                Material::Dielectric(d) => {
                    &&& r.type_id == 2
                    &&& r.tex_id == -1
                    &&& r.data0 == Bits4 { x: d.refraction_index, y: 0, z: 0, w: 0 }
                },
                Material::DiffuseLight(l) => {
                    &&& r.type_id == 3
                    &&& r.data0 == Bits4::spec_zero()
                    &&& texture_registered_at(rv, l.tex.key, r.tex_id)
                },
                Material::Isotropic(l) => {
                    &&& r.type_id == 4
                    &&& r.data0 == Bits4::spec_zero()
                    &&& texture_registered_at(rv, l.tex.key, r.tex_id)
                },
            }
        }
    }

    /// Writes this material into the material table (registering its texture first) and
    /// returns its index.
    pub fn to_raw(&self, rv: &mut RawVec) -> (id: usize)
        requires
            old(rv).wf(),
            old(rv).materials@.len() < i32::MAX,
            old(rv).textures@.len() + self.tex_count() <= i32::MAX,
            old(rv).tex_data@.len() + self.data_budget() <= u32::MAX,
        ensures
            final(rv).wf(),
            id == old(rv).materials@.len(),
            final(rv).materials@.len() == old(rv).materials@.len() + 1,
            final(rv).textures@.len() <= old(rv).textures@.len() + self.tex_count(),
            final(rv).tex_data@.len() <= old(rv).tex_data@.len() + self.data_budget(),
            final(rv).extends(*old(rv)),
            final(rv).primitives@ == old(rv).primitives@,
            final(rv).material_reg@ == old(rv).material_reg@,
            final(rv).materials_hash@ == old(rv).materials_hash@,
            match self.texture() {
                Some(t) => final(rv).texture_reg@ == (if old(rv).texture_reg@.contains_key(t.key) {
                    old(rv).texture_reg@
                } else {
                    old(rv).texture_reg@.insert(t.key, t@)
                }),
                None => final(rv).texture_reg@ == old(rv).texture_reg@,
            },
            self.material_at(*final(rv), id as int),
            old(rv).textures_exact() ==> final(rv).textures_exact(),
    {
        let this_raw = match self {
            Material::Lambertian(l) => {
                let tex_id = rv.register_texture(&l.tex);
                MaterialRaw { type_id: 0, tex_id: tex_id as i32, _pad0: [0;2], data0: Bits4::zero() }
            },
            Material::Metal(m) => MaterialRaw {
                type_id: 1,
                tex_id: -1,
                _pad0: [0;2],
                data0: Bits4 { x: m.albedo.x, y: m.albedo.y, z: m.albedo.z, w: m.fuzz },
            },
            Material::Dielectric(d) => MaterialRaw {
                type_id: 2,
                tex_id: -1,
                _pad0: [0;2],
                data0: Bits4 { x: d.refraction_index, y: 0, z: 0, w: 0 },
            },
            Material::DiffuseLight(l) => {
                let tex_id = rv.register_texture(&l.tex);
                MaterialRaw { type_id: 3, tex_id: tex_id as i32, _pad0: [0;2], data0: Bits4::zero() }
            },
            Material::Isotropic(l) => {
                let tex_id = rv.register_texture(&l.tex);
                MaterialRaw { type_id: 4, tex_id: tex_id as i32, _pad0: [0;2], data0: Bits4::zero() }
            },
        };
        assert(this_raw._pad0@ =~= seq![0u32, 0u32]);
        let ghost before = *rv;
        let id = rv.materials.len();
        rv.materials.push(this_raw);
        proof {
            assert(rv.materials@.subrange(0, before.materials@.len() as int) =~= before.materials@);
            lemma_push_material_extends(before, *rv);
            lemma_wf_frame(before, *rv);
            match self.texture() {
                Some(t) => {
                    lemma_texture_frame(
                        before.texture_reg@[t.key],
                        before,
                        *rv,
                        this_raw.tex_id as int,
                    );
                },
                None => {},
            }
        }
        id
    }
}

impl MaterialRef {
    /// Another reference to the same shared material, under the same key.
    pub fn share(&self) -> (r: Self)
        ensures
            r.key == self.key,
            r@ == self@,
    {
        MaterialRef { key: self.key, mat: share_rc(&self.mat) }
    }

    /// Shares `mat` under a new identity key.
    pub fn new(mat: Material, keys: &mut KeySource) -> (r: Self)
        requires
            old(keys).next < u64::MAX,
        ensures
            r.key == old(keys).next,
            final(keys).next == old(keys).next + 1,
            r@ == mat,
    {
        let key = keys.fresh();
        MaterialRef { key, mat: Rc::new(mat) }
    }
}

/// A new shared texture of the colour `albedo`.
fn solid_texture(albedo: Bits3, keys: &mut KeySource) -> (r: TextureRef)
    requires
        old(keys).next < u64::MAX,
    ensures
        r.key == old(keys).next,
        final(keys).next == old(keys).next + 1,
        r@ == Texture::SolidColor(SolidColor { albedo }),
{
    TextureRef::new(Texture::SolidColor(SolidColor::new(albedo)), keys)
}

impl Lambertian {
    /// A new shared diffuse material of the colour `albedo` (on a new shared texture).
    pub fn from_color(albedo: Bits3, keys: &mut KeySource) -> (r: MaterialRef)
        requires
            old(keys).next < u64::MAX - 1,
        ensures
            r.key == old(keys).next + 1,
            final(keys).next == old(keys).next + 2,
            r@ is Lambertian,
            r@->Lambertian_0.tex.key == old(keys).next,
            r@->Lambertian_0.tex@ == Texture::SolidColor(SolidColor { albedo }),
    {
        let tex = solid_texture(albedo, keys);
        MaterialRef::new(Material::Lambertian(Lambertian { tex }), keys)
    }

    /// A new shared diffuse material coloured by `tex`.
    pub fn new(tex: TextureRef, keys: &mut KeySource) -> (r: MaterialRef)
        requires
            old(keys).next < u64::MAX,
        ensures
            r.key == old(keys).next,
            final(keys).next == old(keys).next + 1,
            r@ == Material::Lambertian(Lambertian { tex }),
    {
        MaterialRef::new(Material::Lambertian(Lambertian { tex }), keys)
    }
}

impl Metal {
    /// A new shared metal; `fuzz` is the blur, already capped at 1.
    pub fn new(albedo: Bits3, fuzz: u32, keys: &mut KeySource) -> (r: MaterialRef)
        requires
            old(keys).next < u64::MAX,
        ensures
            r.key == old(keys).next,
            final(keys).next == old(keys).next + 1,
            r@ == Material::Metal(Metal { albedo, fuzz }),
    {
        MaterialRef::new(Material::Metal(Metal { albedo, fuzz }), keys)
    }
}

impl Dielectric {
    /// A new shared clear material of the given refraction index.
    pub fn new(refraction_index: u32, keys: &mut KeySource) -> (r: MaterialRef)
        requires
            old(keys).next < u64::MAX,
        ensures
            r.key == old(keys).next,
            final(keys).next == old(keys).next + 1,
            r@ == Material::Dielectric(Dielectric { refraction_index }),
    {
        MaterialRef::new(Material::Dielectric(Dielectric { refraction_index }), keys)
    }
}

impl DiffuseLight {
    /// A new shared light that emits the colours of `tex`.
    pub fn new(tex: TextureRef, keys: &mut KeySource) -> (r: MaterialRef)
        requires
            old(keys).next < u64::MAX,
        ensures
            r.key == old(keys).next,
            final(keys).next == old(keys).next + 1,
            r@ == Material::DiffuseLight(DiffuseLight { tex }),
    {
        MaterialRef::new(Material::DiffuseLight(DiffuseLight { tex }), keys)
    }

    /// A new shared light of the colour `emit` (on a new shared texture).
    pub fn from_color(emit: Bits3, keys: &mut KeySource) -> (r: MaterialRef)
        requires
            old(keys).next < u64::MAX - 1,
        ensures
            r.key == old(keys).next + 1,
            final(keys).next == old(keys).next + 2,
            r@ is DiffuseLight,
            r@->DiffuseLight_0.tex.key == old(keys).next,
            r@->DiffuseLight_0.tex@ == Texture::SolidColor(SolidColor { albedo: emit }),
    {
        let tex = solid_texture(emit, keys);
        MaterialRef::new(Material::DiffuseLight(DiffuseLight { tex }), keys)
    }
}

impl Isotropic {
    /// A new shared phase function coloured by `tex`.
    pub fn new(tex: TextureRef, keys: &mut KeySource) -> (r: MaterialRef)
        requires
            old(keys).next < u64::MAX,
        ensures
            r.key == old(keys).next,
            final(keys).next == old(keys).next + 1,
            r@ == Material::Isotropic(Isotropic { tex }),
    {
        MaterialRef::new(Material::Isotropic(Isotropic { tex }), keys)
    }

    /// A new shared phase function of the colour `albedo` (on a new shared texture).
    pub fn from_color(albedo: Bits3, keys: &mut KeySource) -> (r: MaterialRef)
        requires
            old(keys).next < u64::MAX - 1,
        ensures
            r.key == old(keys).next + 1,
            final(keys).next == old(keys).next + 2,
            r@ is Isotropic,
            r@->Isotropic_0.tex.key == old(keys).next,
            r@->Isotropic_0.tex@ == Texture::SolidColor(SolidColor { albedo }),
    {
        let tex = solid_texture(albedo, keys);
        MaterialRef::new(Material::Isotropic(Isotropic { tex }), keys)
    }
}

/// Pushing one material record keeps everything that was there.
proof fn lemma_push_material_extends(a: RawVec, b: RawVec)
    requires
        b.materials@.len() == a.materials@.len() + 1,
        b.materials@.subrange(0, a.materials@.len() as int) == a.materials@,
        b.textures@ == a.textures@,
        b.tex_data@ == a.tex_data@,
        b.material_reg == a.material_reg,
        b.texture_reg == a.texture_reg,
        b.materials_hash@ == a.materials_hash@,
        b.textures_hash@ == a.textures_hash@,
    ensures
        b.extends(a),
{
    assert forall|i: int| 0 <= i < a.materials@.len() implies #[trigger] b.materials@[i]
        == a.materials@[i] by {
        assert(b.materials@.subrange(0, a.materials@.len() as int)[i] == b.materials@[i]);
    }
}

/// A material written into some tables is still there after the tables grow.
pub proof fn lemma_material_frame(m: Material, a: RawVec, b: RawVec, id: int)
    requires
        m.material_at(a, id),
        b.extends(a),
    ensures
        m.material_at(b, id),
{
    assert(b.materials@[id] == a.materials@[id]);
    match m.texture() {
        Some(t) => {
            assert(a.texture_reg@.contains_key(t.key) && a.textures_hash@.contains_key(t.key));
            assert(b.texture_reg@.contains_key(t.key) && b.texture_reg@[t.key] == a.texture_reg@[t.key]);
            assert(b.textures_hash@.contains_key(t.key) && b.textures_hash@[t.key] == a.textures_hash@[t.key]);
            lemma_texture_frame(a.texture_reg@[t.key], a, b, a.materials@[id].tex_id as int);
        },
        None => {},
    }
}

/// Growing the tables without new registrations keeps them well formed.
pub proof fn lemma_wf_frame(a: RawVec, b: RawVec)
    requires
        a.wf(),
        b.extends(a),
        b.materials_hash@ == a.materials_hash@,
        b.textures_hash@ == a.textures_hash@,
        b.material_reg@ == a.material_reg@,
        b.texture_reg@ == a.texture_reg@,
    ensures
        b.wf(),
{
    assert forall|k: u64| #[trigger] b.material_reg@.contains_key(k) implies b.material_reg@[k].material_at(
        b,
        b.materials_hash@[k] as int,
    ) by {
        lemma_material_frame(a.material_reg@[k], a, b, a.materials_hash@[k] as int);
    }
    assert forall|k: u64| #[trigger] b.texture_reg@.contains_key(k) implies b.texture_reg@[k].texture_at(
        b,
        b.textures_hash@[k] as int,
    ) by {
        lemma_texture_frame(a.texture_reg@[k], a, b, a.textures_hash@[k] as int);
    }
}

} // verus!
