//! The scenes the renderer offers, and the tables a scene is written into.
use crate::material::{lemma_wf_frame, Material};
use crate::texture::Texture;
use crate::primitive::{lemma_extends_trans, lemma_primitive_frame, Primitive};
use crate::sizes::sizes_of;
use crate::structure::{record_total, texel_total, RawVec, SceneUniforms};
use vstd::prelude::*;

verus! {

/// The scenes of the configuration menu.
#[derive(PartialEq, Eq, Structural, Clone, Copy, Debug)]
pub enum SceneEnum {
    ThreeSpheres,
    BouncingSpheres,
    Earth,
    PerlinSpheres,
    Quads,
    SimpleLight,
    CornellBox,
    CornellSmoke,
    FinalScene,
}

/// A scene written for the GPU: its tables, where its tree and its lights start, and the
/// uniforms that point the shader at them.
pub struct SceneTables {
    pub raw_vec: RawVec,
    pub root_id: u32,
    pub light_id: i32,
    pub scene_uniforms: SceneUniforms,
}

/// The records, texture records and texels that writing `world` and `lights` may add
/// fit the 32-bit indexes of the shader.
pub open spec fn scene_fits(world: Primitive, lights: Option<Primitive>) -> bool {
    let lc = match lights {
        Some(l) => l.count(),
        None => 0,
    };
    let lt = match lights {
        Some(l) => l.tex_budget(),
        None => 0,
    };
    let ld = match lights {
        Some(l) => l.data_budget(),
        None => 0,
    };
    &&& world.count() + lc <= i32::MAX
    &&& world.tex_budget() + lt <= i32::MAX
    &&& world.data_budget() + ld < u32::MAX
}

/// Whether writing `world` and `lights` fits the 32-bit indexes of the shader, that is
/// whether `build_scene_tables` may be called on them.
pub fn fits_tables(world: &Primitive, lights: &Option<Primitive>) -> (b: bool)
    ensures
        b == scene_fits(*world, *lights),
{
    let w = world.sizes();
    let l = match lights {
        Some(l) => l.sizes(),
        None => (0, 0, 0),
    };
    proof {
        match lights {
            Some(lp) => assert(sizes_of(*lp, l)),
            None => {},
        }
    }
    w.0 + l.0 <= 0x7fff_ffff && w.1 + l.1 <= 0x7fff_ffff && w.2 + l.2 < 0xffff_ffff
}

/// `world` or `lights` uses the material `m` under `key`.
pub open spec fn scene_uses_material(world: Primitive, lights: Option<Primitive>, key: u64, m: Material) -> bool {
    world.uses_material(key, m) || (lights matches Some(l) && l.uses_material(key, m))
}

/// `world` or `lights` uses the texture `t` under `key`.
pub open spec fn scene_uses_texture(world: Primitive, lights: Option<Primitive>, key: u64, t: Texture) -> bool {
    world.uses_texture(key, t) || (lights matches Some(l) && l.uses_texture(key, t))
}

/// Writes `world` and then `lights` into new tables. The tree starts at record 0 and the
/// lights, if any, right after it (-1 when there are none). The texture tables hold
/// exactly the records and texels of the textures registered, each key once; the texel
/// table is given one zero word only when nothing else was written into it, since the
/// GPU rejects empty buffers.
pub fn build_scene_tables(world: &Primitive, lights: &Option<Primitive>) -> (r: SceneTables)
    requires
        scene_fits(*world, *lights),
    ensures
        r.raw_vec.wf(),
        r.root_id == 0,
        world.primitive_at(r.raw_vec, 0),
        match lights {
            Some(l) => r.light_id == world.count() && l.primitive_at(r.raw_vec, r.light_id as int),
            None => r.light_id == -1,
        },
        r.raw_vec.primitives@.len() == world.count() + match lights {
            Some(l) => l.count(),
            None => 0,
        },
        r.raw_vec.tex_data@.len() >= 1,
        world.data_budget() + match lights {
            Some(l) => l.data_budget(),
            None => 0,
        } == 0 ==> r.raw_vec.tex_data@ == seq![0u32],
        r.raw_vec.written_once(),
        forall|k: u64| r.raw_vec.texture_reg@.contains_key(k) <==> r.raw_vec.texture_order@.contains(k),
        r.raw_vec.texture_order@.no_duplicates(),
        r.raw_vec.textures@.len() == record_total(r.raw_vec.texture_order@, r.raw_vec.texture_reg@),
        r.raw_vec.tex_data@.len() == (if texel_total(r.raw_vec.texture_order@, r.raw_vec.texture_reg@)
            == 0 {
            1
        } else {
            texel_total(r.raw_vec.texture_order@, r.raw_vec.texture_reg@)
        }),
        forall|k: u64| #[trigger] r.raw_vec.material_reg@.contains_key(k) ==> scene_uses_material(
            *world,
            *lights,
            k,
            r.raw_vec.material_reg@[k],
        ),
        forall|k: u64, m: Material| #[trigger] scene_uses_material(*world, *lights, k, m)
            ==> r.raw_vec.material_reg@.contains_key(k),
        forall|k: u64| #[trigger] r.raw_vec.texture_reg@.contains_key(k) ==> scene_uses_texture(
            *world,
            *lights,
            k,
            r.raw_vec.texture_reg@[k],
        ),
        r.scene_uniforms.root_id == r.root_id,
        r.scene_uniforms.light_id == r.light_id,
        r.scene_uniforms.surface_wh@ == seq![0u32, 0u32],
        r.scene_uniforms.renderer_type == 0,
        r.scene_uniforms.sampling_type == 0,
        r.scene_uniforms._pad0@ == seq![0u32, 0u32],
{
    let mut raw_vec = RawVec::new();
    let root_id = world.to_raw(&mut raw_vec) as u32;
    let ghost after_world = raw_vec;
    let light_id: i32 = match lights {
        Some(l) => {
            let lid = l.to_raw(&mut raw_vec);
            proof {
                lemma_primitive_frame(*world, after_world, raw_vec, 0);
            }
            lid as i32
        },
        None => -1,
    };
    let ghost after_lights = raw_vec;
    if raw_vec.tex_data.len() == 0 {
        raw_vec.tex_data.push(0);
        proof {
            lemma_wf_frame(after_lights, raw_vec);
            lemma_primitive_frame(*world, after_lights, raw_vec, 0);
            match lights {
                Some(l) => lemma_primitive_frame(*l, after_lights, raw_vec, light_id as int),
                None => {},
            }
        }
    }
    let scene_uniforms = SceneUniforms::from_scene(root_id, light_id);
    SceneTables { raw_vec, root_id, light_id, scene_uniforms }
}


/// The bytes of the buffer that accumulates the samples of a `width` by `height` image:
/// sixteen per pixel.
pub fn accum_buffer_size(width: u32, height: u32) -> (r: u64)
    requires
        width * height * 16 <= u32::MAX,
    ensures
        r == width * height * 16,
{
    (width * height * 16) as u64
}

} // verus!
