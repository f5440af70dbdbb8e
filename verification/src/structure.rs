//! The data that the renderer hands to the GPU, and the render settings.
use crate::material::{lemma_material_frame, lemma_wf_frame, Material, MaterialRef};
use crate::texture::{lemma_data_len_le_budget, lemma_texture_frame, Texture, TextureRef};
use crate::scene::SceneEnum;
use std::collections::HashMap;
use vstd::prelude::*;

verus! {

/// Whether the application is showing the configuration menu or rendering.
#[derive(PartialEq, Eq, Structural, Clone, Copy, Debug)]
pub enum RenderStatus {
    Config,
    Render,
}

/// Which GPU rendering algorithm is used.
#[derive(PartialEq, Eq, Structural, Clone, Copy, Debug)]
pub enum RendererType {
    PT,
    WFPT,
}

/// Which sampling strategy the path tracer uses.
#[derive(PartialEq, Eq, Structural, Clone, Copy, Debug)]
pub enum SamplingStrategy {
    BSDF,
    Light,
    MIS,
}

impl RendererType {
    /// The number the shader reads for this renderer (its declaration index).
    pub open spec fn spec_code(self) -> u32 {
        match self {
            RendererType::PT => 0,
            RendererType::WFPT => 1,
        }
    }

    pub fn code(self) -> (r: u32)
        ensures
            r == self.spec_code(),
    {
        match self {
            RendererType::PT => 0,
            RendererType::WFPT => 1,
        }
    }
}

impl SamplingStrategy {
    /// The number the shader reads for this strategy (its declaration index).
    pub open spec fn spec_code(self) -> u32 {
        match self {
            SamplingStrategy::BSDF => 0,
            SamplingStrategy::Light => 1,
            SamplingStrategy::MIS => 2,
        }
    }

    pub fn code(self) -> (r: u32)
        ensures
            r == self.spec_code(),
    {
        match self {
            SamplingStrategy::BSDF => 0,
            SamplingStrategy::Light => 1,
            SamplingStrategy::MIS => 2,
        }
    }
}

/// The uniform block that tells the shader about the scene and the render settings.
#[derive(Clone, Copy, Debug)]
pub struct SceneUniforms {
    pub surface_wh: [u32; 2],
    pub root_id: u32,
    pub light_id: i32,
    pub renderer_type: u32,
    pub sampling_type: u32,
    pub _pad0: [u32; 2],
}

impl SceneUniforms {
    /// Uniforms for a scene whose tree starts at `root_id` and whose lights start at
    /// `light_id` (-1: no lights); the surface size and the settings are still zero.
    pub fn from_scene(root_id: u32, light_id: i32) -> (r: Self)
        ensures
            r.surface_wh@ == seq![0u32, 0u32],
            r.root_id == root_id,
            r.light_id == light_id,
            r.renderer_type == 0,
            r.sampling_type == 0,
            r._pad0@ == seq![0u32, 0u32],
    {
        let r = Self {
            surface_wh: [0, 0],
            root_id,
            light_id,
            renderer_type: 0,
            sampling_type: 0,
            _pad0: [0;2],
        };
        assert(r.surface_wh@ =~= seq![0u32, 0u32]);
        assert(r._pad0@ =~= seq![0u32, 0u32]);
        r
    }
}

/// The mouse buttons the window reports.
#[derive(PartialEq, Eq, Structural, Clone, Copy, Debug)]
pub enum MouseButton {
    Left,
    Right,
    Middle,
    Back,
    Forward,
    Other(u16),
}

/// A pointer position; both coordinates are single-precision bit patterns.
#[derive(PartialEq, Eq, Structural, Clone, Copy, Debug)]
pub struct MousePos {
    pub x: u32,
    pub y: u32,
}

/// What the configuration menu chose.
#[derive(Clone, Copy, Debug)]
pub struct SceneConfig {
    pub scene_enum: SceneEnum,
    pub renderer_type: RendererType,
    pub sampling_type: SamplingStrategy,
    /// Samples per pixel; 0 keeps the scene's own number.
    pub samples_per_pixel: u32,
}

impl SceneConfig {
    /// The Cornell box, path tracing, sampling by the material, the scene's own samples.
    pub fn new() -> (r: Self)
        ensures
            r.scene_enum == SceneEnum::CornellBox,
            r.renderer_type == RendererType::PT,
            r.sampling_type == SamplingStrategy::BSDF,
            r.samples_per_pixel == 0,
    {
        Self {
            scene_enum: SceneEnum::CornellBox,
            renderer_type: RendererType::PT,
            sampling_type: SamplingStrategy::BSDF,
            samples_per_pixel: 0,
        }
    }
}

/// The state of the render loop between frames (the clock that times it lives with the
/// window).
#[derive(Clone, Copy, Debug)]
pub struct RenderData {
    pub frame_id: u32,
    pub update_config: bool,
    pub render_status: RenderStatus,
    pub scene_config: SceneConfig,
    pub mouse_pressed: bool,
    pub mouse_key: MouseButton,
    pub mouse_prev_pos: Option<MousePos>,
    pub image_dirty: bool,
    pub download_image: bool,
}

impl RenderData {
    /// The state at start-up: the configuration menu, with nothing pressed or pending.
    pub fn new() -> (r: Self)
        ensures
            r.frame_id == 0,
            !r.update_config,
            r.render_status == RenderStatus::Config,
            r.scene_config.scene_enum == SceneEnum::CornellBox,
            r.scene_config.renderer_type == RendererType::PT,
            r.scene_config.sampling_type == SamplingStrategy::BSDF,
            r.scene_config.samples_per_pixel == 0,
            !r.mouse_pressed,
            r.mouse_key == MouseButton::Left,
            r.mouse_prev_pos is None,
            !r.image_dirty,
            !r.download_image,
    {
        Self {
            frame_id: 0,
            update_config: false,
            render_status: RenderStatus::Config,
            scene_config: SceneConfig::new(),
            mouse_pressed: false,
            mouse_key: MouseButton::Left,
            mouse_prev_pos: None,
            image_dirty: false,
            download_image: false,
        }
    }

    /// The state of `old` after a reset: the frame count restarts, the pending
    /// configuration is done and the mouse is released; the rest stays.
    pub open spec fn spec_reset(old: RenderData) -> RenderData {
        RenderData {
            frame_id: 0,
            update_config: false,
            mouse_pressed: false,
            mouse_prev_pos: None,
            ..old
        }
    }

    /// Starts the frame count again and releases the mouse (the render clock is reset by
    /// its owner).
    pub fn reset(&mut self)
        ensures
            *final(self) == RenderData::spec_reset(*old(self)),
    {
        self.frame_id = 0;
        self.update_config = false;
        self.mouse_pressed = false;
        self.mouse_prev_pos = None;
    }
}

impl SceneUniforms {
    /// Takes the surface size and the chosen renderer and sampling strategy.
    pub fn update(&mut self, width: u32, height: u32, rd: &RenderData)
        ensures
            final(self).surface_wh@ == seq![width, height],
            final(self).renderer_type == rd.scene_config.renderer_type.spec_code(),
            final(self).sampling_type == rd.scene_config.sampling_type.spec_code(),
            final(self).root_id == old(self).root_id,
            final(self).light_id == old(self).light_id,
            final(self)._pad0 == old(self)._pad0,
    {
        self.surface_wh = [width, height];
        self.renderer_type = rd.scene_config.renderer_type.code();
        self.sampling_type = rd.scene_config.sampling_type.code();
        assert(self.surface_wh@ =~= seq![width, height]);
    }
}

/// Three 32-bit patterns of single-precision numbers (a point or a direction).
#[derive(PartialEq, Eq, Structural, Clone, Copy, Debug)]
pub struct Bits3 {
    pub x: u32,
    pub y: u32,
    pub z: u32,
}

/// Four 32-bit patterns of single-precision numbers, as one `vec4` of the shader.
#[derive(PartialEq, Eq, Structural, Clone, Copy, Debug)]
pub struct Bits4 {
    pub x: u32,
    pub y: u32,
    pub z: u32,
    pub w: u32,
}

impl Bits4 {
    pub open spec fn spec_zero() -> Bits4 {
        Bits4 { x: 0, y: 0, z: 0, w: 0 }
    }

    pub fn zero() -> (r: Bits4)
        ensures
            r == Bits4::spec_zero(),
    {
        Bits4 { x: 0, y: 0, z: 0, w: 0 }
    }
}

/// A closed range `[min, max]` of one axis; both ends are single-precision bit patterns.
#[derive(PartialEq, Eq, Structural, Clone, Copy, Debug)]
pub struct Interval {
    pub min: u32,
    pub max: u32,
}

/// The bit pattern of the largest finite single-precision number.
pub const SINGLE_MAX_BITS: u32 = 0x7f7f_ffff;

/// The bit pattern of the lowest finite single-precision number.
pub const SINGLE_MIN_BITS: u32 = 0xff7f_ffff;

impl Interval {
    /// The empty interval: it starts at the largest number and ends at the lowest one.
    pub fn empty() -> (r: Self)
        ensures
            r.min == SINGLE_MAX_BITS,
            r.max == SINGLE_MIN_BITS,
    {
        Interval { min: SINGLE_MAX_BITS, max: SINGLE_MIN_BITS }
    }
}

/// An axis-aligned bounding box.
#[derive(PartialEq, Eq, Structural, Clone, Copy, Debug)]
pub struct AABB {
    pub x: Interval,
    pub y: Interval,
    pub z: Interval,
}

impl AABB {
    /// The box that holds nothing: every axis is the empty interval.
    pub open spec fn spec_empty() -> AABB {
        let e = Interval { min: SINGLE_MAX_BITS, max: SINGLE_MIN_BITS };
        AABB { x: e, y: e, z: e }
    }

    pub fn empty() -> (r: Self)
        ensures
            r == AABB::spec_empty(),
    {
        AABB { x: Interval::empty(), y: Interval::empty(), z: Interval::empty() }
    }

    /// The interval of axis 1 (y) or 2 (z); every other number selects x.
    pub open spec fn spec_axis_interval(self, axis: u32) -> Interval {
        if axis == 1 {
            self.y
        } else if axis == 2 {
            self.z
        } else {
            self.x
        }
    }

    pub fn axis_interval(self, axis: u32) -> (r: Interval)
        ensures
            r == self.spec_axis_interval(axis),
    {
        if axis == 1 {
            return self.y;
        } else if axis == 2 {
            return self.z;
        }
        return self.x;
    }
}

/// One node of the scene tree as the shader reads it.
#[derive(Clone, Copy, Debug)]
pub struct PrimitiveRaw {
    pub type_id: u32,
    pub mat_id: i32,
    pub left_child_id: i32,
    pub right_child_id: i32,
    pub next_elem_id: i32,
    pub aabb: AABB,
    pub _pad: u32,
    pub data0: Bits4,
    pub data1: Bits4,
    pub data2: Bits4,
    pub data3: Bits4,
    pub data4: Bits4,
}

/// One material as the shader reads it.
#[derive(Clone, Copy, Debug)]
pub struct MaterialRaw {
    pub type_id: u32,
    pub tex_id: i32,
    pub _pad0: [u32; 2],
    pub data0: Bits4,
}

/// One texture as the shader reads it; `start..end` indexes the texel data.
#[derive(Clone, Copy, Debug)]
pub struct TextureRaw {
    pub type_id: u32,
    pub start: u32,
    pub end: u32,
    pub _pad0: u32,
    pub data0: Bits4,
}

/// The flat tables that the scene is written into for the GPU, with the indexes
/// that make every shared material and texture appear once.
pub struct RawVec {
    pub primitives: Vec<PrimitiveRaw>,
    pub materials: Vec<MaterialRaw>,
    pub textures: Vec<TextureRaw>,
    pub tex_data: Vec<u32>,
    /// Where the material of each identity key was written.
    pub materials_hash: HashMap<u64, usize>,
    /// Where the texture of each identity key was written.
    pub textures_hash: HashMap<u64, usize>,
    /// The material that was registered under each key.
    pub material_reg: Ghost<Map<u64, Material>>,
    /// The texture that was registered under each key.
    pub texture_reg: Ghost<Map<u64, Texture>>,
    /// The texture keys in the order they were registered.
    pub texture_order: Ghost<Seq<u64>>,
}

/// The texture records that the textures registered under `order` (in `reg`) add.
pub open spec fn record_total(order: Seq<u64>, reg: Map<u64, Texture>) -> nat
    decreases order.len(),
{
    if order.len() == 0 {
        0
    } else {
        record_total(order.drop_last(), reg) + reg[order.last()].count()
    }
}

/// The texel words that the textures registered under `order` (in `reg`) add.
pub open spec fn texel_total(order: Seq<u64>, reg: Map<u64, Texture>) -> nat
    decreases order.len(),
{
    if order.len() == 0 {
        0
    } else {
        texel_total(order.drop_last(), reg) + reg[order.last()].data_len()
    }
}

/// Registering a key that `order` does not hold leaves the totals over `order` alone.
proof fn lemma_totals_insert(order: Seq<u64>, reg: Map<u64, Texture>, key: u64, t: Texture)
    requires
        !order.contains(key),
    ensures
        record_total(order, reg.insert(key, t)) == record_total(order, reg),
        texel_total(order, reg.insert(key, t)) == texel_total(order, reg),
    decreases order.len(),
{
    if order.len() > 0 {
        assert(!order.drop_last().contains(key)) by {
            if order.drop_last().contains(key) {
                let j = choose|j: int| 0 <= j < order.drop_last().len() && order.drop_last()[j] == key;
                assert(order[j] == key);
            }
        }
        assert(order.last() != key) by {
            assert(order[order.len() - 1] == order.last());
        }
        lemma_totals_insert(order.drop_last(), reg, key, t);
    }
}

impl RawVec {
    /// Every registered key points at the place where its material or texture was written.
    pub open spec fn wf(&self) -> bool {
        &&& self.materials_hash@.dom() == self.material_reg@.dom()
        &&& self.textures_hash@.dom() == self.texture_reg@.dom()
        &&& forall|k: u64| #[trigger]
            self.material_reg@.contains_key(k) ==> self.material_reg@[k].material_at(
                *self,
                self.materials_hash@[k] as int,
            )
        &&& forall|k: u64| #[trigger]
            self.texture_reg@.contains_key(k) ==> self.texture_reg@[k].texture_at(
                *self,
                self.textures_hash@[k] as int,
            )
    }

    /// Each material record was written for one registered key: the material table has
    /// as many records as keys are registered.
    pub open spec fn written_once(&self) -> bool {
        &&& self.material_reg@.dom().finite()
        &&& self.materials@.len() == self.material_reg@.dom().len()
    }

    /// The texture tables hold exactly what the registered textures wrote: their records
    /// and their texels, each registered key once.
    pub open spec fn textures_exact(&self) -> bool {
        &&& forall|k: u64| self.texture_reg@.contains_key(k) <==> self.texture_order@.contains(k)
        &&& self.texture_order@.no_duplicates()
        &&& self.textures@.len() == record_total(self.texture_order@, self.texture_reg@)
        &&& self.tex_data@.len() == texel_total(self.texture_order@, self.texture_reg@)
    }

    /// `self` holds everything `old` held: the material, texture and texel tables only grew,
    /// and every registration of `old` is still there, at the same index.
    pub open spec fn extends(&self, old: RawVec) -> bool {
        &&& old.materials@.len() <= self.materials@.len()
        &&& forall|i: int| 0 <= i < old.materials@.len() ==> #[trigger] self.materials@[i] == old.materials@[i]
        &&& old.textures@.len() <= self.textures@.len()
        &&& forall|i: int| 0 <= i < old.textures@.len() ==> #[trigger] self.textures@[i] == old.textures@[i]
        &&& old.tex_data@.len() <= self.tex_data@.len()
        &&& forall|i: int| 0 <= i < old.tex_data@.len() ==> #[trigger] self.tex_data@[i] == old.tex_data@[i]
        &&& old.material_reg@ <= self.material_reg@
        &&& old.texture_reg@ <= self.texture_reg@
        &&& old.materials_hash@ <= self.materials_hash@
        &&& old.textures_hash@ <= self.textures_hash@
    }

    /// Empty tables with nothing registered.
    pub fn new() -> (r: Self)
        ensures
            r.wf(),
            r.primitives@.len() == 0,
            r.materials@.len() == 0,
            r.textures@.len() == 0,
            r.tex_data@.len() == 0,
            r.material_reg@ == Map::<u64, Material>::empty(),
            r.texture_reg@ == Map::<u64, Texture>::empty(),
            r.written_once(),
            r.textures_exact(),
    {
        Self {
            primitives: Vec::new(),
            materials: Vec::new(),
            textures: Vec::new(),
            tex_data: Vec::new(),
            materials_hash: HashMap::new(),
            textures_hash: HashMap::new(),
            material_reg: Ghost(Map::empty()),
            texture_reg: Ghost(Map::empty()),
            texture_order: Ghost(Seq::empty()),
        }
    }

    /// Writes the texture of `tex` unless its key was registered before, and returns the
    /// index where the texture registered under that key is stored.
    pub fn register_texture(&mut self, tex: &TextureRef) -> (id: usize)
        requires
            old(self).wf(),
            !old(self).texture_reg@.contains_key(tex.key) ==> old(self).textures@.len()
                + tex@.count() <= i32::MAX,
            !old(self).texture_reg@.contains_key(tex.key) ==> old(self).tex_data@.len()
                + tex@.data_budget() <= u32::MAX,
        ensures
            final(self).wf(),
            final(self).extends(*old(self)),
            final(self).texture_reg@ == (if old(self).texture_reg@.contains_key(tex.key) {
                old(self).texture_reg@
            } else {
                old(self).texture_reg@.insert(tex.key, tex@)
            }),
            final(self).texture_reg@[tex.key].texture_at(*final(self), id as int),
            final(self).textures_hash@.contains_key(tex.key),
            final(self).textures_hash@[tex.key] == id,
            old(self).texture_reg@.contains_key(tex.key) ==> *final(self) == *old(self) && id
                == old(self).textures_hash@[tex.key],
            old(self).textures_exact() ==> final(self).textures_exact(),
            !old(self).texture_reg@.contains_key(tex.key) ==> {
                &&& id == old(self).textures@.len() + tex@.count() - 1
                &&& final(self).textures@.len() == old(self).textures@.len() + tex@.count()
                &&& final(self).tex_data@.len() == old(self).tex_data@.len() + tex@.data_len()
            },
            final(self).textures@.len() <= old(self).textures@.len() + tex@.count(),
            final(self).tex_data@.len() <= old(self).tex_data@.len() + tex@.data_budget(),
            final(self).primitives@ == old(self).primitives@,
            final(self).materials@ == old(self).materials@,
            final(self).materials_hash@ == old(self).materials_hash@,
            final(self).material_reg@ == old(self).material_reg@,
    {
        broadcast use vstd::std_specs::hash::group_hash_axioms;

        if let Some(id) = self.textures_hash.get(&tex.key) {
            return *id;
        }
        let ghost before = *self;
        proof {
            lemma_data_len_le_budget(tex@);
        }
        let tex_id = tex.tex.to_raw(self);
        proof {
            lemma_wf_frame(before, *self);
        }
        let ghost mid = *self;
        self.textures_hash.insert(tex.key, tex_id);
        proof {
            if before.textures_exact() {
                lemma_totals_insert(before.texture_order@, before.texture_reg@, tex.key, tex@);
                let o = before.texture_order@.push(tex.key);
                assert(o.drop_last() =~= before.texture_order@);
                assert(o.last() == tex.key);
            }
            self.texture_reg@ = self.texture_reg@.insert(tex.key, tex@);
            self.texture_order@ = self.texture_order@.push(tex.key);
            if before.textures_exact() {
                assert forall|k: u64| self.texture_reg@.contains_key(k) <==> self.texture_order@.contains(k) by {
                    if k == tex.key {
                        assert(self.texture_order@[self.texture_order@.len() - 1] == k);
                    } else if before.texture_order@.contains(k) {
                        let j = choose|j: int| 0 <= j < before.texture_order@.len() && before.texture_order@[j] == k;
                        assert(self.texture_order@[j] == k);
                    } else if self.texture_order@.contains(k) {
                        let j = choose|j: int| 0 <= j < self.texture_order@.len() && self.texture_order@[j] == k;
                        assert(before.texture_order@[j] == k);
                    }
                }
                assert forall|i: int, j: int|
                    0 <= i < self.texture_order@.len() && 0 <= j < self.texture_order@.len() && i != j
                        implies self.texture_order@[i] != self.texture_order@[j] by {
                    let n = before.texture_order@.len() as int;
                    if i < n && j < n {
                        assert(before.texture_order@[i] != before.texture_order@[j]);
                    } else if i == n {
                        assert(before.texture_order@[j] == self.texture_order@[j]);
                        assert(!before.texture_order@.contains(tex.key));
                    } else {
                        assert(before.texture_order@[i] == self.texture_order@[i]);
                        assert(!before.texture_order@.contains(tex.key));
                    }
                }
            }
        }
        let ghost after = *self;
        proof {
            assert forall|k: u64| #[trigger] after.material_reg@.contains_key(k) implies after.material_reg@[k].material_at(
                after,
                after.materials_hash@[k] as int,
            ) by {
                lemma_material_frame(mid.material_reg@[k], mid, after, mid.materials_hash@[k] as int);
            }
            assert forall|k: u64| #[trigger] after.texture_reg@.contains_key(k) implies after.texture_reg@[k].texture_at(
                after,
                after.textures_hash@[k] as int,
            ) by {
                if k != tex.key {
                    lemma_texture_frame(mid.texture_reg@[k], mid, after, mid.textures_hash@[k] as int);
                } else {
                    lemma_texture_frame(tex@, mid, after, tex_id as int);
                }
            }
            assert(after.texture_reg@.contains_key(tex.key));
        }
        tex_id
    }
    /// Writes the material of `mat` unless its key was registered before, and returns the
    /// index where the material registered under that key is stored.
    pub fn register_material(&mut self, mat: &MaterialRef) -> (id: usize)
        requires
            old(self).wf(),
            !old(self).material_reg@.contains_key(mat.key) ==> old(self).materials@.len() < i32::MAX,
            !old(self).material_reg@.contains_key(mat.key) ==> old(self).textures@.len()
                + mat@.tex_count() <= i32::MAX,
            !old(self).material_reg@.contains_key(mat.key) ==> old(self).tex_data@.len()
                + mat@.data_budget() <= u32::MAX,
        ensures
            final(self).wf(),
            final(self).extends(*old(self)),
            final(self).material_reg@ == (if old(self).material_reg@.contains_key(mat.key) {
                old(self).material_reg@
            } else {
                old(self).material_reg@.insert(mat.key, mat@)
            }),
            final(self).material_reg@[mat.key].material_at(*final(self), id as int),
            final(self).materials_hash@.contains_key(mat.key),
            final(self).materials_hash@[mat.key] == id,
            old(self).material_reg@.contains_key(mat.key) ==> *final(self) == *old(self) && id
                == old(self).materials_hash@[mat.key],
            forall|k: u64| #[trigger]
                final(self).texture_reg@.contains_key(k) && !old(self).texture_reg@.contains_key(k)
                    ==> mat@.uses_texture(k, final(self).texture_reg@[k]),
            !old(self).material_reg@.contains_key(mat.key) ==> {
                &&& id == old(self).materials@.len()
                &&& final(self).materials@.len() == old(self).materials@.len() + 1
            },
            old(self).written_once() ==> final(self).written_once(),
            old(self).textures_exact() ==> final(self).textures_exact(),
            final(self).materials@.len() <= old(self).materials@.len() + 1,
            final(self).textures@.len() <= old(self).textures@.len() + mat@.tex_count(),
            final(self).tex_data@.len() <= old(self).tex_data@.len() + mat@.data_budget(),
            final(self).primitives@ == old(self).primitives@,
    {
        broadcast use vstd::std_specs::hash::group_hash_axioms;

        if let Some(id) = self.materials_hash.get(&mat.key) {
            return *id;
        }
        let mat_id = mat.mat.to_raw(self);
        let ghost mid = *self;
        self.materials_hash.insert(mat.key, mat_id);
        proof {
            self.material_reg@ = self.material_reg@.insert(mat.key, mat@);
        }
        let ghost after = *self;
        proof {
            assert forall|k: u64| #[trigger] after.material_reg@.contains_key(k) implies after.material_reg@[k].material_at(
                after,
                after.materials_hash@[k] as int,
            ) by {
                if k != mat.key {
                    lemma_material_frame(mid.material_reg@[k], mid, after, mid.materials_hash@[k] as int);
                } else {
                    lemma_material_frame(mat@, mid, after, mat_id as int);
                }
            }
            assert forall|k: u64| #[trigger] after.texture_reg@.contains_key(k) implies after.texture_reg@[k].texture_at(
                after,
                after.textures_hash@[k] as int,
            ) by {
                lemma_texture_frame(mid.texture_reg@[k], mid, after, mid.textures_hash@[k] as int);
            }
            assert(after.material_reg@.contains_key(mat.key));
        }
        mat_id
    }
}

/// The shader tells the renderers and the sampling strategies apart by number: path
/// tracing is 0 and wavefront path tracing 1; sampling by the material is 0, by the
/// lights 1 and by both (multiple importance) 2. Different choices never share a number.
pub proof fn law_setting_codes()
    ensures
        RendererType::PT.spec_code() == 0,
        RendererType::WFPT.spec_code() == 1,
        SamplingStrategy::BSDF.spec_code() == 0,
        SamplingStrategy::Light.spec_code() == 1,
        SamplingStrategy::MIS.spec_code() == 2,
        forall|a: RendererType, b: RendererType| a.spec_code() == b.spec_code() ==> a == b,
        forall|a: SamplingStrategy, b: SamplingStrategy| a.spec_code() == b.spec_code() ==> a == b,
{
    assert forall|a: SamplingStrategy, b: SamplingStrategy| a.spec_code() == b.spec_code() implies a == b by {
        match a {
            SamplingStrategy::BSDF => {},
            SamplingStrategy::Light => {},
            SamplingStrategy::MIS => {},
        }
        match b {
            SamplingStrategy::BSDF => {},
            SamplingStrategy::Light => {},
            SamplingStrategy::MIS => {},
        }
    }
    assert forall|a: RendererType, b: RendererType| a.spec_code() == b.spec_code() implies a == b by {
        match a {
            RendererType::PT => {},
            RendererType::WFPT => {},
        }
        match b {
            RendererType::PT => {},
            RendererType::WFPT => {},
        }
    }
}

/// The uniforms that the shader reads take the surface size and the settings chosen in
/// the menu: choosing light sampling makes the shader read 1, multiple importance 2.
pub proof fn law_uniforms_follow_the_menu(after: SceneUniforms, width: u32, height: u32, rd: RenderData)
    requires
        after.surface_wh@ == seq![width, height],
        after.renderer_type == rd.scene_config.renderer_type.spec_code(),
        after.sampling_type == rd.scene_config.sampling_type.spec_code(),
    ensures
        after.surface_wh[0] == width && after.surface_wh[1] == height,
        after.renderer_type == (if rd.scene_config.renderer_type == RendererType::PT { 0u32 } else { 1u32 }),
        after.sampling_type == (match rd.scene_config.sampling_type {
            SamplingStrategy::BSDF => 0u32,
            SamplingStrategy::Light => 1u32,
            SamplingStrategy::MIS => 2u32,
        }),
{
    law_setting_codes();
    assert(after.surface_wh@[0] == width && after.surface_wh@[1] == height);
}

} // verus!
