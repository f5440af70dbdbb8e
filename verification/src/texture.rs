//! Textures and how they are written into the texture tables.
use crate::bits::{encodes_whole, round_to_single, single_bits};
use crate::structure::{Bits3, Bits4, RawVec, TextureRaw};
use crate::utils::{share_rc, KeySource};
use std::rc::Rc;
use vstd::prelude::*;

verus! {

/// A texture of one colour.
pub struct SolidColor {
    pub albedo: Bits3,
}

/// A 3D checker pattern of two textures.
pub struct CheckerTexture {
    pub inv_scale: u32,
    pub even: Box<Texture>,
    pub odd: Box<Texture>,
}

/// A decoded image: `pixels` holds four channel patterns (red, green, blue, alpha)
/// per pixel, row by row.
pub struct ImageTexture {
    pub width: u32,
    pub height: u32,
    pub pixels: Vec<u32>,
}

/// Every kind of texture.
pub enum Texture {
    SolidColor(SolidColor),
    CheckerTexture(CheckerTexture),
    ImageTexture(ImageTexture),
}

/// A shared texture: every copy of a reference carries the same identity `key`, and the
/// texture is written into the tables once per key.
pub struct TextureRef {
    pub key: u64,
    pub tex: Rc<Texture>,
}

impl View for TextureRef {
    type V = Texture;

    /// The shared texture itself.
    open spec fn view(&self) -> Texture {
        *self.tex
    }
}

impl Texture {
    /// The number of texture records that writing this texture adds.
    pub open spec fn count(self) -> nat
        decreases self,
    {
        match self {
            Texture::CheckerTexture(c) => 1 + c.even.count() + c.odd.count(),
            _ => 1,
        }
    }

    /// The number of texel words that writing this texture adds.
    pub open spec fn data_len(self) -> nat
        decreases self,
    {
        match self {
            Texture::CheckerTexture(c) => c.even.data_len() + c.odd.data_len(),
            Texture::ImageTexture(im) => im.pixels@.len(),
            _ => 0,
        }
    }

    /// An upper bound of the texel offsets that writing this texture computes: for an image,
    /// the larger of its texel count and its pixel count (the offset of its record's end).
    pub open spec fn data_budget(self) -> nat
        decreases self,
    {
        match self {
            Texture::CheckerTexture(c) => c.even.data_budget() + c.odd.data_budget(),
            Texture::ImageTexture(im) => {
                let area = (im.width as nat) * (im.height as nat);
                if im.pixels@.len() >= area {
                    im.pixels@.len()
                } else {
                    area
                }
            },
            _ => 0,
        }
    }

    /// The texture tables of `rv` hold this texture at index `id`: its record, and for a
    /// checker its two halves right before it (the even half first), for an image its
    /// texels at `start`.
    pub open spec fn texture_at(self, rv: RawVec, id: int) -> bool
        decreases self,
    {
        &&& 0 <= id < rv.textures@.len()
        &&& rv.textures@[id]._pad0 == 0
        &&& match self {
            Texture::SolidColor(c) => {
                let r = rv.textures@[id];
                &&& r.type_id == 0
                &&& r.end == r.start
                &&& r.data0 == Bits4 { x: c.albedo.x, y: c.albedo.y, z: c.albedo.z, w: 0 }
            },
            Texture::CheckerTexture(c) => {
                let r = rv.textures@[id];
                let o = id - 1;
                let e = o - c.odd.count();
                &&& r.type_id == 1
                &&& r.end == r.start
                &&& encodes_whole(r.data0.x, round_to_single(e as nat))
                &&& encodes_whole(r.data0.y, round_to_single(o as nat))
                &&& r.data0.z == c.inv_scale
                &&& r.data0.w == 0
                &&& c.even.texture_at(rv, e)
                &&& c.odd.texture_at(rv, o)
            },
            Texture::ImageTexture(im) => {
                let r = rv.textures@[id];
                let s = r.start as int;
                &&& r.type_id == 2
                &&& r.end == s + im.width * im.height
                &&& encodes_whole(r.data0.x, round_to_single(im.width as nat))
                &&& encodes_whole(r.data0.y, round_to_single(im.height as nat))
                &&& r.data0.z == 0
                &&& r.data0.w == 0
                &&& s + im.pixels@.len() <= rv.tex_data@.len()
                &&& rv.tex_data@.subrange(s, s + im.pixels@.len()) == im.pixels@
            },
        }
    }

    /// Writes this texture (and, for a checker, its halves first) into the tables and
    /// returns the index of its own record.
    pub fn to_raw(&self, rv: &mut RawVec) -> (id: usize)
        requires
            old(rv).textures@.len() + self.count() <= i32::MAX,
            old(rv).tex_data@.len() + self.data_budget() <= u32::MAX,
        ensures
            id == old(rv).textures@.len() + self.count() - 1,
            final(rv).textures@.len() == old(rv).textures@.len() + self.count(),
            final(rv).tex_data@.len() == old(rv).tex_data@.len() + self.data_len(),
            final(rv).extends(*old(rv)),
            final(rv).primitives@ == old(rv).primitives@,
            final(rv).materials@ == old(rv).materials@,
            final(rv).materials_hash@ == old(rv).materials_hash@,
            final(rv).textures_hash@ == old(rv).textures_hash@,
            final(rv).material_reg@ == old(rv).material_reg@,
            final(rv).texture_reg@ == old(rv).texture_reg@,
            final(rv).texture_order@ == old(rv).texture_order@,
            self.texture_at(*final(rv), id as int),
            match self {
                Texture::ImageTexture(im) => {
                    &&& final(rv).textures@[id as int].start == old(rv).tex_data@.len()
                    &&& final(rv).tex_data@ == old(rv).tex_data@ + im.pixels@
                },
                _ => final(rv).textures@[id as int].start == final(rv).tex_data@.len(),
            },
        decreases self,
    {
        proof {
            lemma_data_len_le_budget(*self);
        }
        match self {
            Texture::SolidColor(c) => {
                let data_start = rv.tex_data.len() as u32;
                let this_raw = TextureRaw {
                    type_id: 0,
                    start: data_start,
                    end: data_start,
                    _pad0: 0,
                    data0: Bits4 { x: c.albedo.x, y: c.albedo.y, z: c.albedo.z, w: 0 },
                };
                let id = rv.textures.len();
                rv.textures.push(this_raw);
                id
            },
            Texture::CheckerTexture(c) => {
                proof {
                    lemma_data_len_le_budget(*c.even);
                }
                let even_id = c.even.to_raw(rv);
                let ghost mid = *rv;
                let odd_id = c.odd.to_raw(rv);
                proof {
                    lemma_texture_frame(*c.even, mid, *rv, even_id as int);
                }
                let data_start = rv.tex_data.len() as u32;
                let this_raw = TextureRaw {
                    type_id: 1,
                    start: data_start,
                    end: data_start,
                    _pad0: 0,
                    data0: Bits4 {
                        x: single_bits(even_id as u32),
                        y: single_bits(odd_id as u32),
                        z: c.inv_scale,
                        w: 0,
                    },
                };
                let ghost before = *rv;
                let id = rv.textures.len();
                rv.textures.push(this_raw);
                proof {
                    assert(rv.textures@.subrange(0, before.textures@.len() as int) =~= before.textures@);
                    lemma_push_texture_extends(before, *rv);
                    lemma_texture_frame(*c.even, before, *rv, even_id as int);
                    lemma_texture_frame(*c.odd, before, *rv, odd_id as int);
                }
                id
            },
            Texture::ImageTexture(im) => {
                let data_start = rv.tex_data.len() as u32;
                let data_end = data_start + im.width * im.height;
                let ghost before = *rv;
                let mut i: usize = 0;
                while i < im.pixels.len()
                    invariant
                        0 <= i <= im.pixels@.len(),
                        rv.tex_data@.len() == before.tex_data@.len() + i,
                        rv.tex_data@.subrange(0, before.tex_data@.len() as int) == before.tex_data@,
                        rv.tex_data@.subrange(before.tex_data@.len() as int, rv.tex_data@.len() as int)
                            == im.pixels@.subrange(0, i as int),
                        rv.textures@ == before.textures@,
                        rv.primitives@ == before.primitives@,
                        rv.materials@ == before.materials@,
                        rv.materials_hash@ == before.materials_hash@,
                        rv.textures_hash@ == before.textures_hash@,
                        rv.material_reg == before.material_reg,
                        rv.texture_reg == before.texture_reg,
                        rv.texture_order == before.texture_order,
                    decreases im.pixels@.len() - i,
                {
                    let ghost prev = rv.tex_data@;
                    rv.tex_data.push(im.pixels[i]);
                    i = i + 1;
                    assert(rv.tex_data@.subrange(0, before.tex_data@.len() as int) =~= prev.subrange(
                        0,
                        before.tex_data@.len() as int,
                    ));
                    assert(rv.tex_data@.subrange(before.tex_data@.len() as int, rv.tex_data@.len() as int)
                        =~= im.pixels@.subrange(0, i as int));
                }
                assert(im.pixels@.subrange(0, im.pixels@.len() as int) =~= im.pixels@);
                assert(rv.tex_data@ =~= rv.tex_data@.subrange(0, before.tex_data@.len() as int)
                    + rv.tex_data@.subrange(before.tex_data@.len() as int, rv.tex_data@.len() as int));
                let this_raw = TextureRaw {
                    type_id: 2,
                    start: data_start,
                    end: data_end,
                    _pad0: 0,
                    data0: Bits4 { x: single_bits(im.width), y: single_bits(im.height), z: 0, w: 0 },
                };
                let id = rv.textures.len();
                rv.textures.push(this_raw);
                proof {
                    assert forall|j: int| 0 <= j < before.tex_data@.len() implies #[trigger] rv.tex_data@[j]
                        == before.tex_data@[j] by {
                        assert(rv.tex_data@.subrange(0, before.tex_data@.len() as int)[j]
                            == rv.tex_data@[j]);
                    }
                }
                id
            },
        }
    }
}

/// The texels a texture adds stay within its budget.
pub proof fn lemma_data_len_le_budget(t: Texture)
    ensures
        t.data_len() <= t.data_budget(),
    decreases t,
{
    match t {
        Texture::CheckerTexture(c) => {
            lemma_data_len_le_budget(*c.even);
            lemma_data_len_le_budget(*c.odd);
        },
        _ => {},
    }
}

/// Pushing one texture record keeps everything that was there.
proof fn lemma_push_texture_extends(a: RawVec, b: RawVec)
    requires
        b.textures@.len() == a.textures@.len() + 1,
        b.textures@.subrange(0, a.textures@.len() as int) == a.textures@,
        b.materials@ == a.materials@,
        b.tex_data@ == a.tex_data@,
        b.material_reg == a.material_reg,
        b.texture_reg == a.texture_reg,
        b.materials_hash@ == a.materials_hash@,
        b.textures_hash@ == a.textures_hash@,
    ensures
        b.extends(a),
{
    assert forall|i: int| 0 <= i < a.textures@.len() implies #[trigger] b.textures@[i] == a.textures@[i] by {
        assert(b.textures@.subrange(0, a.textures@.len() as int)[i] == b.textures@[i]);
    }
}

impl SolidColor {
    /// A texture of the colour `albedo`.
    pub fn new(albedo: Bits3) -> (r: Self)
        ensures
            r.albedo == albedo,
    {
        SolidColor { albedo }
    }
}

impl CheckerTexture {
    /// A checker of the colours `c1` (even cells) and `c2` (odd cells); `inv_scale` is the
    /// reciprocal of the cell size.
    pub fn from_colors(inv_scale: u32, c1: Bits3, c2: Bits3) -> (r: Self)
        ensures
            r.inv_scale == inv_scale,
            *r.even == Texture::SolidColor(SolidColor { albedo: c1 }),
            *r.odd == Texture::SolidColor(SolidColor { albedo: c2 }),
    {
        CheckerTexture {
            inv_scale,
            even: Box::new(Texture::SolidColor(SolidColor::new(c1))),
            odd: Box::new(Texture::SolidColor(SolidColor::new(c2))),
        }
    }
}

/// The picture that the `image` crate decodes from the file contents `bytes` (guessing
/// the format from them): its width, its height and its pixels row by row, four channel
/// values (red, green, blue, alpha) each as a single-precision pattern; nothing when it
/// cannot decode them.
pub uninterp spec fn decoded_rgba(bytes: Seq<u8>) -> Option<(u32, u32, Seq<u32>)>;

/// Decodes an image file with `image::load_from_memory`, reads its size with
/// `GenericImageView::dimensions` and its pixels with `DynamicImage::to_rgba32f` and
/// `ImageBuffer::into_raw`, each channel value turned into its bit pattern. The contract
/// claims only that the result is what the name `decoded_rgba` stands for.
#[verifier::external_body]
fn decode_rgba(bytes: &[u8]) -> (r: Option<(u32, u32, Vec<u32>)>)
    ensures
        match decoded_rgba(bytes@) {
            Some((w, h, px)) => r matches Some((rw, rh, rpx)) && rw == w && rh == h && rpx@ == px,
            None => r is None,
        },
{
    match image::load_from_memory(bytes) {
        Ok(img) => {
            let (w, h) = image::GenericImageView::dimensions(&img);
            let px: Vec<u32> = img.to_rgba32f().into_raw().into_iter().map(|v| v.to_bits()).collect();
            Some((w, h, px))
        },
        Err(_) => None,
    }
}

impl ImageTexture {
    /// The texture of the picture in the file contents `bytes`, which must decode.
    pub fn from_bytes(bytes: &[u8]) -> (r: Self)
        requires
            decoded_rgba(bytes@) is Some,
        ensures
            decoded_rgba(bytes@) == Some((r.width, r.height, r.pixels@)),
    {
        match decode_rgba(bytes) {
            Some((width, height, pixels)) => ImageTexture { width, height, pixels },
            None => {
                proof {
                    assert(false);
                }
                ImageTexture { width: 0, height: 0, pixels: Vec::new() }
            },
        }
    }

    /// The texture of the picture in the file contents `bytes`, or nothing when they do
    /// not decode.
    pub fn try_from_bytes(bytes: &[u8]) -> (r: Option<Self>)
        ensures
            match decoded_rgba(bytes@) {
                Some((w, h, px)) => r matches Some(t) && t.width == w && t.height == h && t.pixels@ == px,
                None => r is None,
            },
    {
        match decode_rgba(bytes) {
            Some(_) => Some(Self::from_bytes(bytes)),
            None => None,
        }
    }
}

impl TextureRef {
    /// Another reference to the same shared texture, under the same key.
    pub fn share(&self) -> (r: Self)
        ensures
            r.key == self.key,
            r@ == self@,
    {
        TextureRef { key: self.key, tex: share_rc(&self.tex) }
    }

    /// Shares `tex` under a new identity key.
    pub fn new(tex: Texture, keys: &mut KeySource) -> (r: Self)
        requires
            old(keys).next < u64::MAX,
        ensures
            r.key == old(keys).next,
            final(keys).next == old(keys).next + 1,
            r@ == tex,
    {
        let key = keys.fresh();
        TextureRef { key, tex: Rc::new(tex) }
    }
}

/// A texture written into some tables is still there after the tables grow.
pub proof fn lemma_texture_frame(t: Texture, a: RawVec, b: RawVec, id: int)
    requires
        t.texture_at(a, id),
        b.extends(a),
    ensures
        t.texture_at(b, id),
    decreases t,
{
    match t {
        Texture::CheckerTexture(c) => {
            let o = id - 1;
            let e = o - c.odd.count();
            lemma_texture_frame(*c.even, a, b, e);
            lemma_texture_frame(*c.odd, a, b, o);
        },
        Texture::ImageTexture(im) => {
            let s = a.textures@[id].start as int;
            assert(b.tex_data@.subrange(s, s + im.pixels@.len()) =~= a.tex_data@.subrange(
                s,
                s + im.pixels@.len(),
            ));
        },
        _ => {},
    }
}

} // verus!
