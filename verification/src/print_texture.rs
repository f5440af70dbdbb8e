//! The layout of the image copy that the GPU hands back, and the picture saved from it.
use vstd::arithmetic::div_mod::lemma_fundamental_div_mod_converse;
use vstd::prelude::*;

verus! {

/// Rows of a texture copy must start at multiples of this many bytes.
pub const ROW_ALIGNMENT: u32 = 256;

/// The bytes of a row of `width` four-byte pixels, rounded up to the row alignment.
pub open spec fn spec_padded_bytes_per_row(width: u32) -> int {
    ((width * 4 + 255) / 256) * 256
}

pub fn padded_bytes_per_row(width: u32) -> (r: u32)
    requires
        width * 4 + 255 <= u32::MAX,
    ensures
        r == spec_padded_bytes_per_row(width),
        r >= width * 4,
{
    let r = ((width * 4 + 255) / 256) * 256;
    proof {
        let a = width * 4 + 255;
        assert((a / 256) * 256 <= a && (a / 256) * 256 > a - 256) by (nonlinear_arith)
            requires
                a >= 0,
        ;
    }
    r
}

/// The bytes of the buffer that receives a copy of a `width` by `height` image.
pub fn staging_buffer_size(width: u32, height: u32) -> (r: u64)
    requires
        width * 4 + 255 <= u32::MAX,
        spec_padded_bytes_per_row(width) * height <= u32::MAX,
    ensures
        r == spec_padded_bytes_per_row(width) * height,
{
    let padded = padded_bytes_per_row(width);
    (padded * height) as u64
}

/// The GPU stores a pixel blue, green, red, alpha; a saved picture wants red, green,
/// blue, alpha: channels 0 and 2 trade places.
pub open spec fn swap_red_blue(c: int) -> int {
    if c == 0 {
        2
    } else if c == 2 {
        0
    } else {
        c
    }
}

/// Byte `i` of the picture saved from the copy `bytes` of a `width`-pixel-wide image whose
/// rows are `padded` bytes apart: the byte of the same pixel and channel in the copy, with
/// red and blue traded.
pub open spec fn picture_byte(bytes: Seq<u8>, width: int, padded: int, i: int) -> u8 {
    let row = i / (4 * width);
    let col = i % (4 * width);
    let c = col % 4;
    bytes[row * padded + (col - c) + swap_red_blue(c)]
}

proof fn lemma_picture_index(width: int, y: int, x: int, c: int)
    requires
        0 <= x < width,
        0 <= y,
        0 <= c < 4,
    ensures
        ((y * width + x) * 4 + c) / (4 * width) == y,
        ((y * width + x) * 4 + c) % (4 * width) == 4 * x + c,
        (4 * x + c) % 4 == c,
{
    assert((y * width + x) * 4 + c == y * (4 * width) + (4 * x + c)) by (nonlinear_arith);
    lemma_fundamental_div_mod_converse((y * width + x) * 4 + c, 4 * width, y, 4 * x + c);
    lemma_fundamental_div_mod_converse(4 * x + c, 4, x, c);
}

/// The picture saved from the copy `bytes` of a `width` by `height` image: the rows
/// without their padding, four bytes per pixel, red first.
pub open spec fn picture_of(bytes: Seq<u8>, width: u32, height: u32) -> Seq<u8> {
    Seq::new(
        (width * height * 4) as nat,
        |i: int| picture_byte(bytes, width as int, spec_padded_bytes_per_row(width), i),
    )
}

/// The PNG file that the `image` crate encodes from the 8-bit RGBA `picture` of `width`
/// by `height` pixels, row by row; nothing when it cannot encode it.
pub uninterp spec fn png_of(picture: Seq<u8>, width: u32, height: u32) -> Option<Seq<u8>>;

/// Encodes a picture with `image::ImageBuffer::from_raw` (an RGBA image of the given
/// size over the picture's bytes) and `ImageBuffer::write_to` with `ImageFormat::Png`
/// into memory. The contract claims only that the result is what the name `png_of`
/// stands for.
#[verifier::external_body]
fn encode_png(picture: &Vec<u8>, width: u32, height: u32) -> (r: Option<Vec<u8>>)
    ensures
        match png_of(picture@, width, height) {
            Some(b) => r matches Some(v) && v@ == b,
            None => r is None,
        },
{
    let img: image::RgbaImage = match image::ImageBuffer::from_raw(width, height, picture.clone()) {
        Some(img) => img,
        None => return None,
    };
    let mut png: Vec<u8> = Vec::new();
    match img.write_to(&mut std::io::Cursor::new(&mut png), image::ImageFormat::Png) {
        Ok(()) => Some(png),
        Err(_) => None,
    }
}

/// The PNG file of the picture saved from the copy `bytes` of a `width` by `height`
/// image, or nothing when the picture cannot be encoded.
pub fn picture_png(bytes: &Vec<u8>, width: u32, height: u32) -> (r: Option<Vec<u8>>)
    requires
        width * 4 + 255 <= u32::MAX,
        width * height * 4 <= u32::MAX,
        spec_padded_bytes_per_row(width) * height <= bytes@.len(),
        spec_padded_bytes_per_row(width) * height <= u32::MAX,
    ensures
        match png_of(picture_of(bytes@, width, height), width, height) {
            Some(b) => r matches Some(v) && v@ == b,
            None => r is None,
        },
{
    let pic = picture_from_copy(bytes, width, height);
    encode_png(&pic, width, height)
}

/// The picture saved from the copy `bytes` of a `width` by `height` image: the rows
/// without their padding, each pixel red first.
pub fn picture_from_copy(bytes: &Vec<u8>, width: u32, height: u32) -> (pic: Vec<u8>)
    requires
        width * 4 + 255 <= u32::MAX,
        width * height * 4 <= u32::MAX,
        spec_padded_bytes_per_row(width) * height <= bytes@.len(),
        spec_padded_bytes_per_row(width) * height <= u32::MAX,
    ensures
        pic@ == picture_of(bytes@, width, height),
        pic@.len() == width * height * 4,
        forall|i: int|
            0 <= i < pic@.len() ==> #[trigger] pic@[i] == picture_byte(
                bytes@,
                width as int,
                spec_padded_bytes_per_row(width),
                i,
            ),
{
    let padded = padded_bytes_per_row(width);
    let ghost w = width as int;
    let ghost pd = padded as int;
    let mut pic: Vec<u8> = Vec::new();
    let mut y: u32 = 0;
    while y < height
        invariant
            y <= height,
            pd == padded,
            pd == spec_padded_bytes_per_row(width),
            pd >= 4 * w,
            w == width,
            pd * height <= bytes@.len(),
            pd * height <= u32::MAX,
            width * height * 4 <= u32::MAX,
            pic@.len() == y * w * 4,
            forall|i: int| 0 <= i < pic@.len() ==> #[trigger] pic@[i] == picture_byte(bytes@, w, pd, i),
        decreases height - y,
    {
        let mut x: u32 = 0;
        proof {
            assert(y * pd + pd <= pd * height) by (nonlinear_arith)
                requires
                    y < height,
                    pd >= 0,
            ;
        }
        let row_start: u32 = y * padded;
        while x < width
            invariant
                y < height,
                x <= width,
                pd == padded,
                pd >= 4 * w,
                w == width,
                row_start == y * pd,
                y * pd + pd <= bytes@.len(),
                y * pd + pd <= u32::MAX,
                pic@.len() == (y * w + x) * 4,
                forall|i: int| 0 <= i < pic@.len() ==> #[trigger] pic@[i] == picture_byte(bytes@, w, pd, i),
            decreases width - x,
        {
            proof {
                assert(row_start + 4 * x + 4 <= y * pd + pd);
            }
            let src: usize = (row_start + 4 * x) as usize;
            let ghost base = pic@.len() as int;
            proof {
                lemma_picture_index(w, y as int, x as int, 0);
                lemma_picture_index(w, y as int, x as int, 1);
                lemma_picture_index(w, y as int, x as int, 2);
                lemma_picture_index(w, y as int, x as int, 3);
                assert(base == (y * w + x) * 4);
            }
            pic.push(bytes[src + 2]);
            pic.push(bytes[src + 1]);
            pic.push(bytes[src]);
            pic.push(bytes[src + 3]);
            proof {
                assert forall|i: int| 0 <= i < pic@.len() implies #[trigger] pic@[i] == picture_byte(
                    bytes@,
                    w,
                    pd,
                    i,
                ) by {
                    if i >= base {
                        let c = i - base;
                        lemma_picture_index(w, y as int, x as int, c);
                    }
                }
            }
            x = x + 1;
        }
        proof {
            assert((y * w + w) * 4 == (y + 1) * w * 4) by (nonlinear_arith);
        }
        y = y + 1;
    }
    proof {
        assert(height * w * 4 == width * height * 4) by (nonlinear_arith)
            requires
                w == width,
        ;
        assert(pic@ =~= picture_of(bytes@, width, height));
    }
    pic
}

} // verus!
