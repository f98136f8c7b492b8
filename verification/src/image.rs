//! Loading the PNG image to show and turning it into premultiplied ARGB8888 pixels.
use vstd::prelude::*;

verus! {

/// The width and height that the `png` crate reads from the header of the PNG file `data`
/// (`Decoder::new(..).read_info()` and the reader's `info()`), or `None` when it rejects it.
pub uninterp spec fn png_dims(data: Seq<u8>) -> Option<(u32, u32)>;

/// What the `png` crate leaves in a buffer holding `buf` when it decodes the first frame of the
/// PNG file `data` into it (`Reader::next_frame` after `Decoder::new(..).read_info()`), or
/// `None` when it reports an error.
pub uninterp spec fn png_frame(data: Seq<u8>, buf: Seq<u8>) -> Option<Seq<u8>>;

/// Reads the PNG header of `data` with `png::Decoder::read_info` and returns the image's width
/// and height; the contract names the result and claims nothing else of it.
#[verifier::external_body]
fn png_read_dims(data: &[u8]) -> (r: Option<(u32, u32)>)
    ensures
        r == png_dims(data@),
{
    match png::Decoder::new(std::io::Cursor::new(data)).read_info() {
        Ok(reader) => Some((reader.info().width, reader.info().height)),
        Err(_) => None,
    }
}

/// Decodes the first frame of the PNG file `data` into `buf` with `png::Reader::next_frame`;
/// the contract names what ends up in `buf` and says only that the buffer keeps its length.
#[verifier::external_body]
fn png_read_frame(data: &[u8], buf: &mut Vec<u8>) -> (ok: bool)
    ensures
        ok == png_frame(data@, old(buf)@) is Some,
        ok ==> final(buf)@ == png_frame(data@, old(buf)@).unwrap(),
        final(buf)@.len() == old(buf)@.len(),
{
    match png::Decoder::new(std::io::Cursor::new(data)).read_info() {
        Ok(mut reader) => reader.next_frame(buf.as_mut_slice()).is_ok(),
        Err(_) => false,
    }
}

/// A color channel scaled by an alpha value, as `(channel * alpha) >> 8`.
pub open spec fn premultiply_channel(c: u8, a: u8) -> u8 {
    ((c as int * a as int) / 256) as u8
}

/// RGBA pixels turned into premultiplied BGRA pixels: each color channel is scaled by the
/// pixel's alpha and the three color channels swap order, so that the bytes read as
/// little-endian ARGB8888.
pub open spec fn premultiplied_bgra(px: Seq<u8>) -> Seq<u8> {
    Seq::new(
        px.len(),
        |i: int|
            {
                let p = i - i % 4;
                if i % 4 == 0 {
                    premultiply_channel(px[p + 2], px[p + 3])
                } else if i % 4 == 1 {
                    premultiply_channel(px[p + 1], px[p + 3])
                } else if i % 4 == 2 {
                    premultiply_channel(px[p], px[p + 3])
                } else {
                    px[p + 3]
                }
            },
    )
}

/// Scales a channel by alpha with a shift, as the pixel conversion does.
fn scale_channel(c: u8, a: u8) -> (r: u8)
    ensures
        r == premultiply_channel(c, a),
{
    let c32 = c as u32;
    let a32 = a as u32;
    assert(c32 * a32 < 65536) by (nonlinear_arith)
        requires
            c32 < 256,
            a32 < 256,
    ;
    let prod = c32 * a32;
    assert(prod >> 8 == prod / 256) by (bit_vector);
    (prod >> 8) as u8
}

/// Premultiplies the alpha into the color channels of RGBA pixels and reorders them to BGRA.
pub fn premultiply_argb(px: &mut Vec<u8>)
    requires
        old(px)@.len() % 4 == 0,
    ensures
        final(px)@ == premultiplied_bgra(old(px)@),
{
    let ghost orig = px@;
    let n = px.len();
    let mut i: usize = 0;
    while i < n
        invariant
            n == orig.len(),
            n % 4 == 0,
            i % 4 == 0,
            i <= n,
            px@.len() == n,
            forall|j: int| 0 <= j < i ==> px@[j] == premultiplied_bgra(orig)[j],
            forall|j: int| i <= j < n ==> px@[j] == orig[j],
        decreases n - i,
    {
        let r = px[i];
        let g = px[i + 1];
        let b = px[i + 2];
        let a = px[i + 3];
        px.set(i, scale_channel(b, a));
        px.set(i + 1, scale_channel(g, a));
        px.set(i + 2, scale_channel(r, a));
        proof {
            assert forall|j: int| i <= j < i + 4 implies px@[j] == premultiplied_bgra(orig)[j] by {
                assert(j - j % 4 == i);
            }
        }
        i = i + 4;
    }
    assert(px@ =~= premultiplied_bgra(orig));
}

/// Why an image could not be loaded.
#[derive(Debug, Clone, Copy, PartialEq, Eq)]
pub enum ImageError {
    /// The PNG decoder rejected the file.
    Undecodable,
    /// Four bytes per pixel for the whole image do not fit in memory.
    TooLarge,
}

/// The image decoded from `data` can be loaded: the decoder reads its size, the pixels fit in
/// memory, and it decodes the first frame into a zeroed buffer of four bytes per pixel.
pub open spec fn image_loadable(data: Seq<u8>) -> bool {
    &&& png_dims(data) is Some
    &&& 4 * png_dims(data).unwrap().0 * png_dims(data).unwrap().1 <= usize::MAX
    &&& png_frame(
        data,
        Seq::new((4 * png_dims(data).unwrap().0 * png_dims(data).unwrap().1) as nat, |i: int| 0u8),
    ) is Some
}

/// The premultiplied BGRA pixels of the image decoded from `data`.
pub open spec fn loaded_pixels(data: Seq<u8>) -> Seq<u8> {
    premultiplied_bgra(
        png_frame(
            data,
            Seq::new(
                (4 * png_dims(data).unwrap().0 * png_dims(data).unwrap().1) as nat,
                |i: int| 0u8,
            ),
        ).unwrap(),
    )
}

/// Decodes the PNG file `data` and returns its width, height and premultiplied ARGB8888
/// pixels.
pub fn load_image(data: &[u8]) -> (r: Result<(u32, u32, Vec<u8>), ImageError>)
    ensures
        match r {
            Ok((w, h, px)) => {
                &&& image_loadable(data@)
                &&& png_dims(data@) == Some((w, h))
                &&& px@ == loaded_pixels(data@)
                &&& px@.len() == 4 * w * h
            },
            Err(ImageError::Undecodable) => png_dims(data@) is None || (4 * png_dims(
                data@,
            ).unwrap().0 * png_dims(data@).unwrap().1 <= usize::MAX && !image_loadable(data@)),
            Err(ImageError::TooLarge) => png_dims(data@) is Some && 4 * png_dims(data@).unwrap().0
                * png_dims(data@).unwrap().1 > usize::MAX,
        },
{
    let (width, height) = match png_read_dims(data) {
        Some(d) => d,
        None => return Err(ImageError::Undecodable),
    };
    let size = match (width as usize).checked_mul(height as usize) {
        Some(p) => match p.checked_mul(4) {
            Some(s) => s,
            None => {
                proof {
                    assert(4 * width * height == p * 4) by (nonlinear_arith)
                        requires
                            p == width * height,
                    ;
                }
                return Err(ImageError::TooLarge);
            },
        },
        None => {
            proof {
                assert(4 * width * height >= width * height) by (nonlinear_arith);
            }
            return Err(ImageError::TooLarge);
        },
    };
    proof {
        assert(size == 4 * width * height) by (nonlinear_arith)
            requires
                size == (width * height) * 4,
        ;
    }
    let mut img_buf: Vec<u8> = vec![0u8; size];
    assert(img_buf@ =~= Seq::new((4 * width * height) as nat, |i: int| 0u8));
    if !png_read_frame(data, &mut img_buf) {
        return Err(ImageError::Undecodable);
    }
    premultiply_argb(&mut img_buf);
    Ok((width, height, img_buf))
}

} // verus!

verus! {

/// Premultiplied pixels are valid premultiplied ARGB: no color channel exceeds the alpha, and
/// the alpha is the one of the source pixel.
pub proof fn lemma_premultiplied_bounded(px: Seq<u8>, k: int)
    requires
        px.len() % 4 == 0,
        0 <= k < px.len() / 4,
    ensures
        ({
            let out = premultiplied_bgra(px);
            &&& out[4 * k + 3] == px[4 * k + 3]
            &&& out[4 * k] <= out[4 * k + 3]
            &&& out[4 * k + 1] <= out[4 * k + 3]
            &&& out[4 * k + 2] <= out[4 * k + 3]
        }),
{
    let a = px[4 * k + 3] as int;
    assert forall|c: int| 0 <= c < 256 implies #[trigger] (c * a / 256) <= a by {
        assert(c * a <= 256 * a) by (nonlinear_arith)
            requires
                0 <= c < 256,
                0 <= a,
        ;
    }
    assert((4 * k) % 4 == 0);
    assert((4 * k + 1) % 4 == 1);
    assert((4 * k + 2) % 4 == 2);
    assert((4 * k + 3) % 4 == 3);
    assert((px[4 * k + 2] as int) * a / 256 <= a);
    assert((px[4 * k + 1] as int) * a / 256 <= a);
    assert((px[4 * k] as int) * a / 256 <= a);
}

} // verus!
