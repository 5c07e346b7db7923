//! PNG encoding and decoding of pixel grids through the `image` crate, in
//! the one encoder configuration that the codec expects.
use vstd::prelude::*;
use image::ImageEncoder;
use crate::pixels::{PixelGrid, Rgba, channels, raw_of, pixels_of, to_raw, from_raw};

verus! {

/// The PNG stream that `image`'s `PngEncoder` writes, in its default
/// settings, for raw 8-bit samples of the given size and colour type.
pub uninterp spec fn png_of(width: u32, height: u32, alpha: bool, raw: Seq<u8>) -> Seq<u8>;

/// What `image::load_from_memory` followed by `to_rgba8` reads from a byte
/// stream: width, height and raw RGBA samples, or nothing.
pub uninterp spec fn rgba_decoded_of(bytes: Seq<u8>) -> Option<(u32, u32, Seq<u8>)>;

/// Relies on `image::codecs::png::PngEncoder::write_image` with its default
/// compression and filter: it writes the PNG stream of the samples, as RGB
/// or RGBA with 8 bits each. Writing into a `Vec` cannot fail, and png's
/// encoder refuses only a zero width or height. It panics where the number
/// of samples does not match the size, which `requires` rules out.
#[verifier::external_body]
fn write_png(width: u32, height: u32, alpha: bool, raw: &Vec<u8>) -> (r: Option<Vec<u8>>)
    requires
        raw@.len() == width as int * height as int * channels(alpha),
    ensures
        width > 0 && height > 0 ==> r.is_some(),
        r.is_some() ==> r.unwrap()@ == png_of(width, height, alpha, raw@),
{
    let colour = if alpha { image::ColorType::Rgba8 } else { image::ColorType::Rgb8 };
    let mut out: Vec<u8> = Vec::new();
    match image::codecs::png::PngEncoder::new(&mut out).write_image(raw, width, height, colour) {
        Ok(()) => Some(out),
        Err(_) => None,
    }
}

/// Relies on `image::load_from_memory` and `DynamicImage::to_rgba8`: the
/// decoded image's size and RGBA samples, or `None` where the bytes are not
/// an image that `image` reads.
#[verifier::external_body]
fn read_rgba(bytes: &Vec<u8>) -> (r: Option<(u32, u32, Vec<u8>)>)
    ensures
        match r {
            Some((w, h, raw)) => rgba_decoded_of(bytes@) == Some((w, h, raw@)),
            None => rgba_decoded_of(bytes@).is_none(),
        },
{
    match image::load_from_memory(bytes.as_slice()) {
        Ok(img) => {
            let pic = img.to_rgba8();
            Some((pic.width(), pic.height(), pic.into_raw()))
        },
        Err(_) => None,
    }
}

/// Encodes a grid in the pipeline's fixed PNG configuration; only an empty
/// grid gives `None`.
pub fn encode(grid: &PixelGrid) -> (r: Option<Vec<u8>>)
    requires
        grid.wf(),
    ensures
        grid.width > 0 && grid.height > 0 ==> r.is_some(),
        r.is_some() ==> r.unwrap()@ == png_of(
            grid.width,
            grid.height,
            grid.alpha,
            raw_of(grid.pixels@, grid.alpha),
        ),
{
    let raw = to_raw(grid);
    assert(raw@.len() == grid.width as int * grid.height as int * channels(grid.alpha));
    write_png(grid.width, grid.height, grid.alpha, &raw)
}

/// The grid that a byte stream decodes to, with alpha, where it decodes.
pub open spec fn decoded_grid(bytes: Seq<u8>) -> Option<(u32, u32, Seq<Rgba>)> {
    match rgba_decoded_of(bytes) {
        Some((w, h, raw)) => if raw.len() == w as int * h as int * 4 {
            Some((w, h, pixels_of(raw, true)))
        } else {
            None
        },
        None => None,
    }
}

/// Decodes a PNG stream into a grid with alpha; `None` where it does not
/// decode.
pub fn decode(bytes: &Vec<u8>) -> (r: Option<PixelGrid>)
    ensures
        r.is_some() == decoded_grid(bytes@).is_some(),
        r.is_some() ==> {
            let g = r.unwrap();
            &&& g.wf()
            &&& g.alpha
            &&& decoded_grid(bytes@) == Some((g.width, g.height, g.pixels@))
        },
{
    match read_rgba(bytes) {
        Some((w, h, raw)) => from_raw(w, h, true, &raw),
        None => None,
    }
}

} // verus!
