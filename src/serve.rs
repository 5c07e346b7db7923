//! Serving avatars and skins: request validation, the avatar built from a
//! texture, rendering at the requested size, and the steps of a request
//! around the identity resolver, the texture source and the cache.
use vstd::prelude::*;
use crate::codec::{compact, decompact, compacted, expanded, payload_ok, stream_ok, CodecError};
use crate::imaging::{decode, decoded_grid, encode, png_of};
use crate::pixels::{
    blend, composite_overlay, extract_region, opaque, raw_of, scale_nearest, upscaled, PixelGrid,
    Rgba,
};

verus! {

/// Why a request gets no image.
#[derive(Debug, Clone, Copy, PartialEq, Eq, Structural)]
pub enum ServeError {
    /// The requested size is out of range or not a multiple of the base size.
    InvalidVariant,
    /// No account has the requested name.
    IdentityNotFound,
    /// The account's texture could not be fetched or is not a 64 by 64 image.
    TextureUnavailable,
    /// The stored image does not decode to an 8 by 8 avatar.
    CacheDecodeFailure,
    /// No well-formed stream can be rebuilt from the stored payload.
    CodecCorruption,
}

/// Side of the stored avatar image.
pub const AVATAR_BASE: u32 = 8;

/// Side of a skin texture.
pub const SKIN_BASE: u32 = 64;

/// Largest side that a request may ask for.
pub const MAX_SIZE: u32 = 512;

pub open spec fn avatar_size_ok(size: u32) -> bool {
    8 <= size <= 512 && size % 8 == 0
}

pub open spec fn skin_size_ok(size: u32) -> bool {
    64 <= size <= 512 && size % 64 == 0
}

/// Accepts an avatar size: a multiple of 8 from 8 to 512.
pub fn check_avatar_size(size: u32) -> (r: Result<(), ServeError>)
    ensures
        r.is_ok() == avatar_size_ok(size),
        r.is_err() ==> r == Err::<(), ServeError>(ServeError::InvalidVariant),
{
    if size < AVATAR_BASE || size > MAX_SIZE || size % AVATAR_BASE != 0 {
        Err(ServeError::InvalidVariant)
    } else {
        Ok(())
    }
}

/// Accepts a skin size, 64 where none is given: a multiple of 64 from 64 to
/// 512.
pub fn check_skin_size(size: Option<u32>) -> (r: Result<u32, ServeError>)
    ensures
        match size {
            None => r == Ok::<u32, ServeError>(64),
            Some(s) => if skin_size_ok(s) {
                r == Ok::<u32, ServeError>(s)
            } else {
                r == Err::<u32, ServeError>(ServeError::InvalidVariant)
            },
        },
{
    match size {
        None => Ok(SKIN_BASE),
        Some(s) => if s < SKIN_BASE || s > MAX_SIZE || s % SKIN_BASE != 0 {
            Err(ServeError::InvalidVariant)
        } else {
            Ok(s)
        },
    }
}

/// The texel in column `x` and row `y` of a 64 by 64 texture.
pub open spec fn texel(texture: Seq<Rgba>, x: int, y: int) -> Rgba {
    texture[y * 64 + x]
}

/// Pixel `(x, y)` of the avatar: the face block at `(8, 8)`, with the
/// helmet block at `(40, 8)` composited on it when asked for, made opaque.
pub open spec fn avatar_pixel(texture: Seq<Rgba>, overlay: bool, x: int, y: int) -> Rgba {
    let face = texel(texture, 8 + x, 8 + y);
    if overlay {
        blend(face, texel(texture, 40 + x, 8 + y), false)
    } else {
        Rgba { a: 255, ..face }
    }
}

/// The 8 by 8 avatar of a texture, row after row.
pub open spec fn avatar_pixels(texture: Seq<Rgba>, overlay: bool) -> Seq<Rgba> {
    Seq::new(64, |q: int| avatar_pixel(texture, overlay, q % 8, q / 8))
}

/// Builds the stored avatar from a 64 by 64 texture.
pub fn avatar_base(texture: &PixelGrid, overlay: bool) -> (r: PixelGrid)
    requires
        texture.wf(),
        texture.width == 64,
        texture.height == 64,
    ensures
        r.wf(),
        r.width == 8,
        r.height == 8,
        !r.alpha,
        r.pixels@ == avatar_pixels(texture.pixels@, overlay),
{
    let face = extract_region(texture, 8, 8, 8, 8);
    let face = if overlay {
        let helm = extract_region(texture, 40, 8, 8, 8);
        composite_overlay(&face, &helm, 0, 0)
    } else {
        face
    };
    let r = opaque(&face);
    assert forall|q: int| 0 <= q < 64 implies #[trigger] r.pixels@[q] == avatar_pixels(
        texture.pixels@,
        overlay,
    )[q] by {
        let (x, y) = (q % 8, q / 8);
        assert(face.at(x, y) == face.pixels@[q]);
    }
    assert(r.pixels@ =~= avatar_pixels(texture.pixels@, overlay));
    r
}

/// The pixels of the 64 by 64 texture that a byte stream decodes to.
pub open spec fn texture_of(bytes: Seq<u8>) -> Option<Seq<Rgba>> {
    match decoded_grid(bytes) {
        Some((w, h, px)) => if w == 64 && h == 64 {
            Some(px)
        } else {
            None
        },
        None => None,
    }
}

/// Decodes a texture fetched from the texture source.
pub fn decode_texture(bytes: &Vec<u8>) -> (r: Result<PixelGrid, ServeError>)
    ensures
        r.is_ok() == texture_of(bytes@).is_some(),
        r.is_ok() ==> {
            let g = r.unwrap();
            &&& g.wf()
            &&& g.width == 64
            &&& g.height == 64
            &&& g.alpha
            &&& Some(g.pixels@) == texture_of(bytes@)
        },
        r.is_err() ==> r == Err::<PixelGrid, ServeError>(ServeError::TextureUnavailable),
{
    match decode(bytes) {
        Some(g) => if g.width == SKIN_BASE && g.height == SKIN_BASE {
            Ok(g)
        } else {
            Err(ServeError::TextureUnavailable)
        },
        None => Err(ServeError::TextureUnavailable),
    }
}

/// The encoded avatar, of `size` pixels a side, scaled from its stored pixels.
pub open spec fn avatar_png(base: Seq<Rgba>, size: u32) -> Seq<u8> {
    png_of(size, size, false, raw_of(upscaled(base, 8, size as int), false))
}

proof fn lemma_small_square(size: u32)
    requires
        size <= 512,
    ensures
        size as int * size as int <= usize::MAX,
{
    assert(size as int * size as int <= 512 * 512) by (nonlinear_arith)
        requires
            size <= 512,
    ;
}

/// Scales the stored avatar to `size` and encodes it.
pub fn render_avatar(base: &PixelGrid, size: u32) -> (r: Vec<u8>)
    requires
        base.wf(),
        base.width == 8,
        base.height == 8,
        !base.alpha,
        avatar_size_ok(size),
    ensures
        r@ == avatar_png(base.pixels@, size),
{
    proof {
        lemma_small_square(size);
    }
    let scaled = scale_nearest(base, size);
    encode_nonempty(&scaled)
}

/// Encodes a grid that has pixels, which the encoder always takes.
fn encode_nonempty(grid: &PixelGrid) -> (r: Vec<u8>)
    requires
        grid.wf(),
        grid.width > 0,
        grid.height > 0,
    ensures
        r@ == png_of(grid.width, grid.height, grid.alpha, raw_of(grid.pixels@, grid.alpha)),
{
    match encode(grid) {
        Some(b) => b,
        None => {
            assert(false);
            Vec::new()
        },
    }
}

/// Every pixel of a sequence made opaque.
pub open spec fn opaque_pixels(px: Seq<Rgba>) -> Seq<Rgba> {
    Seq::new(px.len(), |k: int| Rgba { a: 255, ..px[k] })
}

/// The avatar pixels that a stored payload holds, where it holds an 8 by 8
/// image.
pub open spec fn cached_avatar(payload: Seq<u8>) -> Option<Seq<Rgba>> {
    match decoded_grid(expanded(payload)) {
        Some((w, h, px)) => if w == 8 && h == 8 {
            Some(opaque_pixels(px))
        } else {
            None
        },
        None => None,
    }
}

/// The response to an avatar request from a stored payload: the rebuilt
/// stream itself at the base size, else the stored avatar scaled to `size`.
pub fn serve_cached(payload: &Vec<u8>, size: u32) -> (r: Result<Vec<u8>, ServeError>)
    requires
        avatar_size_ok(size),
    ensures
        !payload_ok(payload@) ==> r == Err::<Vec<u8>, ServeError>(ServeError::CodecCorruption),
        payload_ok(payload@) && cached_avatar(payload@).is_none() ==> r == Err::<Vec<u8>, ServeError>(
            ServeError::CacheDecodeFailure,
        ),
        payload_ok(payload@) && cached_avatar(payload@).is_some() ==> r.is_ok() && r.unwrap()@ == (
        if size == 8 {
            expanded(payload@)
        } else {
            avatar_png(cached_avatar(payload@).unwrap(), size)
        }),
{
    let stream = match decompact(payload) {
        Ok(s) => s,
        Err(CodecError::Corrupted) => {
            return Err(ServeError::CodecCorruption);
        },
    };
    let grid = match decode(&stream) {
        Some(g) => g,
        None => {
            return Err(ServeError::CacheDecodeFailure);
        },
    };
    if grid.width != AVATAR_BASE || grid.height != AVATAR_BASE {
        return Err(ServeError::CacheDecodeFailure);
    }
    if size == AVATAR_BASE {
        return Ok(stream);
    }
    let base = opaque(&grid);
    assert(base.pixels@ =~= opaque_pixels(grid.pixels@));
    Ok(render_avatar(&base, size))
}

/// The stream stored for a fresh avatar: its pixels encoded at the base size.
pub open spec fn base_png(base: Seq<Rgba>) -> Seq<u8> {
    png_of(8, 8, false, raw_of(base, false))
}

/// A freshly built avatar: the response, and the payload to store under its
/// key where the encoded image has the shape that the codec takes.
pub struct Fresh {
    pub body: Vec<u8>,
    pub payload: Option<Vec<u8>>,
}

/// Builds the response to an avatar request from the fetched texture, and
/// the payload to store.
pub fn serve_texture(texture: &Vec<u8>, overlay: bool, size: u32) -> (r: Result<Fresh, ServeError>)
    requires
        avatar_size_ok(size),
    ensures
        texture_of(texture@).is_none() ==> r == Err::<Fresh, ServeError>(ServeError::TextureUnavailable),
        texture_of(texture@).is_some() ==> {
            let base = avatar_pixels(texture_of(texture@).unwrap(), overlay);
            let f = r.unwrap();
            &&& r.is_ok()
            &&& f.body@ == (if size == 8 {
                base_png(base)
            } else {
                avatar_png(base, size)
            })
            &&& f.payload.is_some() == stream_ok(base_png(base))
            &&& f.payload.is_some() ==> f.payload.unwrap()@ == compacted(base_png(base))
        },
{
    let tex = decode_texture(texture)?;
    let base = avatar_base(&tex, overlay);
    let stream = encode_nonempty(&base);
    let payload = compact(&stream);
    if size == AVATAR_BASE {
        return Ok(Fresh { body: stream, payload });
    }
    Ok(Fresh { body: render_avatar(&base, size), payload })
}

/// Builds the response to a skin request: the texture, scaled to `size`
/// where that is not its own size, encoded with alpha.
pub fn serve_skin(texture: &Vec<u8>, size: u32) -> (r: Result<Vec<u8>, ServeError>)
    requires
        skin_size_ok(size),
    ensures
        texture_of(texture@).is_none() ==> r == Err::<Vec<u8>, ServeError>(ServeError::TextureUnavailable),
        texture_of(texture@).is_some() ==> r.is_ok() && r.unwrap()@ == png_of(
            size,
            size,
            true,
            raw_of(upscaled(texture_of(texture@).unwrap(), 64, size as int), true),
        ),
{
    let tex = decode_texture(texture)?;
    proof {
        lemma_small_square(size);
    }
    let scaled = scale_nearest(&tex, size);
    Ok(encode_nonempty(&scaled))
}

} // verus!
