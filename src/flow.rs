//! The steps of a request. Each call takes what the last outside action
//! returned and says what to do next; the caller performs the action (ask
//! the identity resolver, read or write the cache, fetch a texture, send the
//! response) and hands back its result.
use vstd::prelude::*;
use crate::codec::{compacted, expanded, payload_ok, stream_ok};
use crate::identity::{create_id, key_of, Identity, IdentityInput};
use crate::imaging::{decoded_grid, png_of};
use crate::pixels::{raw_of, upscaled, Rgba};
use crate::serve::{
    opaque_pixels, avatar_png, avatar_pixels, avatar_size_ok, base_png, cached_avatar, check_avatar_size,
    check_skin_size, serve_cached, serve_skin, serve_texture, skin_size_ok, texture_of, ServeError,
};

verus! {

/// What to do next.
#[derive(Debug)]
pub enum Step {
    /// Ask the identity resolver for the account of this name.
    Resolve(String),
    /// Read the cache under this key for the account.
    LookUp(Identity, String),
    /// Fetch the account's texture.
    Fetch(Identity),
    /// Send these bytes as the image.
    Respond(Vec<u8>),
    /// Write the payload under the key, then send the body; the response does
    /// not wait on the write.
    StoreAndRespond { key: String, payload: Vec<u8>, body: Vec<u8> },
    /// Answer with this error.
    Fail(ServeError),
}

pub open spec fn is_fail(r: Step, e: ServeError) -> bool {
    r matches Step::Fail(f) && f == e
}

/// The account that the identity resolver's answer names: none where it
/// found nothing or answered with the nil id.
pub fn resolved(found: Option<u128>) -> (r: Result<Identity, ServeError>)
    ensures
        match found {
            Some(v) => if v != 0 {
                r == Ok::<Identity, ServeError>(Identity { id: v })
            } else {
                r == Err::<Identity, ServeError>(ServeError::IdentityNotFound)
            },
            None => r == Err::<Identity, ServeError>(ServeError::IdentityNotFound),
        },
{
    match found {
        Some(v) => if v != 0 {
            Ok(Identity { id: v })
        } else {
            Err(ServeError::IdentityNotFound)
        },
        None => Err(ServeError::IdentityNotFound),
    }
}

/// A request for an avatar of `size` pixels a side, with or without the
/// helmet overlay.
#[derive(Debug, Clone, Copy, PartialEq, Eq, Structural)]
pub struct AvatarRequest {
    pub size: u32,
    pub overlay: bool,
}

impl AvatarRequest {
    /// The cache read for the account.
    pub open spec fn looks_up(self, r: Step, identity: Identity) -> bool {
        r matches Step::LookUp(i, k) && i == identity && k@ == key_of(identity.id, self.overlay)
    }

    /// The first step. The size is checked before anything else: an invalid
    /// one fails at once, with no resolver, cache or texture call.
    pub fn start(&self, input: &IdentityInput) -> (r: Step)
        ensures
            !avatar_size_ok(self.size) ==> is_fail(r, ServeError::InvalidVariant),
            avatar_size_ok(self.size) ==> match input {
                IdentityInput::ById(id) => self.looks_up(r, *id),
                IdentityInput::ByName(n) => r matches Step::Resolve(m) && m@ == n@,
            },
    {
        if check_avatar_size(self.size).is_err() {
            return Step::Fail(ServeError::InvalidVariant);
        }
        match input {
            IdentityInput::ById(id) => Step::LookUp(*id, create_id(id, self.overlay)),
            IdentityInput::ByName(n) => Step::Resolve(n.clone()),
        }
    }

    /// After the identity resolver answered.
    pub fn on_resolved(&self, found: Option<u128>) -> (r: Step)
        ensures
            match found {
                Some(v) if v != 0 => self.looks_up(r, Identity { id: v }),
                _ => is_fail(r, ServeError::IdentityNotFound),
            },
    {
        match resolved(found) {
            Ok(id) => Step::LookUp(id, create_id(&id, self.overlay)),
            Err(e) => Step::Fail(e),
        }
    }

    /// After the cache read. A miss fetches the texture; a hit answers from
    /// the stored payload alone and never fetches.
    pub fn on_lookup(&self, identity: Identity, cached: Option<Vec<u8>>) -> (r: Step)
        requires
            avatar_size_ok(self.size),
        ensures
            match cached {
                None => r matches Step::Fetch(i) && i == identity,
                Some(p) => {
                    &&& !payload_ok(p@) ==> is_fail(r, ServeError::CodecCorruption)
                    &&& payload_ok(p@) && cached_avatar(p@).is_none() ==> is_fail(
                        r,
                        ServeError::CacheDecodeFailure,
                    )
                    &&& payload_ok(p@) && cached_avatar(p@).is_some() ==> match r {
                        Step::Respond(b) => b@ == (if self.size == 8 {
                            expanded(p@)
                        } else {
                            avatar_png(cached_avatar(p@).unwrap(), self.size)
                        }),
                        _ => false,
                    }
                },
            },
    {
        match cached {
            None => Step::Fetch(identity),
            Some(p) => match serve_cached(&p, self.size) {
                Ok(b) => Step::Respond(b),
                Err(e) => Step::Fail(e),
            },
        }
    }

    /// After the texture fetch: builds the avatar, answers with it at the
    /// requested size, and stores it at the base size where it compacts.
    pub fn on_texture(&self, identity: Identity, texture: Option<Vec<u8>>) -> (r: Step)
        requires
            avatar_size_ok(self.size),
        ensures
            match texture {
                None => is_fail(r, ServeError::TextureUnavailable),
                Some(t) => match texture_of(t@) {
                    None => is_fail(r, ServeError::TextureUnavailable),
                    Some(tex) => {
                        let base = avatar_pixels(tex, self.overlay);
                        let body = if self.size == 8 {
                            base_png(base)
                        } else {
                            avatar_png(base, self.size)
                        };
                        match r {
                            Step::Respond(b) => b@ == body && !stream_ok(base_png(base)),
                            Step::StoreAndRespond { key, payload, body: b } => {
                                &&& b@ == body
                                &&& stream_ok(base_png(base))
                                &&& payload@ == compacted(base_png(base))
                                &&& key@ == key_of(identity.id, self.overlay)
                            },
                            _ => false,
                        }
                    },
                },
            },
    {
        let t = match texture {
            Some(t) => t,
            None => {
                return Step::Fail(ServeError::TextureUnavailable);
            },
        };
        match serve_texture(&t, self.overlay, self.size) {
            Ok(fresh) => match fresh.payload {
                Some(payload) => Step::StoreAndRespond {
                    key: create_id(&identity, self.overlay),
                    payload,
                    body: fresh.body,
                },
                None => Step::Respond(fresh.body),
            },
            Err(e) => Step::Fail(e),
        }
    }
}

/// A request for the full skin, at 64 pixels a side where no size is given.
#[derive(Debug, Clone, Copy, PartialEq, Eq, Structural)]
pub struct SkinRequest {
    pub size: Option<u32>,
}

impl SkinRequest {
    pub open spec fn size_ok(self) -> bool {
        match self.size {
            Some(s) => skin_size_ok(s),
            None => true,
        }
    }

    pub open spec fn side(self) -> u32 {
        match self.size {
            Some(s) => s,
            None => 64,
        }
    }

    /// The first step; an invalid size fails before anything else.
    pub fn start(&self, input: &IdentityInput) -> (r: Step)
        ensures
            !self.size_ok() ==> is_fail(r, ServeError::InvalidVariant),
            self.size_ok() ==> match input {
                IdentityInput::ById(id) => r matches Step::Fetch(i) && i == *id,
                IdentityInput::ByName(n) => r matches Step::Resolve(m) && m@ == n@,
            },
    {
        if check_skin_size(self.size).is_err() {
            return Step::Fail(ServeError::InvalidVariant);
        }
        match input {
            IdentityInput::ById(id) => Step::Fetch(*id),
            IdentityInput::ByName(n) => Step::Resolve(n.clone()),
        }
    }

    /// After the identity resolver answered.
    pub fn on_resolved(&self, found: Option<u128>) -> (r: Step)
        ensures
            match found {
                Some(v) if v != 0 => r matches Step::Fetch(i) && i == (Identity { id: v }),
                _ => is_fail(r, ServeError::IdentityNotFound),
            },
    {
        match resolved(found) {
            Ok(id) => Step::Fetch(id),
            Err(e) => Step::Fail(e),
        }
    }

    /// After the texture fetch: the texture at the requested size.
    pub fn on_texture(&self, texture: Option<Vec<u8>>) -> (r: Step)
        requires
            self.size_ok(),
        ensures
            match texture {
                None => is_fail(r, ServeError::TextureUnavailable),
                Some(t) => match texture_of(t@) {
                    None => is_fail(r, ServeError::TextureUnavailable),
                    Some(tex) => match r {
                        Step::Respond(b) => b@ == png_of(
                            self.side(),
                            self.side(),
                            true,
                            raw_of(upscaled(tex, 64, self.side() as int), true),
                        ),
                        _ => false,
                    },
                },
            },
    {
        let t = match texture {
            Some(t) => t,
            None => {
                return Step::Fail(ServeError::TextureUnavailable);
            },
        };
        let side = match check_skin_size(self.size) {
            Ok(s) => s,
            Err(e) => {
                return Step::Fail(e);
            },
        };
        match serve_skin(&t, side) {
            Ok(b) => Step::Respond(b),
            Err(e) => Step::Fail(e),
        }
    }
}

/// A repeated avatar request answered from the cache gets the bytes that the
/// first one got: the stored payload rebuilds the encoded base image, and
/// the base image comes back from it, provided the encoded stream has the
/// codec's shape and decodes to the pixels it was encoded from.
pub proof fn lemma_hit_matches_miss(base: Seq<Rgba>, decoded: Seq<Rgba>)
    requires
        stream_ok(base_png(base)),
        decoded_grid(base_png(base)) == Some((8u32, 8u32, decoded)),
        opaque_pixels(decoded) == base,
    ensures
        payload_ok(compacted(base_png(base))),
        expanded(compacted(base_png(base))) == base_png(base),
        cached_avatar(compacted(base_png(base))) == Some(base),
{
    crate::codec::lemma_round_trip(base_png(base));
}

} // verus!
