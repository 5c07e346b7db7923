use skin_cache::codec::compact;
use skin_cache::flow::{resolved, AvatarRequest, SkinRequest, Step};
use skin_cache::identity::{create_id, Identity, IdentityInput};
use skin_cache::imaging::{decode, encode};
use skin_cache::pixels::{PixelGrid, Rgba};
use skin_cache::serve::{check_avatar_size, check_skin_size, serve_cached, ServeError};
use std::collections::HashMap;

const ID_A: u128 = 0x069a79f444e94726a5befad1a6a6c6e6;

/// Texture bytes whose face texel `(x, y)` has red `x`, green `y`.
fn texture_bytes() -> Vec<u8> {
    let mut pixels = Vec::new();
    for y in 0..64u32 {
        for x in 0..64u32 {
            let inside_face = (8..16).contains(&x) && (8..16).contains(&y);
            let p = if inside_face {
                Rgba { r: (x - 8) as u8 * 20, g: (y - 8) as u8 * 20, b: 7, a: 255 }
            } else {
                Rgba { r: 0, g: 0, b: 0, a: 0 }
            };
            pixels.push(p);
        }
    }
    encode(&PixelGrid { width: 64, height: 64, alpha: true, pixels }).unwrap()
}

/// Runs an avatar request against an in-memory cache and counts fetches.
fn run_avatar(req: AvatarRequest, input: &IdentityInput, cache: &mut HashMap<String, Vec<u8>>, fetches: &mut u32) -> Result<Vec<u8>, ServeError> {
    let mut step = req.start(input);
    let mut identity = None;
    loop {
        step = match step {
            Step::Resolve(_) => req.on_resolved(Some(ID_A)),
            Step::LookUp(id, key) => {
                identity = Some(id);
                req.on_lookup(id, cache.get(&key).cloned())
            }
            Step::Fetch(id) => {
                *fetches += 1;
                req.on_texture(id, Some(texture_bytes()))
            }
            Step::StoreAndRespond { key, payload, body } => {
                assert_eq!(key, create_id(&identity.unwrap(), req.overlay));
                cache.insert(key, payload);
                return Ok(body);
            }
            Step::Respond(body) => return Ok(body),
            Step::Fail(e) => return Err(e),
        };
    }
}

#[test]
fn avatar_end_to_end() {
    let req = AvatarRequest { size: 64, overlay: false };
    let input = IdentityInput::ById(Identity { id: ID_A });
    let mut cache = HashMap::new();
    let mut fetches = 0;
    let first = run_avatar(req, &input, &mut cache, &mut fetches).unwrap();
    assert_eq!(fetches, 1);
    assert_eq!(cache.len(), 1);
    // what is stored is the 8 by 8 base image
    let stored = cache.values().next().unwrap().clone();
    assert_eq!(&stored[0..8], &[0, 0, 0, 8, 0, 0, 0, 8]);
    let img = decode(&first).unwrap();
    assert_eq!((img.width, img.height), (64, 64));
    for y in 0..64u32 {
        for x in 0..64u32 {
            let p = img.pixels[(y * 64 + x) as usize];
            assert_eq!(p, Rgba { r: (x / 8) as u8 * 20, g: (y / 8) as u8 * 20, b: 7, a: 255 });
        }
    }
    let second = run_avatar(req, &input, &mut cache, &mut fetches).unwrap();
    assert_eq!(fetches, 1);
    assert_eq!(second, first);
}

#[test]
fn cache_hit_at_base_size_returns_stored_stream() {
    let req = AvatarRequest { size: 8, overlay: true };
    let input = IdentityInput::ByName("someone".to_string());
    let mut cache = HashMap::new();
    let mut fetches = 0;
    let first = run_avatar(req, &input, &mut cache, &mut fetches).unwrap();
    let second = run_avatar(req, &input, &mut cache, &mut fetches).unwrap();
    assert_eq!(fetches, 1);
    assert_eq!(first, second);
    let img = decode(&first).unwrap();
    assert_eq!((img.width, img.height), (8, 8));
}

#[test]
fn overlay_and_plain_are_cached_apart() {
    let input = IdentityInput::ById(Identity { id: ID_A });
    let mut cache = HashMap::new();
    let mut fetches = 0;
    run_avatar(AvatarRequest { size: 16, overlay: false }, &input, &mut cache, &mut fetches).unwrap();
    run_avatar(AvatarRequest { size: 16, overlay: true }, &input, &mut cache, &mut fetches).unwrap();
    assert_eq!(fetches, 2);
    assert_eq!(cache.len(), 2);
}

#[test]
fn invalid_sizes_fail_before_any_call() {
    let input = IdentityInput::ByName("someone".to_string());
    for size in [0u32, 7, 9, 513, 520] {
        assert!(matches!(AvatarRequest { size, overlay: false }.start(&input), Step::Fail(ServeError::InvalidVariant)));
    }
    for size in [0u32, 32, 65, 100, 576] {
        assert!(matches!(SkinRequest { size: Some(size) }.start(&input), Step::Fail(ServeError::InvalidVariant)));
    }
    assert!(matches!(SkinRequest { size: None }.start(&input), Step::Resolve(_)));
}

#[test]
fn size_checks() {
    assert_eq!(check_avatar_size(8), Ok(()));
    assert_eq!(check_avatar_size(512), Ok(()));
    assert_eq!(check_avatar_size(7), Err(ServeError::InvalidVariant));
    assert_eq!(check_skin_size(None), Ok(64));
    assert_eq!(check_skin_size(Some(128)), Ok(128));
    assert_eq!(check_skin_size(Some(65)), Err(ServeError::InvalidVariant));
}

#[test]
fn unknown_names_are_not_found() {
    assert_eq!(resolved(None), Err(ServeError::IdentityNotFound));
    assert_eq!(resolved(Some(0)), Err(ServeError::IdentityNotFound));
    assert_eq!(resolved(Some(5)), Ok(Identity { id: 5 }));
    let req = AvatarRequest { size: 8, overlay: false };
    assert!(matches!(req.on_resolved(None), Step::Fail(ServeError::IdentityNotFound)));
}

#[test]
fn missing_or_bad_texture_is_unavailable() {
    let req = AvatarRequest { size: 8, overlay: false };
    let id = Identity { id: ID_A };
    assert!(matches!(req.on_texture(id, None), Step::Fail(ServeError::TextureUnavailable)));
    assert!(matches!(req.on_texture(id, Some(vec![1, 2, 3])), Step::Fail(ServeError::TextureUnavailable)));
    let small = encode(&PixelGrid { width: 8, height: 8, alpha: true, pixels: vec![Rgba { r: 0, g: 0, b: 0, a: 255 }; 64] }).unwrap();
    assert!(matches!(req.on_texture(id, Some(small)), Step::Fail(ServeError::TextureUnavailable)));
}

#[test]
fn corrupt_cache_entries_fail() {
    assert_eq!(serve_cached(&vec![1, 2, 3], 8), Err(ServeError::CodecCorruption));
    // a valid header with image data that does not decode
    let mut payload = vec![0, 0, 0, 8, 0, 0, 0, 8, 8, 2, 0, 0, 0];
    payload.extend_from_slice(&[1, 2, 3, 4]);
    assert_eq!(serve_cached(&payload, 8), Err(ServeError::CacheDecodeFailure));
    // a valid stored image of the wrong size
    let big = encode(&PixelGrid { width: 16, height: 16, alpha: false, pixels: vec![Rgba { r: 1, g: 2, b: 3, a: 255 }; 256] }).unwrap();
    let payload = compact(&big).unwrap();
    assert_eq!(serve_cached(&payload, 8), Err(ServeError::CacheDecodeFailure));
}

#[test]
fn skin_is_scaled_with_alpha() {
    let req = SkinRequest { size: Some(128) };
    match req.on_texture(Some(texture_bytes())) {
        Step::Respond(b) => {
            let img = decode(&b).unwrap();
            assert_eq!((img.width, img.height), (128, 128));
            assert_eq!(img.pixels[0], Rgba { r: 0, g: 0, b: 0, a: 0 });
            assert_eq!(img.pixels[(16 * 128 + 17) as usize], Rgba { r: 0, g: 0, b: 7, a: 255 });
        }
        other => panic!("unexpected step {:?}", other),
    }
}
