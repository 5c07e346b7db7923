use skin_cache::pixels::{composite_overlay, extract_region, from_raw, opaque, scale_nearest, to_raw, PixelGrid, Rgba};

fn px(r: u8, g: u8, b: u8, a: u8) -> Rgba {
    Rgba { r, g, b, a }
}

/// A 64 by 64 texture whose 8 by 8 blocks each have their own colour.
fn marker_texture() -> PixelGrid {
    let mut pixels = Vec::new();
    for y in 0..64u32 {
        for x in 0..64u32 {
            pixels.push(px((x / 8) as u8, (y / 8) as u8, 100, 255));
        }
    }
    PixelGrid { width: 64, height: 64, alpha: true, pixels }
}

fn at(g: &PixelGrid, x: u32, y: u32) -> Rgba {
    g.pixels[(y * g.width + x) as usize]
}

#[test]
fn face_region_is_the_face_block() {
    let tex = marker_texture();
    let face = extract_region(&tex, 8, 8, 8, 8);
    assert_eq!((face.width, face.height, face.pixels.len()), (8, 8, 64));
    assert!(face.pixels.iter().all(|p| *p == px(1, 1, 100, 255)));
}

#[test]
fn helm_region_is_the_helm_block() {
    let tex = marker_texture();
    let helm = extract_region(&tex, 40, 8, 8, 8);
    assert!(helm.pixels.iter().all(|p| *p == px(5, 1, 100, 255)));
}

#[test]
fn region_across_blocks_keeps_positions() {
    let tex = marker_texture();
    let r = extract_region(&tex, 4, 12, 8, 2);
    assert_eq!(at(&r, 0, 0), px(0, 1, 100, 255));
    assert_eq!(at(&r, 7, 1), px(1, 1, 100, 255));
}

fn solid(side: u32, p: Rgba, alpha: bool) -> PixelGrid {
    PixelGrid { width: side, height: side, alpha, pixels: vec![p; (side * side) as usize] }
}

#[test]
fn transparent_overlay_leaves_base() {
    let base = solid(2, px(10, 20, 30, 255), false);
    let over = solid(2, px(200, 200, 200, 0), true);
    let r = composite_overlay(&base, &over, 0, 0);
    assert!(r.pixels.iter().all(|p| *p == px(10, 20, 30, 255)));
}

#[test]
fn opaque_overlay_replaces_base() {
    let base = solid(2, px(10, 20, 30, 255), false);
    let over = solid(2, px(200, 150, 100, 255), true);
    let r = composite_overlay(&base, &over, 0, 0);
    assert!(r.pixels.iter().all(|p| *p == px(200, 150, 100, 255)));
}

#[test]
fn half_alpha_overlay_gives_mean() {
    let base = solid(1, px(100, 0, 255, 255), false);
    let over = solid(1, px(200, 255, 0, 128), true);
    let r = composite_overlay(&base, &over, 0, 0);
    assert_eq!(r.pixels[0], px(150, 128, 127, 255));
}

#[test]
fn blended_alpha_on_alpha_base() {
    let base = solid(1, px(0, 0, 0, 0), true);
    let over = solid(1, px(255, 255, 255, 128), true);
    let r = composite_overlay(&base, &over, 0, 0);
    assert_eq!(r.pixels[0], px(128, 128, 128, 128));
}

#[test]
fn overlay_at_offset_touches_only_its_rectangle() {
    let base = solid(4, px(1, 1, 1, 255), false);
    let over = solid(2, px(9, 9, 9, 255), true);
    let r = composite_overlay(&base, &over, 1, 2);
    assert_eq!(at(&r, 1, 2), px(9, 9, 9, 255));
    assert_eq!(at(&r, 2, 3), px(9, 9, 9, 255));
    assert_eq!(at(&r, 0, 2), px(1, 1, 1, 255));
    assert_eq!(at(&r, 1, 1), px(1, 1, 1, 255));
    assert_eq!(at(&r, 3, 3), px(1, 1, 1, 255));
}

#[test]
fn scaling_makes_blocks() {
    let mut g = solid(2, px(0, 0, 0, 255), false);
    g.pixels[1] = px(1, 0, 0, 255);
    g.pixels[2] = px(2, 0, 0, 255);
    g.pixels[3] = px(3, 0, 0, 255);
    let r = scale_nearest(&g, 6);
    assert_eq!((r.width, r.height, r.pixels.len()), (6, 6, 36));
    for y in 0..6u32 {
        for x in 0..6u32 {
            assert_eq!(at(&r, x, y), at(&g, x / 3, y / 3));
        }
    }
}

#[test]
fn scaling_by_one_is_identity() {
    let tex = marker_texture();
    let r = scale_nearest(&tex, 64);
    assert_eq!(r.pixels, tex.pixels);
}

#[test]
fn avatar_scale_to_512() {
    let g = extract_region(&marker_texture(), 8, 8, 8, 8);
    let r = scale_nearest(&g, 512);
    assert_eq!(r.pixels.len(), 512 * 512);
    assert!(r.pixels.iter().all(|p| *p == px(1, 1, 100, 255)));
}

#[test]
fn raw_layouts_round_trip() {
    let raw: Vec<u8> = (0..24).collect();
    let g = from_raw(2, 2, false, &raw[..12].to_vec()).unwrap();
    assert_eq!(g.pixels[1], px(3, 4, 5, 255));
    assert_eq!(to_raw(&g), raw[..12].to_vec());
    let g = from_raw(2, 3, true, &raw).unwrap();
    assert_eq!(g.pixels[5], px(20, 21, 22, 23));
    assert_eq!(to_raw(&g), raw);
    assert!(from_raw(2, 2, true, &raw).is_none());
    assert!(from_raw(3, 3, false, &raw).is_none());
}

#[test]
fn opaque_drops_alpha() {
    let g = solid(2, px(5, 6, 7, 8), true);
    let r = opaque(&g);
    assert!(!r.alpha);
    assert!(r.pixels.iter().all(|p| *p == px(5, 6, 7, 255)));
    assert_eq!(to_raw(&r), vec![5, 6, 7, 5, 6, 7, 5, 6, 7, 5, 6, 7]);
}

#[test]
fn overlay_past_the_edge_is_clipped() {
    let base = solid(3, px(1, 1, 1, 255), false);
    let over = solid(2, px(9, 9, 9, 255), true);
    let r = composite_overlay(&base, &over, 2, 2);
    assert_eq!((r.width, r.height), (3, 3));
    assert_eq!(at(&r, 2, 2), px(9, 9, 9, 255));
    assert_eq!(at(&r, 1, 2), px(1, 1, 1, 255));
    assert_eq!(at(&r, 2, 1), px(1, 1, 1, 255));
    let far = composite_overlay(&base, &over, 5, 0);
    assert_eq!(far.pixels, base.pixels);
}
