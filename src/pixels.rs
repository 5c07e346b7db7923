//! Pixel grids and the pure transforms of the pipeline: region extraction,
//! alpha compositing, nearest-neighbour scaling, and raw byte layouts.
use vstd::prelude::*;
use vstd::arithmetic::div_mod::{lemma_fundamental_div_mod, lemma_div_pos_is_pos};

verus! {

/// One pixel: red, green, blue and alpha samples.
#[derive(Debug, Clone, Copy, PartialEq, Eq, Structural)]
pub struct Rgba {
    pub r: u8,
    pub g: u8,
    pub b: u8,
    pub a: u8,
}

/// A rectangular grid of pixels in row-major order. A grid without alpha
/// is opaque: every alpha sample is 255.
#[derive(Debug, Clone)]
pub struct PixelGrid {
    pub width: u32,
    pub height: u32,
    pub alpha: bool,
    pub pixels: Vec<Rgba>,
}

impl PixelGrid {
    pub open spec fn wf(&self) -> bool {
        &&& self.pixels@.len() == self.width as int * self.height as int
        &&& !self.alpha ==> forall|k: int| 0 <= k < self.pixels@.len() ==> #[trigger] self.pixels@[k].a == 255
    }

    /// The pixel in column `x` and row `y`.
    pub open spec fn at(&self, x: int, y: int) -> Rgba {
        self.pixels@[y * self.width + x]
    }
}

proof fn lemma_index(x: int, y: int, w: int, h: int)
    requires
        0 <= x < w,
        0 <= y < h,
    ensures
        0 <= y * w + x < w * h,
        y * w + x < (y + 1) * w,
        (y + 1) * w == y * w + w,
{
    assert(0 <= y * w + x < w * h) by (nonlinear_arith)
        requires
            0 <= x < w,
            0 <= y < h,
    ;
    assert((y + 1) * w == y * w + w) by (nonlinear_arith);
}

proof fn lemma_earlier_row(ii: int, jj: int, i: int, w: int)
    requires
        0 <= ii < i,
        0 <= jj < w,
    ensures
        0 <= ii * w + jj < i * w,
{
    assert(0 <= ii * w + jj < i * w) by (nonlinear_arith)
        requires
            0 <= ii < i,
            0 <= jj < w,
    ;
}

/// Copies the `w` by `h` rectangle whose top left corner is `(x, y)`.
pub fn extract_region(texture: &PixelGrid, x: u32, y: u32, w: u32, h: u32) -> (r: PixelGrid)
    requires
        texture.wf(),
        x as int + w as int <= texture.width,
        y as int + h as int <= texture.height,
    ensures
        r.wf(),
        r.width == w,
        r.height == h,
        r.alpha == texture.alpha,
        forall|xx: int, yy: int|
            0 <= xx < w && 0 <= yy < h ==> #[trigger] r.at(xx, yy) == texture.at(x + xx, y + yy),
{
    let tw = texture.width;
    let ghost th = texture.height as int;
    let mut out: Vec<Rgba> = Vec::new();
    let mut i: u32 = 0;
    while i < h
        invariant
            texture.wf(),
            tw == texture.width,
            th == texture.height,
            x as int + w as int <= tw,
            y as int + h as int <= th,
            i <= h,
            out@.len() == i as int * w as int,
            forall|ii: int, jj: int|
                0 <= ii < i && 0 <= jj < w ==> #[trigger] out@[ii * w + jj] == texture.at(x + jj, y + ii),
            !texture.alpha ==> forall|k: int| 0 <= k < out@.len() ==> #[trigger] out@[k].a == 255,
        decreases h - i,
    {
        let mut j: u32 = 0;
        while j < w
            invariant
                texture.wf(),
                tw == texture.width,
                th == texture.height,
                x as int + w as int <= tw,
                y as int + h as int <= th,
                i < h,
                j <= w,
                out@.len() == i as int * w as int + j,
                forall|ii: int, jj: int|
                    0 <= ii < i && 0 <= jj < w ==> #[trigger] out@[ii * w + jj] == texture.at(x + jj, y + ii),
                forall|jj: int| 0 <= jj < j ==> #[trigger] out@[i * w + jj] == texture.at(x + jj, y + i),
                !texture.alpha ==> forall|k: int| 0 <= k < out@.len() ==> #[trigger] out@[k].a == 255,
            decreases w - j,
        {
            proof {
                lemma_index(x + j, y + i, tw as int, th);
            }
            let n = texture.pixels.len();
            assert(((y + i) as int) * (tw as int) + ((x + j) as int) < n);
            let k = (y + i) as usize * tw as usize + (x + j) as usize;
            let ghost before = out@;
            out.push(texture.pixels[k]);
            proof {
                assert forall|ii: int, jj: int| 0 <= ii < i && 0 <= jj < w implies #[trigger] out@[ii * w + jj]
                    == texture.at(x + jj, y + ii) by {
                    lemma_earlier_row(ii, jj, i as int, w as int);
                    assert(out@[ii * w + jj] == before[ii * w + jj]);
                }
                if !texture.alpha {
                    assert(out@[out@.len() - 1].a == 255);
                }
            }
            j = j + 1;
        }
        assert((i as int + 1) * w as int == i as int * w as int + w as int) by (nonlinear_arith);
        i = i + 1;
    }
    assert(h as int * w as int == w as int * h as int) by (nonlinear_arith);
    PixelGrid { width: w, height: h, alpha: texture.alpha, pixels: out }
}

/// One colour sample of `over` with alpha `a` laid on `under`: the linear
/// blend `(over * a + under * (255 - a)) / 255`, rounded to nearest. This is
/// the library's own integer rule; `image`'s blending works in `f32` and
/// rounds differently.
pub open spec fn mix(over: u8, under: u8, a: u8) -> u8 {
    ((over as int * a as int + under as int * (255 - a as int) + 127) / 255) as u8
}

/// `over` composited onto `under`; the alpha channel is blended as well
/// where the result keeps one, else the result is opaque.
pub open spec fn blend(under: Rgba, over: Rgba, keep_alpha: bool) -> Rgba {
    Rgba {
        r: mix(over.r, under.r, over.a),
        g: mix(over.g, under.g, over.a),
        b: mix(over.b, under.b, over.a),
        a: if keep_alpha { mix(255, under.a, over.a) } else { 255 },
    }
}

proof fn lemma_mix_bounds(over: u8, under: u8, a: u8)
    ensures
        0 <= over as int * a as int + under as int * (255 - a as int) + 127 <= 255 * 255 + 127,
{
    assert(0 <= over as int * a as int + under as int * (255 - a as int) + 127 <= 255 * 255 + 127)
        by (nonlinear_arith)
        requires
            0 <= over <= 255,
            0 <= under <= 255,
            0 <= a <= 255,
    ;
}

fn mix_sample(over: u8, under: u8, a: u8) -> (r: u8)
    ensures
        r == mix(over, under, a),
{
    proof {
        lemma_mix_bounds(over, under, a);
    }
    let t: u32 = over as u32 * a as u32 + under as u32 * (255 - a as u32) + 127;
    (t / 255) as u8
}

fn blend_pixel(under: Rgba, over: Rgba, keep_alpha: bool) -> (r: Rgba)
    ensures
        r == blend(under, over, keep_alpha),
{
    Rgba {
        r: mix_sample(over.r, under.r, over.a),
        g: mix_sample(over.g, under.g, over.a),
        b: mix_sample(over.b, under.b, over.a),
        a: if keep_alpha { mix_sample(255, under.a, over.a) } else { 255 },
    }
}

/// A fully transparent sample leaves the one below unchanged, a fully opaque
/// one replaces it, and one at half alpha (128) gives the mean of the two,
/// rounded one way or the other.
pub proof fn lemma_mix_laws(over: u8, under: u8)
    ensures
        mix(over, under, 0) == under,
        mix(over, under, 255) == over,
        (over as int + under as int) / 2 <= mix(over, under, 128) as int <= (over as int + under as int + 1) / 2,
{
}

/// The pixel at `(x, y)` of `base` once `overlay` is composited with its top
/// left corner at `(ox, oy)`.
pub open spec fn composited_at(base: PixelGrid, overlay: PixelGrid, ox: int, oy: int, x: int, y: int) -> Rgba {
    if ox <= x < ox + overlay.width && oy <= y < oy + overlay.height {
        blend(base.at(x, y), overlay.at(x - ox, y - oy), base.alpha)
    } else {
        base.at(x, y)
    }
}

/// Alpha-composites `overlay` onto `base` with its top left corner at
/// `(ox, oy)`; the result has the size and colour depth of `base`, and the
/// part of `overlay` that falls outside `base` is clipped.
pub fn composite_overlay(base: &PixelGrid, overlay: &PixelGrid, ox: u32, oy: u32) -> (r: PixelGrid)
    requires
        base.wf(),
        overlay.wf(),
    ensures
        r.wf(),
        r.width == base.width,
        r.height == base.height,
        r.alpha == base.alpha,
        forall|xx: int, yy: int|
            0 <= xx < base.width && 0 <= yy < base.height ==> #[trigger] r.at(xx, yy)
                == composited_at(*base, *overlay, ox as int, oy as int, xx, yy),
{
    let w = base.width;
    let h = base.height;
    let ow = overlay.width;
    let oh = overlay.height;
    let mut out: Vec<Rgba> = Vec::new();
    let mut i: u32 = 0;
    while i < h
        invariant
            base.wf(),
            overlay.wf(),
            w == base.width,
            h == base.height,
            ow == overlay.width,
            oh == overlay.height,
            i <= h,
            out@.len() == i as int * w as int,
            forall|ii: int, jj: int|
                0 <= ii < i && 0 <= jj < w ==> #[trigger] out@[ii * w + jj]
                    == composited_at(*base, *overlay, ox as int, oy as int, jj, ii),
            !base.alpha ==> forall|k: int| 0 <= k < out@.len() ==> #[trigger] out@[k].a == 255,
        decreases h - i,
    {
        let mut j: u32 = 0;
        while j < w
            invariant
                base.wf(),
                overlay.wf(),
                w == base.width,
                h == base.height,
                ow == overlay.width,
                oh == overlay.height,
                i < h,
                j <= w,
                out@.len() == i as int * w as int + j,
                forall|ii: int, jj: int|
                    0 <= ii < i && 0 <= jj < w ==> #[trigger] out@[ii * w + jj]
                        == composited_at(*base, *overlay, ox as int, oy as int, jj, ii),
                forall|jj: int|
                    0 <= jj < j ==> #[trigger] out@[i * w + jj]
                        == composited_at(*base, *overlay, ox as int, oy as int, jj, i as int),
                !base.alpha ==> forall|k: int| 0 <= k < out@.len() ==> #[trigger] out@[k].a == 255,
            decreases w - j,
        {
            proof {
                lemma_index(j as int, i as int, w as int, h as int);
            }
            let n = base.pixels.len();
            assert((i as int) * (w as int) + (j as int) < n);
            let under = base.pixels[i as usize * w as usize + j as usize];
            let p = if ox <= j && j - ox < ow && oy <= i && i - oy < oh {
                let (u, v) = (j - ox, i - oy);
                proof {
                    lemma_index(u as int, v as int, ow as int, oh as int);
                }
                let m = overlay.pixels.len();
                assert((v as int) * (ow as int) + (u as int) < m);
                blend_pixel(under, overlay.pixels[v as usize * ow as usize + u as usize], base.alpha)
            } else {
                under
            };
            let ghost before = out@;
            out.push(p);
            proof {
                assert forall|ii: int, jj: int| 0 <= ii < i && 0 <= jj < w implies #[trigger] out@[ii * w + jj]
                    == composited_at(*base, *overlay, ox as int, oy as int, jj, ii) by {
                    lemma_earlier_row(ii, jj, i as int, w as int);
                    assert(out@[ii * w + jj] == before[ii * w + jj]);
                }
                if !base.alpha {
                    assert(base.pixels@[i * w + j].a == 255);
                    assert(out@[out@.len() - 1].a == 255);
                }
            }
            j = j + 1;
        }
        assert((i as int + 1) * w as int == i as int * w as int + w as int) by (nonlinear_arith);
        i = i + 1;
    }
    assert(h as int * w as int == w as int * h as int) by (nonlinear_arith);
    PixelGrid { width: w, height: h, alpha: base.alpha, pixels: out }
}

proof fn lemma_block_source(x: int, k: int, n: int)
    requires
        0 <= x < k * n,
        0 < k,
    ensures
        0 <= x / k < n,
{
    assert(0 <= x / k < n) by (nonlinear_arith)
        requires
            0 <= x < k * n,
            0 < k,
    ;
}

/// The pixels of an `n` by `n` sequence scaled up to `target` a side.
pub open spec fn upscaled(pixels: Seq<Rgba>, n: int, target: int) -> Seq<Rgba> {
    let k = target / n;
    Seq::new((target * target) as nat, |q: int| pixels[((q / target) / k) * n + (q % target) / k])
}

/// Scales a square grid up to `target` pixels a side, `target` being a
/// multiple of its side: each pixel becomes a block of `target / side`
/// pixels a side, with no interpolation.
pub fn scale_nearest(grid: &PixelGrid, target: u32) -> (r: PixelGrid)
    requires
        grid.wf(),
        grid.width == grid.height,
        grid.width > 0,
        target % grid.width == 0,
        target as int * target as int <= usize::MAX,
    ensures
        r.wf(),
        r.width == target,
        r.height == target,
        r.alpha == grid.alpha,
        forall|xx: int, yy: int|
            0 <= xx < target && 0 <= yy < target ==> #[trigger] r.at(xx, yy)
                == grid.at(xx / (target / grid.width) as int, yy / (target / grid.width) as int),
        r.pixels@ == upscaled(grid.pixels@, grid.width as int, target as int),
{
    let n = grid.width;
    let k = target / n;
    assert(target as int == k as int * n as int) by (nonlinear_arith)
        requires
            target % n == 0,
            k == target / n,
            n > 0,
    ;
    if target == 0 {
        assert(0 * 0 == 0int);
        let empty: Vec<Rgba> = Vec::new();
        assert(empty@ =~= upscaled(grid.pixels@, n as int, 0));
        return PixelGrid { width: 0, height: 0, alpha: grid.alpha, pixels: empty };
    }
    assert(k > 0) by (nonlinear_arith)
        requires
            target as int == k as int * n as int,
            target > 0,
            n > 0,
    ;
    let mut out: Vec<Rgba> = Vec::new();
    let mut i: u32 = 0;
    while i < target
        invariant
            grid.wf(),
            n == grid.width,
            n == grid.height,
            n > 0,
            k > 0,
            target as int == k as int * n as int,
            k == target / grid.width,
            target as int * target as int <= usize::MAX,
            i <= target,
            out@.len() == i as int * target as int,
            forall|ii: int, jj: int|
                0 <= ii < i && 0 <= jj < target ==> #[trigger] out@[ii * target + jj]
                    == grid.at(jj / k as int, ii / k as int),
            !grid.alpha ==> forall|q: int| 0 <= q < out@.len() ==> #[trigger] out@[q].a == 255,
        decreases target - i,
    {
        let mut j: u32 = 0;
        while j < target
            invariant
                grid.wf(),
                n == grid.width,
                n == grid.height,
                n > 0,
                k > 0,
                target as int == k as int * n as int,
                k == target / grid.width,
                target as int * target as int <= usize::MAX,
                i < target,
                j <= target,
                out@.len() == i as int * target as int + j,
                forall|ii: int, jj: int|
                    0 <= ii < i && 0 <= jj < target ==> #[trigger] out@[ii * target + jj]
                        == grid.at(jj / k as int, ii / k as int),
                forall|jj: int|
                    0 <= jj < j ==> #[trigger] out@[i * target + jj] == grid.at(jj / k as int, i as int / k as int),
                !grid.alpha ==> forall|q: int| 0 <= q < out@.len() ==> #[trigger] out@[q].a == 255,
            decreases target - j,
        {
            let sx = j / k;
            let sy = i / k;
            proof {
                lemma_block_source(j as int, k as int, n as int);
                lemma_block_source(i as int, k as int, n as int);
                lemma_index(sx as int, sy as int, n as int, n as int);
                lemma_index(j as int, i as int, target as int, target as int);
            }
            let m = grid.pixels.len();
            assert((sy as int) * (n as int) + (sx as int) < m);
            let p = grid.pixels[sy as usize * n as usize + sx as usize];
            let ghost before = out@;
            out.push(p);
            proof {
                assert forall|ii: int, jj: int| 0 <= ii < i && 0 <= jj < target implies #[trigger] out@[ii
                    * target + jj] == grid.at(jj / k as int, ii / k as int) by {
                    lemma_earlier_row(ii, jj, i as int, target as int);
                    assert(out@[ii * target + jj] == before[ii * target + jj]);
                }
                if !grid.alpha {
                    assert(grid.pixels@[sy * n + sx].a == 255);
                    assert(out@[out@.len() - 1].a == 255);
                }
            }
            j = j + 1;
        }
        assert((i as int + 1) * target as int == i as int * target as int + target as int)
            by (nonlinear_arith);
        i = i + 1;
    }
    let ghost t = target as int;
    assert forall|q: int| 0 <= q < t * t implies #[trigger] out@[q] == upscaled(
        grid.pixels@,
        n as int,
        t,
    )[q] by {
        lemma_fundamental_div_mod(q, t);
        lemma_div_pos_is_pos(q, t);
        assert(q / t < t) by (nonlinear_arith)
            requires
                0 <= q < t * t,
                t > 0,
        ;
        assert(0 <= q % t < t);
        assert(out@[(q / t) * t + q % t] == grid.at((q % t) / k as int, (q / t) / k as int));
    }
    assert(out@ =~= upscaled(grid.pixels@, n as int, t));
    PixelGrid { width: target, height: target, alpha: grid.alpha, pixels: out }
}

/// Some pixel of `grid` is `p`.
pub open spec fn has_colour(grid: PixelGrid, p: Rgba) -> bool {
    exists|x: int, y: int| 0 <= x < grid.width && 0 <= y < grid.height && #[trigger] grid.at(x, y) == p
}

/// Scaling a side of `n` up to `k * n` gives a grid of `k * n` pixels a side
/// whose every pixel is a pixel of the source, the source pixel `(x, y)`
/// filling the `k` by `k` block that starts at `(k * x, k * y)`.
pub proof fn lemma_scaling(grid: PixelGrid, r: PixelGrid, k: int)
    requires
        grid.wf(),
        grid.width == grid.height,
        grid.width > 0,
        k > 0,
        r.width == k * grid.width,
        r.height == r.width,
        forall|xx: int, yy: int|
            0 <= xx < r.width && 0 <= yy < r.height ==> #[trigger] r.at(xx, yy)
                == grid.at(xx / (r.width / grid.width) as int, yy / (r.width / grid.width) as int),
    ensures
        forall|x: int, y: int, dx: int, dy: int|
            0 <= x < grid.width && 0 <= y < grid.height && 0 <= dx < k && 0 <= dy < k ==> #[trigger] r.at(
                k * x + dx,
                k * y + dy,
            ) == #[trigger] grid.at(x, y),
        forall|xx: int, yy: int|
            0 <= xx < r.width && 0 <= yy < r.height ==> has_colour(grid, #[trigger] r.at(xx, yy)),
{
    let n = grid.width as int;
    assert(r.width / grid.width == k) by (nonlinear_arith)
        requires
            r.width == k * n,
            n == grid.width,
            n > 0,
    ;
    assert forall|x: int, y: int, dx: int, dy: int|
        0 <= x < grid.width && 0 <= y < grid.height && 0 <= dx < k && 0 <= dy < k implies #[trigger] r.at(
        k * x + dx,
        k * y + dy,
    ) == #[trigger] grid.at(x, y) by {
        assert((k * x + dx) / k == x && (k * y + dy) / k == y && k * x + dx < k * n && k * y + dy < k * n)
            by (nonlinear_arith)
            requires
                0 <= x < n,
                0 <= y < n,
                0 <= dx < k,
                0 <= dy < k,
                k > 0,
        ;
    }
    assert forall|xx: int, yy: int| 0 <= xx < r.width && 0 <= yy < r.height implies has_colour(
        grid,
        #[trigger] r.at(xx, yy),
    ) by {
        lemma_block_source(xx, k, n);
        lemma_block_source(yy, k, n);
        let x = xx / k;
        let y = yy / k;
        assert(0 <= x < grid.width && 0 <= y < grid.height && r.at(xx, yy) == grid.at(x, y));
    }
}

/// Samples per pixel in the raw layout: four with alpha, three without.
pub open spec fn channels(alpha: bool) -> int {
    if alpha {
        4
    } else {
        3
    }
}

pub open spec fn sample(p: Rgba, c: int) -> u8 {
    if c == 0 {
        p.r
    } else if c == 1 {
        p.g
    } else if c == 2 {
        p.b
    } else {
        p.a
    }
}

/// The raw samples of a pixel sequence, pixel after pixel, each as red,
/// green, blue and, with alpha, alpha.
pub open spec fn raw_of(pixels: Seq<Rgba>, alpha: bool) -> Seq<u8> {
    let ch = channels(alpha);
    Seq::new((pixels.len() * ch) as nat, |q: int| sample(pixels[q / ch], q % ch))
}

/// The pixel sequence that raw samples describe; without alpha every pixel
/// is opaque.
pub open spec fn pixels_of(raw: Seq<u8>, alpha: bool) -> Seq<Rgba> {
    let ch = channels(alpha);
    Seq::new(
        (raw.len() as int / ch) as nat,
        |i: int|
            Rgba {
                r: raw[ch * i],
                g: raw[ch * i + 1],
                b: raw[ch * i + 2],
                a: if alpha { raw[ch * i + 3] } else { 255 },
            },
    )
}

/// Writes the grid's raw samples.
pub fn to_raw(grid: &PixelGrid) -> (r: Vec<u8>)
    ensures
        r@ == raw_of(grid.pixels@, grid.alpha),
{
    let mut out: Vec<u8> = Vec::new();
    let mut i: usize = 0;
    let ghost ch = channels(grid.alpha);
    while i < grid.pixels.len()
        invariant
            i <= grid.pixels@.len(),
            ch == channels(grid.alpha),
            out@ =~= Seq::new((i * ch) as nat, |q: int| sample(grid.pixels@[q / ch], q % ch)),
        decreases grid.pixels@.len() - i,
    {
        let p = grid.pixels[i];
        out.push(p.r);
        out.push(p.g);
        out.push(p.b);
        if grid.alpha {
            out.push(p.a);
        }
        i = i + 1;
    }
    out
}

/// Reads a `width` by `height` grid from raw samples; `None` where their
/// number is not that of such a grid.
pub fn from_raw(width: u32, height: u32, alpha: bool, raw: &Vec<u8>) -> (r: Option<PixelGrid>)
    ensures
        r.is_some() == (raw@.len() == width as int * height as int * channels(alpha)),
        r.is_some() ==> {
            let g = r.unwrap();
            &&& g.wf()
            &&& g.width == width
            &&& g.height == height
            &&& g.alpha == alpha
            &&& g.pixels@ == pixels_of(raw@, alpha)
        },
{
    let ch: usize = if alpha { 4 } else { 3 };
    let len = raw.len();
    assert(width as int * height as int <= u64::MAX) by (nonlinear_arith)
        requires
            width <= u32::MAX,
            height <= u32::MAX,
    ;
    let n: u64 = width as u64 * height as u64;
    if len % ch != 0 || (len / ch) as u64 != n {
        assert(raw@.len() != width as int * height as int * channels(alpha)) by (nonlinear_arith)
            requires
                len as int % (ch as int) != 0 || len as int / (ch as int) != n,
                n == width as int * height as int,
                ch == channels(alpha),
                ch > 0,
                len == raw@.len(),
        ;
        return None;
    }
    let count = len / ch;
    let mut out: Vec<Rgba> = Vec::new();
    let mut i: usize = 0;
    while i < count
        invariant
            count == len / ch,
            len == raw@.len(),
            len % ch == 0,
            ch == channels(alpha),
            i <= count,
            out@ =~= pixels_of(raw@, alpha).subrange(0, i as int),
            !alpha ==> forall|k: int| 0 <= k < out@.len() ==> #[trigger] out@[k].a == 255,
        decreases count - i,
    {
        let base = ch * i;
        let p = Rgba {
            r: raw[base],
            g: raw[base + 1],
            b: raw[base + 2],
            a: if alpha { raw[base + 3] } else { 255 },
        };
        out.push(p);
        i = i + 1;
    }
    assert(out@ =~= pixels_of(raw@, alpha));
    Some(PixelGrid { width, height, alpha, pixels: out })
}

/// The grid without its alpha channel: the same colours, every pixel opaque.
pub fn opaque(grid: &PixelGrid) -> (r: PixelGrid)
    requires
        grid.wf(),
    ensures
        r.wf(),
        r.width == grid.width,
        r.height == grid.height,
        !r.alpha,
        r.pixels@.len() == grid.pixels@.len(),
        forall|k: int|
            0 <= k < grid.pixels@.len() ==> #[trigger] r.pixels@[k] == (Rgba { a: 255, ..grid.pixels@[k] }),
{
    let mut out: Vec<Rgba> = Vec::new();
    let mut i: usize = 0;
    while i < grid.pixels.len()
        invariant
            i <= grid.pixels@.len(),
            out@.len() == i,
            forall|k: int| 0 <= k < i ==> #[trigger] out@[k] == (Rgba { a: 255, ..grid.pixels@[k] }),
        decreases grid.pixels@.len() - i,
    {
        let p = grid.pixels[i];
        out.push(Rgba { r: p.r, g: p.g, b: p.b, a: 255 });
        i = i + 1;
    }
    PixelGrid { width: grid.width, height: grid.height, alpha: false, pixels: out }
}

} // verus!
