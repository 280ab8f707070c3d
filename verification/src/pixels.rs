//! Pixel-format conversions: premultiplied RGBA to the framebuffer's
//! `0x00RRGGBB` word, and straight/premultiplied RGBA8 buffers both ways.

use vstd::prelude::*;

verus! {

/// The smaller of a value and 255.
pub open spec fn clamp_255(x: int) -> int {
    if x > 255 {
        255
    } else {
        x
    }
}

/// The `0x00RRGGBB` word of a premultiplied RGBA pixel: fully transparent is
/// black; opaque packs the channels as they are; otherwise each channel is
/// un-premultiplied (`c * 255 / a`, at most 255).
pub open spec fn premul_pixel_spec(r: u8, g: u8, b: u8, a: u8) -> int {
    if a == 0 {
        0
    } else if a == 255 {
        r * 65536 + g * 256 + b
    } else {
        clamp_255(r * 255 / a as int) * 65536 + clamp_255(g * 255 / a as int) * 256 + clamp_255(b * 255 / a as int)
    }
}

/// Pack three channels (each at most 255) into `0x00RRGGBB`.
fn pack_rgb(r: u32, g: u32, b: u32) -> (w: u32)
    requires
        r <= 255,
        g <= 255,
        b <= 255,
    ensures
        w == r * 65536 + g * 256 + b,
{
    assert((r << 16u32) | (g << 8u32) | b == r * 65536 + g * 256 + b) by (bit_vector)
        requires
            r <= 255,
            g <= 255,
            b <= 255,
    ;
    (r << 16u32) | (g << 8u32) | b
}

/// Convert a premultiplied RGBA pixel to the framebuffer's `0x00RRGGBB`
/// format. Opaque pixels are packed directly; semi-transparent pixels are
/// un-premultiplied first so the colour survives; fully transparent pixels
/// collapse to black.
pub fn premul_rgba_to_u32(r: u8, g: u8, b: u8, a: u8) -> (w: u32)
    ensures
        w == premul_pixel_spec(r, g, b, a),
{
    if a == 0 {
        return 0;
    }
    if a == 255 {
        return pack_rgb(r as u32, g as u32, b as u32);
    }
    let a32 = a as u32;
    let r2 = (r as u32 * 255) / a32;
    let g2 = (g as u32 * 255) / a32;
    let b2 = (b as u32 * 255) / a32;
    let r3 = if r2 < 255 { r2 } else { 255 };
    let g3 = if g2 < 255 { g2 } else { 255 };
    let b3 = if b2 < 255 { b2 } else { 255 };
    pack_rgb(r3, g3, b3)
}

/// Channel `c` (0..4) of pixel `p` premultiplied: alpha stays, a colour
/// channel is scaled by `alpha / 255` (rounding down).
pub open spec fn premultiplied_byte(s: Seq<u8>, p: int, c: int) -> u8 {
    let a = s[4 * p + 3];
    if c == 3 {
        a
    } else {
        (s[4 * p + c] * a / 255) as u8
    }
}

/// Channel `c` (0..4) of pixel `p` un-premultiplied: a transparent pixel
/// becomes all zero; otherwise alpha stays and a colour channel becomes
/// `c * 255 / alpha`, at most 255.
pub open spec fn unpremultiplied_byte(s: Seq<u8>, p: int, c: int) -> u8 {
    let a = s[4 * p + 3];
    if a == 0 {
        0
    } else if c == 3 {
        a
    } else {
        clamp_255(s[4 * p + c] * 255 / a as int) as u8
    }
}

/// The premultiplied form of the whole pixels of straight RGBA bytes `s`
/// (a trailing partial pixel is dropped).
pub open spec fn premultiply_spec(s: Seq<u8>) -> Seq<u8> {
    Seq::new(((s.len() / 4) * 4) as nat, |i: int| premultiplied_byte(s, i / 4, i % 4))
}

/// The straight form of the whole pixels of premultiplied RGBA bytes `s`
/// (a trailing partial pixel is dropped).
pub open spec fn unpremultiply_spec(s: Seq<u8>) -> Seq<u8> {
    Seq::new(((s.len() / 4) * 4) as nat, |i: int| unpremultiplied_byte(s, i / 4, i % 4))
}

/// Byte `c` of pixel `p` sits at `4 * p + c`.
proof fn lemma_pixel_index(p: int, c: int)
    requires
        0 <= p,
        0 <= c < 4,
    ensures
        (4 * p + c) / 4 == p,
        (4 * p + c) % 4 == c,
{
    vstd::arithmetic::div_mod::lemma_fundamental_div_mod_converse(4 * p + c, 4, p, c);
}

/// Pixel `p` of a buffer of `len / 4` whole pixels lies inside it.
proof fn lemma_pixel_in_bounds(p: int, len: int)
    requires
        0 <= p < len / 4,
        0 <= len,
    ensures
        4 * p + 3 < len,
{
    vstd::arithmetic::div_mod::lemma_fundamental_div_mod(len, 4);
    vstd::arithmetic::div_mod::lemma_mod_bound(len, 4);
}

/// The product of two bytes, and its quotient by 255, stay small.
proof fn lemma_byte_product(c: int, a: int)
    requires
        0 <= c <= 255,
        0 <= a <= 255,
    ensures
        0 <= c * a <= 65025,
        (c * a) / 255 <= 255,
{
    assert(0 <= c * a <= 65025) by (nonlinear_arith)
        requires
            0 <= c <= 255,
            0 <= a <= 255,
    ;
    vstd::arithmetic::div_mod::lemma_div_is_ordered(c * a, 65025, 255);
}

/// Convert straight-alpha RGBA8 bytes to premultiplied RGBA8: alpha is
/// unchanged, each colour channel is scaled by `alpha / 255`.
pub fn premultiply_rgba8(rgba: &[u8]) -> (out: Vec<u8>)
    ensures
        out@ == premultiply_spec(rgba@),
{
    let len = rgba.len();
    let n = len / 4;
    let mut out: Vec<u8> = Vec::new();
    let mut p: usize = 0;
    while p < n
        invariant
            p <= n,
            n == rgba@.len() / 4,
            len == rgba@.len(),
            out@.len() == 4 * p,
            forall|i: int| 0 <= i < 4 * p ==> #[trigger] out@[i] == premultiplied_byte(rgba@, i / 4, i % 4),
        decreases n - p,
    {
        proof {
            lemma_pixel_in_bounds(p as int, rgba@.len() as int);
        }
        let base = 4 * p;
        let r = rgba[base];
        let g = rgba[base + 1];
        let b = rgba[base + 2];
        let a = rgba[base + 3];
        let a32 = a as u32;
        proof {
            lemma_byte_product(r as int, a as int);
            lemma_byte_product(g as int, a as int);
            lemma_byte_product(b as int, a as int);
        }
        out.push(((r as u32 * a32) / 255) as u8);
        out.push(((g as u32 * a32) / 255) as u8);
        out.push(((b as u32 * a32) / 255) as u8);
        out.push(a);
        proof {
            assert forall|i: int| 0 <= i < 4 * (p + 1) implies #[trigger] out@[i] == premultiplied_byte(rgba@, i / 4, i % 4) by {
                if i >= 4 * p {
                    lemma_pixel_index(p as int, i - 4 * p);
                }
            }
        }
        p = p + 1;
    }
    proof {
        assert(out@ =~= premultiply_spec(rgba@));
    }
    out
}

/// Convert premultiplied RGBA8 bytes back to straight alpha: a transparent
/// pixel becomes all zero; otherwise each colour channel becomes
/// `c * 255 / alpha`, at most 255.
pub fn unpremultiply_rgba8(rgba: &[u8]) -> (out: Vec<u8>)
    ensures
        out@ == unpremultiply_spec(rgba@),
{
    let len = rgba.len();
    let n = len / 4;
    let mut out: Vec<u8> = Vec::new();
    let mut p: usize = 0;
    while p < n
        invariant
            p <= n,
            n == rgba@.len() / 4,
            len == rgba@.len(),
            out@.len() == 4 * p,
            forall|i: int| 0 <= i < 4 * p ==> #[trigger] out@[i] == unpremultiplied_byte(rgba@, i / 4, i % 4),
        decreases n - p,
    {
        proof {
            lemma_pixel_in_bounds(p as int, rgba@.len() as int);
        }
        let base = 4 * p;
        let a = rgba[base + 3];
        if a == 0 {
            out.push(0);
            out.push(0);
            out.push(0);
            out.push(0);
        } else {
            let a32 = a as u32;
            let r = (rgba[base] as u32 * 255) / a32;
            let g = (rgba[base + 1] as u32 * 255) / a32;
            let b = (rgba[base + 2] as u32 * 255) / a32;
            out.push(if r < 255 { r as u8 } else { 255 });
            out.push(if g < 255 { g as u8 } else { 255 });
            out.push(if b < 255 { b as u8 } else { 255 });
            out.push(a);
        }
        proof {
            assert forall|i: int| 0 <= i < 4 * (p + 1) implies #[trigger] out@[i] == unpremultiplied_byte(rgba@, i / 4, i % 4) by {
                if i >= 4 * p {
                    lemma_pixel_index(p as int, i - 4 * p);
                }
            }
        }
        p = p + 1;
    }
    proof {
        assert(out@ =~= unpremultiply_spec(rgba@));
    }
    out
}

/// Fully opaque pixels survive premultiplying unchanged, and premultiplying
/// then un-premultiplying them gives the original bytes back.
pub proof fn lemma_opaque_round_trip(s: Seq<u8>)
    requires
        s.len() % 4 == 0,
        forall|p: int| 0 <= p < s.len() / 4 ==> #[trigger] s[4 * p + 3] == 255,
    ensures
        premultiply_spec(s) == s,
        unpremultiply_spec(premultiply_spec(s)) == s,
{
    let m = premultiply_spec(s);
    vstd::arithmetic::div_mod::lemma_fundamental_div_mod(s.len() as int, 4);
    assert forall|i: int| 0 <= i < s.len() implies #[trigger] m[i] == s[i] by {
        vstd::arithmetic::div_mod::lemma_fundamental_div_mod(i, 4);
        vstd::arithmetic::div_mod::lemma_mod_bound(i, 4);
        let p = i / 4;
        assert(0 <= p < s.len() / 4) by {
            vstd::arithmetic::div_mod::lemma_div_is_ordered(i, s.len() as int - 1, 4);
        }
        assert(s[4 * p + 3] == 255);
        assert(4 * p + i % 4 == i);
        let c = s[i];
        assert(c * 255 / 255 == c) by {
            vstd::arithmetic::div_mod::lemma_fundamental_div_mod_converse(c * 255, 255, c as int, 0);
        }
    }
    assert(m =~= s);
    let u = unpremultiply_spec(m);
    assert forall|i: int| 0 <= i < s.len() implies #[trigger] u[i] == s[i] by {
        vstd::arithmetic::div_mod::lemma_fundamental_div_mod(i, 4);
        vstd::arithmetic::div_mod::lemma_mod_bound(i, 4);
        let p = i / 4;
        assert(0 <= p < s.len() / 4) by {
            vstd::arithmetic::div_mod::lemma_div_is_ordered(i, s.len() as int - 1, 4);
        }
        assert(s[4 * p + 3] == 255);
        assert(4 * p + i % 4 == i);
        let c = s[i];
        assert(c * 255 / 255 == c) by {
            vstd::arithmetic::div_mod::lemma_fundamental_div_mod_converse(c * 255, 255, c as int, 0);
        }
    }
    assert(u =~= s);
}

/// The smaller of two integers.
pub open spec fn min_of(a: int, b: int) -> int {
    if a <= b {
        a
    } else {
        b
    }
}

/// The crop rectangle `(x, y, w, h)` clamped to an `iw` by `ih` image: the
/// corner moves inside the image and the size shrinks to what fits.
pub open spec fn clamp_rect(iw: int, ih: int, x0: int, y0: int, w: int, h: int) -> (int, int, int, int) {
    let x = min_of(x0, iw);
    let y = min_of(y0, ih);
    (x, y, min_of(w, iw - x), min_of(h, ih - y))
}

/// The RGBA8 bytes of the clamped crop of an `iw`-wide image `src`, row by
/// row.
pub open spec fn crop_spec(src: Seq<u8>, iw: int, ih: int, x0: int, y0: int, w: int, h: int) -> Seq<u8> {
    let (x, y, cw, ch) = clamp_rect(iw, ih, x0, y0, w, h);
    Seq::new(
        (ch * cw * 4) as nat,
        |i: int| src[((y + i / (cw * 4)) * iw + x) * 4 + i % (cw * 4)],
    )
}

/// A byte of a row of the crop lies inside the image.
proof fn lemma_crop_index(iw: int, ih: int, x: int, cw: int, r: int, k: int)
    requires
        0 <= r < ih,
        0 <= x,
        x + cw <= iw,
        0 <= k < cw * 4,
    ensures
        0 <= (r * iw + x) * 4 + k < iw * ih * 4,
{
    assert(0 <= (r * iw + x) * 4 + k < iw * ih * 4) by (nonlinear_arith)
        requires
            0 <= r < ih,
            0 <= x,
            x + cw <= iw,
            0 <= k < cw * 4,
    ;
}

/// How much of a run of `len` starting at `start` lies inside `0..size`.
pub open spec fn span_inside(start: int, len: int, size: int) -> int {
    if start >= size {
        0
    } else if len <= size - start {
        len
    } else {
        size - start
    }
}

/// Whatever the selection, the crop is the part of it that lies inside the
/// image: [`span_inside`] columns (the selection's width, cut at the right
/// edge; none when it starts at or past the edge) by as many rows as fit
/// below its top edge, and byte `k` of
/// pixel `(c, r)` of the crop is byte `k` of pixel `(x0 + c, y0 + r)` of the
/// image.
pub proof fn lemma_crop_clips(src: Seq<u8>, iw: int, ih: int, x0: int, y0: int, w: int, h: int)
    requires
        0 <= x0,
        0 <= y0,
        0 <= w,
        0 <= h,
        0 <= iw,
        0 <= ih,
        src.len() == iw * ih * 4,
    ensures
        crop_spec(src, iw, ih, x0, y0, w, h).len() == span_inside(x0, w, iw) * span_inside(y0, h, ih) * 4,
        forall|r: int, c: int, k: int|
            0 <= r < span_inside(y0, h, ih) && 0 <= c < span_inside(x0, w, iw) && 0 <= k < 4
                ==> #[trigger] crop_spec(src, iw, ih, x0, y0, w, h)[(r * span_inside(x0, w, iw) + c) * 4
                + k] == src[((y0 + r) * iw + x0 + c) * 4 + k],
{
    let out = crop_spec(src, iw, ih, x0, y0, w, h);
    let cw = span_inside(x0, w, iw);
    let ch = span_inside(y0, h, ih);
    let (x, y, cw2, ch2) = clamp_rect(iw, ih, x0, y0, w, h);
    assert(cw2 == cw && ch2 == ch);
    assert(ch * cw * 4 == cw * ch * 4) by (nonlinear_arith);
    assert forall|r: int, c: int, k: int|
        0 <= r < ch && 0 <= c < cw && 0 <= k < 4 implies #[trigger] out[(r * cw + c) * 4 + k] == src[((
        y0 + r) * iw + x0 + c) * 4 + k] by {
        assert(x == x0 && y == y0);
        let i = (r * cw + c) * 4 + k;
        assert(i == r * (cw * 4) + (c * 4 + k)) by (nonlinear_arith)
            requires
                i == (r * cw + c) * 4 + k,
        ;
        assert(0 <= c * 4 + k < cw * 4);
        vstd::arithmetic::div_mod::lemma_fundamental_div_mod_converse(i, cw * 4, r, c * 4 + k);
        assert(0 <= i < cw * ch * 4) by (nonlinear_arith)
            requires
                i == r * (cw * 4) + (c * 4 + k),
                0 <= r < ch,
                0 <= c * 4 + k < cw * 4,
        ;
    }
}

/// A selection that fits inside the image is cut out exactly: `w * h`
/// pixels, and byte `k` of pixel `(c, r)` of the crop is byte `k` of pixel
/// `(x0 + c, y0 + r)` of the image.
pub proof fn lemma_crop_fits(src: Seq<u8>, iw: int, ih: int, x0: int, y0: int, w: int, h: int)
    requires
        0 <= x0,
        0 <= y0,
        0 <= w,
        0 <= h,
        x0 + w <= iw,
        y0 + h <= ih,
        src.len() == iw * ih * 4,
    ensures
        crop_spec(src, iw, ih, x0, y0, w, h).len() == w * h * 4,
        forall|r: int, c: int, k: int|
            0 <= r < h && 0 <= c < w && 0 <= k < 4 ==> #[trigger] crop_spec(src, iw, ih, x0, y0, w, h)[(r
                * w + c) * 4 + k] == src[((y0 + r) * iw + x0 + c) * 4 + k],
{
    lemma_crop_clips(src, iw, ih, x0, y0, w, h);
    assert(span_inside(x0, w, iw) == w && span_inside(y0, h, ih) == h);
}

/// Crop an axis-aligned rectangle out of an `img_w` by `img_h` straight
/// RGBA8 image, row by row. The corner and the size are clamped to the image
/// so a selection that overhangs it never reads out of bounds.
pub fn crop_rgba8(src: &[u8], img_w: u32, img_h: u32, x0: u32, y0: u32, w: u32, h: u32) -> (out: Vec<u8>)
    requires
        src@.len() == img_w * img_h * 4,
    ensures
        out@ == crop_spec(src@, img_w as int, img_h as int, x0 as int, y0 as int, w as int, h as int),
        out@.len() == span_inside(x0 as int, w as int, img_w as int) * span_inside(y0 as int, h as int, img_h as int) * 4,
        forall|r: int, c: int, k: int|
            0 <= r < span_inside(y0 as int, h as int, img_h as int) && 0 <= c < span_inside(x0 as int, w as int, img_w as int)
                && 0 <= k < 4 ==> #[trigger] out@[(r * span_inside(x0 as int, w as int, img_w as int) + c) * 4 + k]
                == src@[((y0 + r) * img_w + x0 + c) * 4 + k],
        x0 + w <= img_w && y0 + h <= img_h ==> {
            &&& out@.len() == w * h * 4
            &&& forall|r: int, c: int, k: int|
                0 <= r < h && 0 <= c < w && 0 <= k < 4 ==> #[trigger] out@[(r * w + c) * 4 + k] == src@[((
                    y0 + r) * img_w + x0 + c) * 4 + k]
        },
{
    proof {
        lemma_crop_clips(src@, img_w as int, img_h as int, x0 as int, y0 as int, w as int, h as int);
        if x0 + w <= img_w && y0 + h <= img_h {
            lemma_crop_fits(src@, img_w as int, img_h as int, x0 as int, y0 as int, w as int, h as int);
        }
    }
    let x: u32 = if x0 <= img_w { x0 } else { img_w };
    let y: u32 = if y0 <= img_h { y0 } else { img_h };
    let cw: u32 = if w <= img_w - x { w } else { img_w - x };
    let ch: u32 = if h <= img_h - y { h } else { img_h - y };
    let ghost spec = crop_spec(src@, img_w as int, img_h as int, x0 as int, y0 as int, w as int, h as int);
    let mut out: Vec<u8> = Vec::new();
    if cw == 0 || ch == 0 {
        proof {
            assert(ch * cw * 4 == 0) by (nonlinear_arith)
                requires
                    cw == 0 || ch == 0,
            ;
            assert(out@ =~= spec);
        }
        return out;
    }
    let total = src.len();
    proof {
        assert((cw as int) * 4 <= total) by (nonlinear_arith)
            requires
                cw <= img_w,
                0 < ch <= img_h,
                total == img_w * img_h * 4,
        ;
    }
    let iw = img_w as usize;
    let row_bytes = cw as usize * 4;
    let ghost rb = row_bytes as int;
    let mut row: usize = 0;
    while row < ch as usize
        invariant
            row <= ch,
            0 < ch <= img_h - y,
            0 < cw <= img_w - x,
            x <= img_w,
            y <= img_h,
            iw == img_w,
            rb == row_bytes,
            row_bytes == cw * 4,
            total == src@.len(),
            src@.len() == img_w * img_h * 4,
            (x as int, y as int, cw as int, ch as int) == clamp_rect(img_w as int, img_h as int, x0 as int, y0 as int, w as int, h as int),
            out@.len() == row * rb,
            forall|i: int| 0 <= i < row * rb ==> #[trigger] out@[i] == src@[((y + i / rb) * img_w + x) * 4 + i % rb],
        decreases ch - row,
    {
        let mut k: usize = 0;
        while k < row_bytes
            invariant
                row < ch,
                k <= row_bytes,
                0 < ch <= img_h - y,
                0 < cw <= img_w - x,
                x <= img_w,
                y <= img_h,
                iw == img_w,
                rb == row_bytes,
                row_bytes == cw * 4,
                total == src@.len(),
                src@.len() == img_w * img_h * 4,
                out@.len() == row * rb + k,
                forall|i: int| 0 <= i < row * rb + k ==> #[trigger] out@[i] == src@[((y + i / rb) * img_w + x) * 4 + i % rb],
            decreases row_bytes - k,
        {
            proof {
                lemma_crop_index(img_w as int, img_h as int, x as int, cw as int, y + row, k as int);
                vstd::arithmetic::div_mod::lemma_fundamental_div_mod_converse(row * rb + k, rb, row as int, k as int);
            }
            let idx = ((y as usize + row) * iw + x as usize) * 4 + k;
            out.push(src[idx]);
            proof {
                assert(row * rb + k + 1 == row * rb + (k + 1));
            }
            k = k + 1;
        }
        proof {
            assert((row + 1) * rb == row * rb + rb) by (nonlinear_arith);
        }
        row = row + 1;
    }
    proof {
        assert(ch * cw * 4 == ch * rb) by (nonlinear_arith)
            requires
                rb == cw * 4,
        ;
        assert(out@ =~= spec);
    }
    out
}

} // verus!
