//! Pixel-level fix-ups on RGBA byte buffers (four bytes per pixel: red,
//! green, blue, alpha): undoing premultiplied alpha after SVG rendering,
//! hard alpha for GIF, and padding ICO images to a centered square.

use vstd::prelude::*;

verus! {

/// A colour channel of premultiplied pixel data divided back by its alpha,
/// rounded to nearest: `(c * 255 + a / 2) / a`, kept to its low byte.
pub open spec fn unpremultiplied_channel(c: u8, a: u8) -> u8 {
    (((c as int) * 255 + (a as int) / 2) / (a as int)) as u8
}

/// The rounded premultiplication of a channel by alpha: the integer nearest
/// to `c * a / 255` (never a tie, as 255 is odd).
pub open spec fn premultiplied_channel(c: int, a: int) -> int {
    (2 * c * a + 255) / 510
}

/// `after` is `before` with premultiplied alpha undone: in every whole
/// pixel whose alpha is strictly between 0 and 255, each colour channel
/// becomes `unpremultiplied_channel`; alpha, fully clear and fully opaque
/// pixels, and bytes after the last whole pixel stay as they were.
pub open spec fn unpremultiplied(before: Seq<u8>, after: Seq<u8>) -> bool {
    &&& after.len() == before.len()
    &&& forall|p: int, k: int|
        0 <= p < before.len() / 4 && 0 <= k < 3 ==> {
            let a = before[4 * p + 3];
            #[trigger] after[4 * p + k] == if 0 < a && a < 255 {
                unpremultiplied_channel(before[4 * p + k], a)
            } else {
                before[4 * p + k]
            }
        }
    &&& forall|p: int| 0 <= p < before.len() / 4 ==> #[trigger] after[4 * p + 3] == before[4 * p + 3]
    &&& forall|i: int| 4 * (before.len() / 4) <= i < before.len() ==> #[trigger] after[i] == before[i]
}

/// Undoes premultiplied alpha in place (see `unpremultiplied`).
pub fn unpremultiply(data: &mut Vec<u8>)
    ensures
        unpremultiplied(old(data)@, final(data)@),
{
    let ghost orig = data@;
    let n = data.len();
    let pixels = n / 4;
    let mut p: usize = 0;
    while p < pixels
        invariant
            n == orig.len(),
            pixels == n / 4,
            data@.len() == n,
            p <= pixels,
            forall|q: int, k: int|
                0 <= q < p && 0 <= k < 3 ==> {
                    let a = orig[4 * q + 3];
                    #[trigger] data@[4 * q + k] == if 0 < a && a < 255 {
                        unpremultiplied_channel(orig[4 * q + k], a)
                    } else {
                        orig[4 * q + k]
                    }
                },
            forall|i: int| 4 * p <= i < n ==> #[trigger] data@[i] == orig[i],
            forall|q: int| 0 <= q < p ==> #[trigger] data@[4 * q + 3] == orig[4 * q + 3],
        decreases pixels - p,
    {
        let base = 4 * p;
        let a = data[base + 3];
        if a > 0 && a < 255 {
            let half = (a as u32) / 2;
            let r = data[base];
            let g = data[base + 1];
            let b = data[base + 2];
            data.set(base, (((r as u32) * 255 + half) / (a as u32)) as u8);
            data.set(base + 1, (((g as u32) * 255 + half) / (a as u32)) as u8);
            data.set(base + 2, (((b as u32) * 255 + half) / (a as u32)) as u8);
        }
        assert forall|i: int| 4 * (p + 1) <= i < n implies #[trigger] data@[i] == orig[i] by {}
        p += 1;
    }
}

/// The RGB bytes of RGBA data: each whole pixel's red, green and blue, its
/// alpha dropped (bytes after the last whole pixel are dropped too).
pub open spec fn rgb_of(rgba: Seq<u8>) -> Seq<u8> {
    Seq::new((rgba.len() / 4 * 3) as nat, |i: int| rgba[4 * (i / 3) + i % 3])
}

/// Drops the alpha byte of every pixel (see `rgb_of`).
pub fn drop_alpha(pixels: &Vec<u8>) -> (r: Vec<u8>)
    ensures
        r@ == rgb_of(pixels@),
{
    let n = pixels.len() / 4;
    let mut out: Vec<u8> = Vec::new();
    let mut p: usize = 0;
    while p < n
        invariant
            n == pixels@.len() / 4,
            pixels@.len() <= usize::MAX,
            p <= n,
            out@.len() == 3 * p,
            forall|i: int| 0 <= i < 3 * p ==> #[trigger] out@[i] == pixels@[4 * (i / 3) + i % 3],
        decreases n - p,
    {
        let base = 4 * p;
        out.push(pixels[base]);
        out.push(pixels[base + 1]);
        out.push(pixels[base + 2]);
        assert forall|i: int| 0 <= i < 3 * (p + 1) implies #[trigger] out@[i] == pixels@[4 * (i / 3) + i % 3] by {
            if i >= 3 * p {
                assert(i / 3 == p as int);
                assert(i % 3 == i - 3 * p);
            }
        }
        p += 1;
    }
    assert(out@ =~= rgb_of(pixels@));
    out
}

/// No colour channel exceeds its pixel's alpha, as in premultiplied data.
pub open spec fn is_premultiplied(d: Seq<u8>) -> bool {
    forall|p: int, k: int| 0 <= p < d.len() / 4 && 0 <= k < 3 ==> #[trigger] d[4 * p + k] <= d[4 * p + 3]
}

/// Undoing premultiplication on a premultiplied buffer loses nothing:
/// premultiplying each channel again by its (unchanged) alpha gives back
/// the buffer.
pub proof fn law_unpremultiply_round_trips(before: Seq<u8>, after: Seq<u8>)
    requires
        is_premultiplied(before),
        unpremultiplied(before, after),
    ensures
        forall|p: int| 0 <= p < before.len() / 4 ==> #[trigger] after[4 * p + 3] == before[4 * p + 3],
        forall|p: int, k: int|
            0 <= p < before.len() / 4 && 0 <= k < 3 ==> premultiplied_channel(
                #[trigger] after[4 * p + k] as int,
                after[4 * p + 3] as int,
            ) == before[4 * p + k] as int,
{
    assert forall|p: int, k: int| 0 <= p < before.len() / 4 && 0 <= k < 3 implies premultiplied_channel(
        #[trigger] after[4 * p + k] as int,
        after[4 * p + 3] as int,
    ) == before[4 * p + k] as int by {
        let a = before[4 * p + 3];
        let c = before[4 * p + k];
        assert(after[4 * p + 3] == a);
        assert(c <= a);
        if 0 < a && a < 255 {
            law_unpremultiply_is_lossless(c, a);
        } else if a == 0 {
            assert(c == 0);
            assert(after[4 * p + k] == c);
        } else {
            assert(after[4 * p + k] == c);
            assert((2 * (c as int) * 255 + 255) / 510 == c as int) by (nonlinear_arith)
                requires
                    0 <= c <= 255,
            ;
        }
    }
}

/// On premultiplied data (no channel above its alpha), undoing the
/// premultiplication loses nothing: the result fits a byte unchanged, and
/// premultiplying it again gives back the channel it started from.
pub proof fn law_unpremultiply_is_lossless(c: u8, a: u8)
    requires
        c <= a,
        0 < a < 255,
    ensures
        ((c as int) * 255 + (a as int) / 2) / (a as int) <= 255,
        unpremultiplied_channel(c, a) as int == ((c as int) * 255 + (a as int) / 2) / (a as int),
        premultiplied_channel(unpremultiplied_channel(c, a) as int, a as int) == c as int,
{
    let ci = c as int;
    let ai = a as int;
    let h = ai / 2;
    let u = (ci * 255 + h) / ai;
    assert(u * ai <= ci * 255 + h && ci * 255 + h < u * ai + ai) by (nonlinear_arith)
        requires
            ai > 0,
            u == (ci * 255 + h) / ai,
            ci >= 0,
            h >= 0,
    ;
    assert(0 <= h && 2 * h <= ai && ai <= 2 * h + 1);
    assert(u <= 255) by (nonlinear_arith)
        requires
            u * ai <= ci * 255 + h,
            ci <= ai,
            2 * h <= ai,
            ai > 0,
    ;
    assert(u >= 0) by (nonlinear_arith)
        requires
            ci * 255 + h < u * ai + ai,
            ci >= 0,
            h >= 0,
            ai > 0,
    ;
    let x = 2 * u * ai + 255;
    assert(510 * ci <= x && x < 510 * ci + 510) by (nonlinear_arith)
        requires
            u * ai <= ci * 255 + h,
            ci * 255 + h < u * ai + ai,
            x == 2 * u * ai + 255,
            2 * h <= ai,
            ai <= 2 * h + 1,
            ai < 255,
    ;
    assert(x / 510 == ci) by (nonlinear_arith)
        requires
            510 * ci <= x,
            x < 510 * ci + 510,
    ;
}

/// `after` is `before` with GIF's hard alpha applied: in every whole pixel,
/// alpha below 128 clears the pixel to all zeros, and any other alpha
/// becomes 255 with the colour kept.
pub open spec fn thresholded(before: Seq<u8>, after: Seq<u8>) -> bool {
    &&& after.len() == before.len()
    &&& forall|p: int, k: int|
        0 <= p < before.len() / 4 && 0 <= k < 4 ==> #[trigger] after[4 * p + k] == if before[4 * p
            + 3] < 128 {
            0u8
        } else if k == 3 {
            255u8
        } else {
            before[4 * p + k]
        }
}

/// Applies GIF's hard alpha in place (see `thresholded`); bytes after the
/// last whole pixel stay as they were.
pub fn threshold_alpha(data: &mut Vec<u8>)
    ensures
        thresholded(old(data)@, final(data)@),
        forall|i: int| 4 * (old(data)@.len() / 4) <= i < old(data)@.len() ==> #[trigger] final(data)@[i] == old(data)@[i],
{
    let ghost orig = data@;
    let n = data.len();
    let pixels = n / 4;
    let mut p: usize = 0;
    while p < pixels
        invariant
            n == orig.len(),
            pixels == n / 4,
            data@.len() == n,
            p <= pixels,
            forall|q: int, k: int|
                0 <= q < p && 0 <= k < 4 ==> #[trigger] data@[4 * q + k] == if orig[4 * q + 3] < 128 {
                    0u8
                } else if k == 3 {
                    255u8
                } else {
                    orig[4 * q + k]
                },
            forall|i: int| 4 * p <= i < n ==> #[trigger] data@[i] == orig[i],
        decreases pixels - p,
    {
        let base = 4 * p;
        if data[base + 3] < 128 {
            data.set(base, 0);
            data.set(base + 1, 0);
            data.set(base + 2, 0);
            data.set(base + 3, 0);
        } else {
            data.set(base + 3, 255);
        }
        assert forall|i: int| 4 * (p + 1) <= i < n implies #[trigger] data@[i] == orig[i] by {}
        p += 1;
    }
}

/// After the hard alpha, every pixel is fully clear or fully opaque, and
/// applying it again changes nothing.
pub proof fn law_threshold_is_binary_and_stable(before: Seq<u8>, after: Seq<u8>, again: Seq<u8>)
    requires
        thresholded(before, after),
        thresholded(after, again),
    ensures
        forall|p: int| 0 <= p < after.len() / 4 ==> #[trigger] after[4 * p + 3] == 0 || after[4 * p + 3] == 255,
        forall|p: int, k: int| 0 <= p < after.len() / 4 && 0 <= k < 4 ==> #[trigger] again[4 * p + k] == after[4 * p + k],
{
    assert forall|p: int| 0 <= p < after.len() / 4 implies #[trigger] after[4 * p + 3] == 0 || after[4 * p + 3] == 255 by {
        assert(after[4 * p + 3] == if before[4 * p + 3] < 128 { 0u8 } else { 255u8 });
    }
    assert forall|p: int, k: int| 0 <= p < after.len() / 4 && 0 <= k < 4 implies #[trigger] again[4 * p + k] == after[4 * p + k] by {
        assert(after[4 * p + 3] == if before[4 * p + 3] < 128 { 0u8 } else { 255u8 });
        assert(again[4 * p + k] == if after[4 * p + 3] < 128 {
            0u8
        } else if k == 3 {
            255u8
        } else {
            after[4 * p + k]
        });
        assert(after[4 * p + k] == if before[4 * p + 3] < 128 {
            0u8
        } else if k == 3 {
            255u8
        } else {
            before[4 * p + k]
        });
    }
}


/// What `image::imageops::overlay` leaves in an RGBA canvas (`bw` by `bh`)
/// after drawing an RGBA picture (`tw` by `th`) onto it with its top-left
/// corner at (`x`, `y`), alpha-blended.
pub uninterp spec fn overlaid(
    bottom: Seq<u8>,
    bw: u32,
    bh: u32,
    top: Seq<u8>,
    tw: u32,
    th: u32,
    x: i64,
    y: i64,
) -> Seq<u8>;

/// The index of byte `k` of pixel (`px`, `py`) in an RGBA image `w` wide,
/// stored row by row.
pub open spec fn byte_at(w: int, px: int, py: int, k: int) -> int {
    4 * (py * w + px) + k
}

/// Whether (`px`, `py`) lies in the `tw` by `th` rectangle at (`x`, `y`).
pub open spec fn inside(px: int, py: int, x: int, y: int, tw: int, th: int) -> bool {
    x <= px < x + tw && y <= py < y + th
}

/// Draws an RGBA picture onto an RGBA canvas with `image::imageops::overlay`,
/// the picture lying wholly within the canvas. Claims that the result is
/// `overlaid` of the arguments, that the canvas keeps its size, and, as the
/// function's source shows, that pixels outside the picture stay as they
/// were, a fully transparent picture pixel leaves the canvas pixel, and a
/// fully opaque one replaces it. How partly transparent pixels blend (in
/// floating point) is left to the name.
#[verifier::external_body]
fn overlay_rgba(bottom: Vec<u8>, bw: u32, bh: u32, top: Vec<u8>, tw: u32, th: u32, x: i64, y: i64) -> (r: Vec<u8>)
    requires
        bottom@.len() == 4 * (bw as int) * (bh as int),
        top@.len() == 4 * (tw as int) * (th as int),
        0 <= x,
        x + tw <= bw,
        0 <= y,
        y + th <= bh,
    ensures
        r@ == overlaid(bottom@, bw, bh, top@, tw, th, x, y),
        r@.len() == bottom@.len(),
        forall|px: int, py: int, k: int|
            0 <= px < bw && 0 <= py < bh && 0 <= k < 4 && !inside(px, py, x as int, y as int, tw as int, th as int)
                ==> #[trigger] r@[byte_at(bw as int, px, py, k)] == bottom@[byte_at(bw as int, px, py, k)],
        forall|px: int, py: int, k: int|
            inside(px, py, x as int, y as int, tw as int, th as int) && 0 <= k < 4 && top@[byte_at(
                tw as int,
                px - x,
                py - y,
                3,
            )] == 255 ==> #[trigger] r@[byte_at(bw as int, px, py, k)] == top@[byte_at(
                tw as int,
                px - x,
                py - y,
                k,
            )],
        forall|px: int, py: int, k: int|
            inside(px, py, x as int, y as int, tw as int, th as int) && 0 <= k < 4 && top@[byte_at(
                tw as int,
                px - x,
                py - y,
                3,
            )] == 0 ==> #[trigger] r@[byte_at(bw as int, px, py, k)] == bottom@[byte_at(bw as int, px, py, k)],
{
    let mut canvas = image::RgbaImage::from_raw(bw, bh, bottom).unwrap();
    let picture = image::RgbaImage::from_raw(tw, th, top).unwrap();
    image::imageops::overlay(&mut canvas, &picture, x, y);
    canvas.into_raw()
}

proof fn lemma_byte_in_range(w: int, h: int, px: int, py: int, k: int)
    requires
        0 <= px < w,
        0 <= py < h,
        0 <= k < 4,
    ensures
        0 <= byte_at(w, px, py, k) < 4 * w * h,
{
    assert(0 <= py * w + px < w * h) by (nonlinear_arith)
        requires
            0 <= px < w,
            0 <= py < h,
    ;
    assert(4 * (w * h) == 4 * w * h) by (nonlinear_arith);
}

/// The offset that centers a run of `len` in `side`: the left margin, with
/// any odd pixel going to the right.
pub open spec fn centered_offset(side: int, len: int) -> int {
    (side - len) / 2
}

/// The side of the square an ICO image is padded to.
pub open spec fn square_side(w: u32, h: u32) -> u32 {
    if w >= h { w } else { h }
}

/// What byte `k` of picture pixel (`i`, `j`) becomes on a clear canvas: the
/// picture's own byte where it is fully opaque, 0 where it is fully clear,
/// and `blended` (what the blending gave) otherwise.
pub open spec fn pad_pixel_byte(picture: Seq<u8>, w: int, i: int, j: int, k: int, blended: u8) -> u8 {
    let a = picture[byte_at(w, i, j, 3)];
    if a == 255 {
        picture[byte_at(w, i, j, k)]
    } else if a == 0 {
        0
    } else {
        blended
    }
}

/// A fully clear RGBA canvas of `n` bytes.
pub open spec fn clear_canvas(n: int) -> Seq<u8> {
    Seq::new(n as nat, |i: int| 0u8)
}

/// Pads an RGBA image to a square for ICO: a square image is returned as it
/// is; otherwise it is drawn, centered, onto a fully clear canvas whose side
/// is the longer side. Returns the pixels and the side.
pub fn pad_to_square(pixels: Vec<u8>, w: u32, h: u32) -> (r: (Vec<u8>, u32))
    requires
        pixels@.len() == 4 * (w as int) * (h as int),
        4 * (square_side(w, h) as int) * (square_side(w, h) as int) <= usize::MAX,
    ensures
        w == h ==> r.0@ == pixels@ && r.1 == w,
        w != h ==> r.1 == square_side(w, h) && r.0@ == overlaid(
            clear_canvas(4 * (r.1 as int) * (r.1 as int)),
            r.1,
            r.1,
            pixels@,
            w,
            h,
            centered_offset(r.1 as int, w as int) as i64,
            centered_offset(r.1 as int, h as int) as i64,
        ),
        w != h ==> forall|px: int, py: int, k: int|
            0 <= px < r.1 && 0 <= py < r.1 && 0 <= k < 4 && !inside(
                px,
                py,
                centered_offset(r.1 as int, w as int),
                centered_offset(r.1 as int, h as int),
                w as int,
                h as int,
            ) ==> #[trigger] r.0@[byte_at(r.1 as int, px, py, k)] == 0,
        w != h ==> forall|px: int, py: int, k: int|
            inside(
                px,
                py,
                centered_offset(r.1 as int, w as int),
                centered_offset(r.1 as int, h as int),
                w as int,
                h as int,
            ) && 0 <= k < 4 ==> #[trigger] r.0@[byte_at(r.1 as int, px, py, k)] == pad_pixel_byte(
                pixels@,
                w as int,
                px - centered_offset(r.1 as int, w as int),
                py - centered_offset(r.1 as int, h as int),
                k,
                r.0@[byte_at(r.1 as int, px, py, k)],
            ),
{
    if w == h {
        return (pixels, w);
    }
    let side: u32 = if w >= h { w } else { h };
    assert(4 * (side as int) <= 4 * (side as int) * (side as int)) by (nonlinear_arith)
        requires
            side >= 1,
    ;
    let n: usize = 4 * (side as usize) * (side as usize);
    let mut canvas: Vec<u8> = Vec::new();
    let mut i: usize = 0;
    while i < n
        invariant
            i <= n,
            canvas@ == clear_canvas(i as int),
        decreases n - i,
    {
        canvas.push(0u8);
        assert(canvas@ =~= clear_canvas(i + 1));
        i += 1;
    }
    let x: i64 = ((side - w) / 2) as i64;
    let y: i64 = ((side - h) / 2) as i64;
    let ghost clear = canvas@;
    let ghost picture = pixels@;
    let out = overlay_rgba(canvas, side, side, pixels, w, h, x, y);
    proof {
        let s = side as int;
        assert forall|px: int, py: int, k: int|
            0 <= px < s && 0 <= py < s && 0 <= k < 4 && !inside(px, py, x as int, y as int, w as int, h as int)
            implies #[trigger] out@[byte_at(s, px, py, k)] == 0 by {
            lemma_byte_in_range(s, s, px, py, k);
        }
        assert forall|px: int, py: int, k: int|
            inside(px, py, x as int, y as int, w as int, h as int) && 0 <= k < 4 implies #[trigger] out@[byte_at(s, px, py, k)]
                == pad_pixel_byte(picture, w as int, px - x, py - y, k, out@[byte_at(s, px, py, k)]) by {
            lemma_byte_in_range(s, s, px, py, k);
        }
    }
    (out, side)
}

/// The padded image sits centered: its left and right margins (and its top
/// and bottom ones) differ by at most one pixel, the extra one on the right
/// (or bottom).
pub proof fn law_padding_is_centered(side: int, len: int)
    requires
        0 <= len <= side,
    ensures
        centered_offset(side, len) >= 0,
        side - len - centered_offset(side, len) == centered_offset(side, len)
            || side - len - centered_offset(side, len) == centered_offset(side, len) + 1,
{
}

} // verus!
