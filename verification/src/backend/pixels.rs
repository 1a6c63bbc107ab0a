//! Software drawing on RGBA8 surfaces: blending a pixel, filling and
//! clearing rectangles, cutting a rectangle out of an image and scoring how
//! much an image shows.
//!
//! A surface of `width` x `height` pixels is stored row by row, four bytes
//! per pixel; pixel (x, y) starts at byte `(y * width + x) * 4`. Pixels that
//! fall outside the surface, or whose bytes lie past the end of the buffer,
//! are left alone.
use vstd::prelude::*;
use vstd::arithmetic::div_mod::{lemma_fundamental_div_mod, lemma_fundamental_div_mod_converse, lemma_mod_pos_bound};

verus! {

/// `src` drawn over `dst` with coverage `alpha` (0 to 255).
pub open spec fn blend_channel(src: u8, dst: u8, alpha: u8) -> u8 {
    ((src * alpha + dst * (255 - alpha)) / 255) as u8
}

/// The column of the pixel byte `i` belongs to.
pub open spec fn pix_x(width: u32, i: int) -> int {
    (i / 4) % (width as int)
}

/// The row of the pixel byte `i` belongs to.
pub open spec fn pix_y(width: u32, i: int) -> int {
    (i / 4) / (width as int)
}

/// Pixel (px, py) is on a `width` x `height` surface (both at most
/// `i32::MAX`) and its four bytes lie within `len`.
pub open spec fn on_surface(len: int, width: u32, height: u32, px: int, py: int) -> bool {
    &&& width <= i32::MAX && height <= i32::MAX
    &&& 0 <= px < width && 0 <= py < height
    &&& (py * width + px) * 4 + 3 < len
}

/// Byte `i` of `buf` after blending `rgba` over its pixel: the colour
/// channels are mixed by the alpha of `rgba`, the alpha becomes opaque.
pub open spec fn blended(buf: Seq<u8>, i: int, rgba: [u8; 4]) -> u8 {
    if i % 4 == 3 {
        255
    } else {
        blend_channel(rgba@[i % 4], buf[i], rgba@[3])
    }
}

/// Byte `i` belongs to a pixel on the surface inside columns `x0..x1` and
/// rows `y0..y1`.
pub open spec fn rect_covers(len: int, width: u32, height: u32, x0: int, x1: int, y0: int, y1: int, i: int) -> bool {
    &&& width > 0
    &&& x0 <= pix_x(width, i) < x1
    &&& y0 <= pix_y(width, i) < y1
    &&& on_surface(len, width, height, pix_x(width, i), pix_y(width, i))
}

/// `buf` with `rgba` blended over pixel (x, y).
pub open spec fn blend_at(buf: Seq<u8>, width: u32, height: u32, x: int, y: int, rgba: [u8; 4]) -> Seq<u8> {
    Seq::new(
        buf.len(),
        |i: int|
            if rect_covers(buf.len() as int, width, height, x, x + 1, y, y + 1, i) {
                blended(buf, i, rgba)
            } else {
                buf[i]
            },
    )
}

/// `buf` with `rgba` blended over every pixel in columns `x0..x1`, rows
/// `y0..y1`.
pub open spec fn fill_rect(buf: Seq<u8>, width: u32, height: u32, x0: int, x1: int, y0: int, y1: int, rgba: [u8; 4]) -> Seq<
    u8,
> {
    Seq::new(
        buf.len(),
        |i: int|
            if rect_covers(buf.len() as int, width, height, x0, x1, y0, y1, i) {
                blended(buf, i, rgba)
            } else {
                buf[i]
            },
    )
}

/// `buf` with every pixel in columns `x0..x1`, rows `y0..y1` set to
/// transparent black.
pub open spec fn clear_rect(buf: Seq<u8>, width: u32, height: u32, x0: int, x1: int, y0: int, y1: int) -> Seq<u8> {
    Seq::new(
        buf.len(),
        |i: int|
            if rect_covers(buf.len() as int, width, height, x0, x1, y0, y1, i) {
                0u8
            } else {
                buf[i]
            },
    )
}

/// `a + b`, held within the range of `i32`.
pub open spec fn sat_add_i32(a: i32, b: i32) -> i32 {
    if a + b > i32::MAX {
        i32::MAX
    } else if a + b < i32::MIN {
        i32::MIN
    } else {
        (a + b) as i32
    }
}

/// `a + b`, held within the range of `i32`.
pub fn saturating_add_i32(a: i32, b: i32) -> (r: i32)
    ensures
        r == sat_add_i32(a, b),
{
    let s = a as i64 + b as i64;
    if s > i32::MAX as i64 {
        i32::MAX
    } else if s < i32::MIN as i64 {
        i32::MIN
    } else {
        s as i32
    }
}

/// Cutting out a rectangle keeps every byte in place: byte `x` of row `y`
/// of the cut-out is byte `x` of source row `rect_y + y`, counted from
/// column `rect_x`; the cut-out holds exactly `n` rows of `rect_w` pixels.
pub proof fn lemma_crop_rows_bytes(src: Seq<u8>, src_w: u32, rect_x: u32, rect_y: u32, rect_w: u32, n: int)
    requires
        0 <= n,
        forall|r: int| 0 <= r < n ==> #[trigger] crop_row_start(src_w, rect_x, rect_y, r) + rect_w * 4 <= src.len(),
    ensures
        crop_rows(src, src_w, rect_x, rect_y, rect_w, n).len() == n * (rect_w * 4),
        forall|y: int, x: int|
            0 <= y < n && 0 <= x < rect_w * 4 ==> #[trigger] crop_rows(src, src_w, rect_x, rect_y, rect_w, n)[y * (
            rect_w * 4) + x] == src[crop_row_start(src_w, rect_x, rect_y, y) + x],
    decreases n,
{
    let w4 = rect_w * 4;
    if n > 0 {
        lemma_crop_rows_bytes(src, src_w, rect_x, rect_y, rect_w, n - 1);
        let prev = crop_rows(src, src_w, rect_x, rect_y, rect_w, n - 1);
        let start = crop_row_start(src_w, rect_x, rect_y, n - 1);
        assert(0 <= start) by (nonlinear_arith)
            requires
                start == ((rect_y + (n - 1)) * src_w + rect_x) * 4,
                n >= 1,
        ;
        assert(start + w4 <= src.len());
        assert((n - 1) * w4 + w4 == n * w4) by (nonlinear_arith);
        let cur = crop_rows(src, src_w, rect_x, rect_y, rect_w, n);
        assert(cur == prev + src.subrange(start, start + w4));
        assert forall|y: int, x: int| 0 <= y < n && 0 <= x < w4 implies #[trigger] cur[y * w4 + x] == src[crop_row_start(
            src_w,
            rect_x,
            rect_y,
            y,
        ) + x] by {
            if y < n - 1 {
                assert(y * w4 + x < (n - 1) * w4) by (nonlinear_arith)
                    requires
                        0 <= y < n - 1,
                        0 <= x < w4,
                ;
                assert(0 <= y * w4) by (nonlinear_arith)
                    requires
                        0 <= y,
                        0 <= w4,
                ;
                assert(cur[y * w4 + x] == prev[y * w4 + x]);
            } else {
                assert(y * w4 + x - (n - 1) * w4 == x);
                assert(cur[y * w4 + x] == src.subrange(start, start + w4)[x]);
            }
        }
    }
}

/// Blending is a weighted mix of the two values: full coverage gives the
/// source, none keeps the destination, and a value is unchanged by
/// blending it over itself.
pub proof fn lemma_blend_channel_mix(src: u8, dst: u8, alpha: u8)
    ensures
        alpha == 255 ==> blend_channel(src, dst, alpha) == src,
        alpha == 0 ==> blend_channel(src, dst, alpha) == dst,
        blend_channel(src, src, alpha) == src,
        (src <= dst ==> src <= blend_channel(src, dst, alpha) <= dst),
        (dst <= src ==> dst <= blend_channel(src, dst, alpha) <= src),
{
    assert(src * alpha + src * (255 - alpha) == src * 255) by (nonlinear_arith);
    assert(src <= dst ==> src * 255 <= src * alpha + dst * (255 - alpha) <= dst * 255) by (nonlinear_arith)
        requires
            alpha <= 255,
    ;
    assert(dst <= src ==> dst * 255 <= src * alpha + dst * (255 - alpha) <= src * 255) by (nonlinear_arith)
        requires
            alpha <= 255,
    ;
}

/// Filling with an opaque colour paints it: every byte of a covered pixel
/// takes the colour's channel (the alpha byte becomes 255), every other
/// byte is kept, and filling the same rectangle again changes nothing. A
/// fully transparent colour changes no colour channel.
pub proof fn lemma_opaque_fill(buf: Seq<u8>, width: u32, height: u32, x0: int, x1: int, y0: int, y1: int, rgba: [u8; 4])
    ensures
        fill_rect(buf, width, height, x0, x1, y0, y1, rgba).len() == buf.len(),
        forall|i: int|
            0 <= i < buf.len() && !rect_covers(buf.len() as int, width, height, x0, x1, y0, y1, i) ==> #[trigger] fill_rect(
                buf,
                width,
                height,
                x0,
                x1,
                y0,
                y1,
                rgba,
            )[i] == buf[i],
        rgba@[3] == 255 ==> forall|i: int|
            0 <= i < buf.len() && rect_covers(buf.len() as int, width, height, x0, x1, y0, y1, i) ==> #[trigger] fill_rect(
                buf,
                width,
                height,
                x0,
                x1,
                y0,
                y1,
                rgba,
            )[i] == rgba@[i % 4],
        rgba@[3] == 255 ==> fill_rect(fill_rect(buf, width, height, x0, x1, y0, y1, rgba), width, height, x0, x1, y0, y1, rgba)
            == fill_rect(buf, width, height, x0, x1, y0, y1, rgba),
        rgba@[3] == 0 ==> forall|i: int|
            0 <= i < buf.len() && i % 4 != 3 ==> #[trigger] fill_rect(buf, width, height, x0, x1, y0, y1, rgba)[i] == buf[i],
{
    let f = fill_rect(buf, width, height, x0, x1, y0, y1, rgba);
    assert forall|i: int| 0 <= i < buf.len() && rect_covers(buf.len() as int, width, height, x0, x1, y0, y1, i) && i % 4
        != 3 implies #[trigger] blended(buf, i, rgba) == (if rgba@[3] == 255 {
        rgba@[i % 4]
    } else if rgba@[3] == 0 {
        buf[i]
    } else {
        blended(buf, i, rgba)
    }) by {
        lemma_blend_channel_mix(rgba@[i % 4], buf[i], rgba@[3]);
    }
    if rgba@[3] == 255 {
        let ff = fill_rect(f, width, height, x0, x1, y0, y1, rgba);
        assert forall|i: int| 0 <= i < buf.len() implies #[trigger] ff[i] == f[i] by {
            if rect_covers(buf.len() as int, width, height, x0, x1, y0, y1, i) {
                lemma_blend_channel_mix(rgba@[i % 4], f[i], rgba@[3]);
                lemma_blend_channel_mix(rgba@[i % 4], buf[i], rgba@[3]);
            }
        }
        assert(ff =~= f);
    }
}

/// The bytes of pixel (x, y) are the four starting at `(y * w + x) * 4`.
pub proof fn lemma_pixel_bytes(w: u32, x: int, y: int, i: int)
    requires
        w > 0,
        0 <= x < w,
        0 <= y,
        0 <= i,
    ensures
        (pix_x(w, i) == x && pix_y(w, i) == y) <==> ((y * w + x) * 4 <= i < (y * w + x) * 4 + 4),
        (y * w + x) * 4 <= i < (y * w + x) * 4 + 4 ==> i % 4 == i - (y * w + x) * 4,
{
    let q = y * w + x;
    let p = i / 4;
    lemma_fundamental_div_mod(i, 4);
    lemma_mod_pos_bound(i, 4);
    lemma_fundamental_div_mod(p, w as int);
    lemma_mod_pos_bound(p, w as int);
    if q * 4 <= i < q * 4 + 4 {
        lemma_fundamental_div_mod_converse(i, 4, q, i - q * 4);
        lemma_fundamental_div_mod_converse(q, w as int, y, x);
    }
    if pix_x(w, i) == x && pix_y(w, i) == y {
        assert(p == y * w + x) by {
            assert(p == (w as int) * (p / (w as int)) + p % (w as int));
            assert((w as int) * y == y * (w as int)) by (nonlinear_arith);
        }
    }
}

/// A pixel's bytes lie within a surface of `width * height` pixels.
proof fn lemma_pixel_index_bound(w: u32, h: u32, x: int, y: int)
    requires
        w <= i32::MAX,
        h <= i32::MAX,
        0 <= x < w,
        0 <= y < h,
    ensures
        0 <= (y * w + x) * 4 + 3 < 0x1_0000_0000_0000_0000,
        0 <= y * w <= 0x3fff_ffff_0000_0001,
{
    assert(0 <= y * w <= 0x7fff_ffff * 0x7fff_ffff) by (nonlinear_arith)
        requires
            0 <= y < h,
            h <= 0x7fff_ffff,
            w <= 0x7fff_ffff,
    ;
}

/// `src` over `dst` with coverage `alpha`.
fn blend_channel_exec(src: u8, dst: u8, alpha: u8) -> (r: u8)
    ensures
        r == blend_channel(src, dst, alpha),
{
    let a = alpha as u32;
    let inv = 255 - a;
    assert(src as u32 * a <= 255 * 255) by (nonlinear_arith)
        requires
            a <= 255,
    ;
    assert(dst as u32 * inv <= 255 * 255) by (nonlinear_arith)
        requires
            inv <= 255,
    ;
    let v = (src as u32 * a + dst as u32 * inv) / 255;
    assert(v <= 255) by (nonlinear_arith)
        requires
            v == (src as u32 * a + dst as u32 * inv) / 255,
            src as u32 * a + dst as u32 * inv <= 255 * 255 * 2,
            a + inv == 255,
            src <= 255,
            dst <= 255,
    {
        assert(src as u32 * a + dst as u32 * inv <= 255 * a + 255 * inv);
    }
    v as u8
}

/// The byte offset of pixel (x, y) when it is on the surface.
fn pixel_offset(len: usize, width: u32, height: u32, x: i32, y: i32) -> (r: Option<usize>)
    ensures
        r is Some <==> on_surface(len as int, width, height, x as int, y as int),
        r matches Some(idx) ==> idx == (y * width + x) * 4,
{
    let w = width as i32;
    let h = height as i32;
    proof {
        assert(width <= 0x7fff_ffffu32 ==> w == width) by (bit_vector)
            requires
                w == width as i32,
        ;
        assert(height <= 0x7fff_ffffu32 ==> h == height) by (bit_vector)
            requires
                h == height as i32,
        ;
        assert(w > 0i32 ==> width <= 0x7fff_ffffu32) by (bit_vector)
            requires
                w == width as i32,
        ;
        assert(h > 0i32 ==> height <= 0x7fff_ffffu32) by (bit_vector)
            requires
                h == height as i32,
        ;
    }
    if x < 0 || y < 0 || x >= w || y >= h {
        return None;
    }
    proof {
        lemma_pixel_index_bound(width, height, x as int, y as int);
    }
    let idx = ((y as u64) * (width as u64) + (x as u64)) * 4;
    if idx + 3 >= len as u64 {
        return None;
    }
    Some(idx as usize)
}

/// The rectangle at (rect_x, rect_y) of `rect_w` x `rect_h` pixels is
/// non-empty and lies within a non-empty `src_w` x `src_h` image.
pub open spec fn crop_fits(src_w: u32, src_h: u32, rect_x: u32, rect_y: u32, rect_w: u32, rect_h: u32) -> bool {
    &&& src_w > 0 && src_h > 0 && rect_w > 0 && rect_h > 0
    &&& rect_x + rect_w <= src_w
    &&& rect_y + rect_h <= src_h
}

/// The byte where row `r` of the rectangle starts in the image.
pub open spec fn crop_row_start(src_w: u32, rect_x: u32, rect_y: u32, r: int) -> int {
    ((rect_y + r) * src_w + rect_x) * 4
}

/// One past the last image byte the rectangle covers.
pub open spec fn crop_end(src_w: u32, rect_x: u32, rect_y: u32, rect_w: u32, rect_h: u32) -> int {
    crop_row_start(src_w, rect_x, rect_y, rect_h - 1) + rect_w * 4
}

/// The first `n` rows of the rectangle, top to bottom, each row the
/// `rect_w * 4` image bytes it covers.
pub open spec fn crop_rows(src: Seq<u8>, src_w: u32, rect_x: u32, rect_y: u32, rect_w: u32, n: int) -> Seq<u8>
    decreases n,
{
    if n <= 0 {
        Seq::empty()
    } else {
        let start = crop_row_start(src_w, rect_x, rect_y, n - 1);
        crop_rows(src, src_w, rect_x, rect_y, rect_w, n - 1) + src.subrange(start, start + rect_w * 4)
    }
}

/// `|a - b|`.
pub open spec fn abs_diff(a: u8, b: u8) -> int {
    if a >= b {
        a - b
    } else {
        b - a
    }
}

/// How much pixel `p` of `s` shows: the spread between its colour
/// channels plus an eighth of its alpha.
pub open spec fn pixel_energy(s: Seq<u8>, p: int) -> int {
    abs_diff(s[4 * p], s[4 * p + 1]) + abs_diff(s[4 * p + 1], s[4 * p + 2]) + abs_diff(s[4 * p], s[4 * p + 2]) + s[4
        * p + 3] / 8
}

/// How many of the first `n` pixels of `s` have an alpha above 8.
pub open spec fn opaque_pixels(s: Seq<u8>, n: int) -> int
    decreases n,
{
    if n <= 0 {
        0
    } else {
        opaque_pixels(s, n - 1) + if s[4 * (n - 1) + 3] > 8 {
            1int
        } else {
            0int
        }
    }
}

/// The energy of the first `n` pixels of `s`.
pub open spec fn energy_total(s: Seq<u8>, n: int) -> int
    decreases n,
{
    if n <= 0 {
        0
    } else {
        energy_total(s, n - 1) + pixel_energy(s, n - 1)
    }
}

/// `x` capped at `u64::MAX`.
pub open spec fn sat_u64(x: int) -> int {
    if x > u64::MAX {
        u64::MAX as int
    } else {
        x
    }
}

/// The score of an RGBA image: 1024 per fairly opaque pixel plus the
/// energy of all pixels (whole pixels only; saturating).
pub open spec fn region_score(s: Seq<u8>) -> int {
    let n = s.len() / 4;
    if s.len() == 0 {
        0
    } else {
        sat_u64(sat_u64(opaque_pixels(s, n as int) * 1024) + energy_total(s, n as int))
    }
}

/// Counts and energy grow by at most one and 796 per pixel.
proof fn lemma_score_bounds(s: Seq<u8>, n: int)
    requires
        0 <= n,
        4 * n <= s.len(),
    ensures
        0 <= opaque_pixels(s, n) <= n,
        0 <= energy_total(s, n) <= 796 * n,
    decreases n,
{
    if n > 0 {
        lemma_score_bounds(s, n - 1);
    }
}

impl super::MemoryArm32Backend {
    /// Blends `rgba` over pixel (x, y) of a `width` x `height` surface.
    pub fn ui_blend_pixel(buffer: &mut Vec<u8>, width: u32, height: u32, x: i32, y: i32, rgba: [u8; 4])
        ensures
            final(buffer)@ == blend_at(old(buffer)@, width, height, x as int, y as int, rgba),
    {
        let idx = match pixel_offset(buffer.len(), width, height, x, y) {
            Some(i) => i,
            None => {
                assert(buffer@ =~= blend_at(old(buffer)@, width, height, x as int, y as int, rgba));
                return;
            },
        };
        let alpha = rgba[3];
        let c0 = blend_channel_exec(rgba[0], buffer[idx], alpha);
        let c1 = blend_channel_exec(rgba[1], buffer[idx + 1], alpha);
        let c2 = blend_channel_exec(rgba[2], buffer[idx + 2], alpha);
        buffer.set(idx, c0);
        buffer.set(idx + 1, c1);
        buffer.set(idx + 2, c2);
        buffer.set(idx + 3, 255);
        proof {
            let b0 = old(buffer)@;
            let target = blend_at(b0, width, height, x as int, y as int, rgba);
            assert forall|i: int| 0 <= i < b0.len() implies #[trigger] buffer@[i] == target[i] by {
                lemma_pixel_bytes(width, x as int, y as int, i);
            }
            assert(buffer@ =~= target);
        }
    }

    /// Blends `rgba` over every pixel of the `rect_w` x `rect_h` rectangle
    /// at (x, y) (its far edges saturating at `i32::MAX`).
    pub fn ui_fill_rect_rgba(
        buffer: &mut Vec<u8>,
        width: u32,
        height: u32,
        x: i32,
        y: i32,
        rect_w: u32,
        rect_h: u32,
        rgba: [u8; 4],
    )
        ensures
            final(buffer)@ == fill_rect(
                old(buffer)@,
                width,
                height,
                x as int,
                sat_add_i32(x, rect_w as i32) as int,
                y as int,
                sat_add_i32(y, rect_h as i32) as int,
                rgba,
            ),
    {
        let end_y = saturating_add_i32(y, rect_h as i32);
        let end_x = saturating_add_i32(x, rect_w as i32);
        let ghost b0 = buffer@;
        let ghost len = b0.len() as int;
        let mut yy = y;
        assert(buffer@ =~= fill_rect(b0, width, height, x as int, end_x as int, y as int, y as int, rgba));
        while yy < end_y
            invariant
                y <= yy,
                yy <= end_y || yy == y,
                b0.len() == buffer@.len(),
                len == b0.len(),
                buffer@ == fill_rect(b0, width, height, x as int, end_x as int, y as int, yy as int, rgba),
            decreases end_y - yy,
        {
            let mut xx = x;
            while xx < end_x
                invariant
                    x <= xx,
                    xx <= end_x || xx == x,
                    y <= yy < end_y,
                    b0.len() == buffer@.len(),
                    len == b0.len(),
                    buffer@ == Seq::new(
                        b0.len(),
                        |i: int|
                            if rect_covers(len, width, height, x as int, end_x as int, y as int, yy as int, i) || (
                            rect_covers(len, width, height, x as int, xx as int, yy as int, yy + 1, i)) {
                                blended(b0, i, rgba)
                            } else {
                                b0[i]
                            },
                    ),
                decreases end_x - xx,
            {
                let ghost before = buffer@;
                Self::ui_blend_pixel(buffer, width, height, xx, yy, rgba);
                proof {
                    assert forall|i: int| 0 <= i < len implies #[trigger] buffer@[i] == (if rect_covers(
                        len,
                        width,
                        height,
                        x as int,
                        end_x as int,
                        y as int,
                        yy as int,
                        i,
                    ) || rect_covers(len, width, height, x as int, xx + 1, yy as int, yy + 1, i) {
                        blended(b0, i, rgba)
                    } else {
                        b0[i]
                    }) by {
                        if rect_covers(len, width, height, xx as int, xx + 1, yy as int, yy + 1, i) {
                            assert(before[i] == b0[i]);
                        }
                    }
                }
                xx = xx + 1;
                assert(buffer@ =~= Seq::new(
                    b0.len(),
                    |i: int|
                        if rect_covers(len, width, height, x as int, end_x as int, y as int, yy as int, i) || (
                        rect_covers(len, width, height, x as int, xx as int, yy as int, yy + 1, i)) {
                            blended(b0, i, rgba)
                        } else {
                            b0[i]
                        },
                ));
            }
            yy = yy + 1;
            assert(buffer@ =~= fill_rect(b0, width, height, x as int, end_x as int, y as int, yy as int, rgba));
        }
        assert(buffer@ =~= fill_rect(b0, width, height, x as int, end_x as int, y as int, end_y as int, rgba));
    }

    /// Sets every pixel of the `rect_w` x `rect_h` rectangle at (x, y) (its
    /// far edges saturating at `i32::MAX`) to transparent black.
    pub fn ui_clear_rect_rgba(
        buffer: &mut Vec<u8>,
        width: u32,
        height: u32,
        x: i32,
        y: i32,
        rect_w: u32,
        rect_h: u32,
    )
        ensures
            final(buffer)@ == clear_rect(
                old(buffer)@,
                width,
                height,
                x as int,
                sat_add_i32(x, rect_w as i32) as int,
                y as int,
                sat_add_i32(y, rect_h as i32) as int,
            ),
    {
        let end_y = saturating_add_i32(y, rect_h as i32);
        let end_x = saturating_add_i32(x, rect_w as i32);
        let ghost b0 = buffer@;
        let ghost len = b0.len() as int;
        let mut yy = y;
        assert(buffer@ =~= clear_rect(b0, width, height, x as int, end_x as int, y as int, y as int));
        while yy < end_y
            invariant
                y <= yy,
                yy <= end_y || yy == y,
                b0.len() == buffer@.len(),
                len == b0.len(),
                buffer@ == clear_rect(b0, width, height, x as int, end_x as int, y as int, yy as int),
            decreases end_y - yy,
        {
            let mut xx = x;
            while xx < end_x
                invariant
                    x <= xx,
                    xx <= end_x || xx == x,
                    y <= yy < end_y,
                    b0.len() == buffer@.len(),
                    len == b0.len(),
                    buffer@ == Seq::new(
                        b0.len(),
                        |i: int|
                            if rect_covers(len, width, height, x as int, end_x as int, y as int, yy as int, i) || (
                            rect_covers(len, width, height, x as int, xx as int, yy as int, yy + 1, i)) {
                                0u8
                            } else {
                                b0[i]
                            },
                    ),
                decreases end_x - xx,
            {
                let ghost before = buffer@;
                let off = pixel_offset(buffer.len(), width, height, xx, yy);
                match off {
                    Some(idx) => {
                        buffer.set(idx, 0);
                        buffer.set(idx + 1, 0);
                        buffer.set(idx + 2, 0);
                        buffer.set(idx + 3, 0);
                    },
                    None => {},
                }
                proof {
                    assert forall|i: int| 0 <= i < len implies #[trigger] buffer@[i] == (if rect_covers(
                        len,
                        width,
                        height,
                        x as int,
                        end_x as int,
                        y as int,
                        yy as int,
                        i,
                    ) || rect_covers(len, width, height, x as int, xx + 1, yy as int, yy + 1, i) {
                        0u8
                    } else {
                        b0[i]
                    }) by {
                        if off is Some {
                            lemma_pixel_bytes(width, xx as int, yy as int, i);
                        }
                    }
                }
                xx = xx + 1;
                assert(buffer@ =~= Seq::new(
                    b0.len(),
                    |i: int|
                        if rect_covers(len, width, height, x as int, end_x as int, y as int, yy as int, i) || (
                        rect_covers(len, width, height, x as int, xx as int, yy as int, yy + 1, i)) {
                            0u8
                        } else {
                            b0[i]
                        },
                ));
            }
            yy = yy + 1;
            assert(buffer@ =~= clear_rect(b0, width, height, x as int, end_x as int, y as int, yy as int));
        }
        assert(buffer@ =~= clear_rect(b0, width, height, x as int, end_x as int, y as int, end_y as int));
    }

    /// The `rect_w` x `rect_h` rectangle at (rect_x, rect_y) of a
    /// `src_w` x `src_h` RGBA image, or `None` when it is empty or does not
    /// fit in the image.
    pub fn crop_rgba_region(
        src: &[u8],
        src_w: u32,
        src_h: u32,
        rect_x: u32,
        rect_y: u32,
        rect_w: u32,
        rect_h: u32,
    ) -> (r: Option<Vec<u8>>)
        requires
            crop_fits(src_w, src_h, rect_x, rect_y, rect_w, rect_h) ==> crop_end(
                src_w,
                rect_x,
                rect_y,
                rect_w,
                rect_h,
            ) <= src@.len() && crop_end(src_w, rect_x, rect_y, rect_w, rect_h) <= u32::MAX && rect_w * rect_h * 4
                <= u32::MAX,
        ensures
            r is Some <==> crop_fits(src_w, src_h, rect_x, rect_y, rect_w, rect_h),
            r matches Some(out) ==> out@ == crop_rows(src@, src_w, rect_x, rect_y, rect_w, rect_h as int),
    {
        if src_w == 0 || src_h == 0 || rect_w == 0 || rect_h == 0 {
            return None;
        }
        let end_x = match rect_x.checked_add(rect_w) {
            Some(v) => v,
            None => return None,
        };
        let end_y = match rect_y.checked_add(rect_h) {
            Some(v) => v,
            None => return None,
        };
        if end_x > src_w || end_y > src_h {
            return None;
        }
        let span = rect_w as u64 * 4;
        let mut out: Vec<u8> = Vec::new();
        let mut row: u32 = 0;
        while row < rect_h
            invariant
                crop_fits(src_w, src_h, rect_x, rect_y, rect_w, rect_h),
                crop_end(src_w, rect_x, rect_y, rect_w, rect_h) <= src@.len(),
                crop_end(src_w, rect_x, rect_y, rect_w, rect_h) <= u32::MAX,
                span == rect_w * 4,
                row <= rect_h,
                out@ == crop_rows(src@, src_w, rect_x, rect_y, rect_w, row as int),
            decreases rect_h - row,
        {
            proof {
                assert((rect_y + row) * src_w <= (rect_y + rect_h - 1) * src_w) by (nonlinear_arith)
                    requires
                        row <= rect_h - 1,
                ;
            }
            let start = ((rect_y as u64 + row as u64) * src_w as u64 + rect_x as u64) * 4;
            let mut k: u64 = 0;
            let ghost base = out@;
            while k < span
                invariant
                    span == rect_w * 4,
                    start == crop_row_start(src_w, rect_x, rect_y, row as int),
                    start + span <= src@.len(),
                    k <= span,
                    out@ == base + src@.subrange(start as int, start + k),
                decreases span - k,
            {
                out.push(src[(start + k) as usize]);
                assert(src@.subrange(start as int, start + k + 1) =~= src@.subrange(start as int, start + k).push(
                    src@[start + k],
                ));
                k = k + 1;
            }
            row = row + 1;
        }
        Some(out)
    }

    /// How much an RGBA image shows (see `region_score`). The image may
    /// hold at most 2^56 bytes.
    pub fn score_rgba_region(src: &[u8]) -> (score: u64)
        requires
            src@.len() <= 0x0100_0000_0000_0000,
        ensures
            score == region_score(src@),
    {
        if src.len() == 0 {
            return 0;
        }
        let n = src.len() / 4;
        let mut opaque: u64 = 0;
        let mut energy: u64 = 0;
        let mut p: usize = 0;
        while p < n
            invariant
                n == src@.len() / 4,
                src@.len() <= 0x0100_0000_0000_0000,
                p <= n,
                opaque == opaque_pixels(src@, p as int),
                energy == energy_total(src@, p as int),
            decreases n - p,
        {
            proof {
                lemma_score_bounds(src@, p as int);
            }
            let i = p * 4;
            let r = src[i];
            let g = src[i + 1];
            let b = src[i + 2];
            let a = src[i + 3];
            if a > 8 {
                opaque = opaque + 1;
            }
            let rg: u64 = if r >= g { (r - g) as u64 } else { (g - r) as u64 };
            let gb: u64 = if g >= b { (g - b) as u64 } else { (b - g) as u64 };
            let rb: u64 = if r >= b { (r - b) as u64 } else { (b - r) as u64 };
            energy = energy + rg + gb + rb + (a / 8) as u64;
            p = p + 1;
        }
        proof {
            lemma_score_bounds(src@, n as int);
        }
        let weighted = match opaque.checked_mul(1024) {
            Some(v) => v,
            None => u64::MAX,
        };
        weighted.saturating_add(energy)
    }

}

} // verus!
