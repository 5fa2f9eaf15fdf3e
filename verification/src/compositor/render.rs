//! Software compositor: clipped blits, premultiplied-alpha blending,
//! damage tracking and whole-frame composition.
use vstd::prelude::*;
use vstd::arithmetic::div_mod::{lemma_fundamental_div_mod, lemma_fundamental_div_mod_converse};
use vstd::arithmetic::mul::lemma_mul_inequality;

use super::surface::{DamageRect, Surface};
use super::window::{fill_rect, filled};

verus! {

/// The part of a `src_w`x`src_h` source placed at `(dst_x, dst_y)` that
/// lands inside a `dst_w`x`dst_h` destination.
#[derive(Debug, Clone, Copy, PartialEq, Eq, Structural)]
pub struct ClipRect {
    /// First source column copied.
    pub src_x: usize,
    /// First source row copied.
    pub src_y: usize,
    /// Destination column of the first copied pixel.
    pub dst_x: i32,
    /// Destination row of the first copied pixel.
    pub dst_y: i32,
    /// Columns copied.
    pub copy_w: u32,
    /// Rows copied.
    pub copy_h: u32,
}

pub open spec fn max_int(a: int, b: int) -> int {
    if a < b { b } else { a }
}

pub open spec fn min_int(a: int, b: int) -> int {
    if a < b { a } else { b }
}

/// The clip of a source rectangle against the destination, or `None` when
/// nothing of it is visible.
pub open spec fn clip_spec(dst_x: i32, dst_y: i32, src_w: u32, src_h: u32, dst_w: u32, dst_h: u32) -> Option<ClipRect> {
    let x0 = max_int(dst_x as int, 0);
    let y0 = max_int(dst_y as int, 0);
    let x1 = min_int(dst_x + src_w, dst_w as int);
    let y1 = min_int(dst_y + src_h, dst_h as int);
    if src_w == 0 || src_h == 0 || x1 <= x0 || y1 <= y0 {
        None
    } else {
        Some(ClipRect {
            src_x: (x0 - dst_x) as usize,
            src_y: (y0 - dst_y) as usize,
            dst_x: x0 as i32,
            dst_y: y0 as i32,
            copy_w: (x1 - x0) as u32,
            copy_h: (y1 - y0) as u32,
        })
    }
}

impl ClipRect {
    /// Clip a `src_w`x`src_h` rectangle placed at `(dst_x, dst_y)` against a
    /// `dst_w`x`dst_h` destination.
    pub fn new(dst_x: i32, dst_y: i32, src_w: u32, src_h: u32, dst_w: u32, dst_h: u32) -> (r: Option<ClipRect>)
        ensures
            r == clip_spec(dst_x, dst_y, src_w, src_h, dst_w, dst_h),
    {
        if src_w == 0 || src_h == 0 {
            return None;
        }
        let dst_w_i = dst_w as i64;
        let dst_h_i = dst_h as i64;
        let src_w_i = src_w as i64;
        let src_h_i = src_h as i64;
        let dx = dst_x as i64;
        let dy = dst_y as i64;
        let dst_x_start = if dx < 0 { 0 } else { dx };
        let dst_y_start = if dy < 0 { 0 } else { dy };
        let dst_x_end = if dx + src_w_i < dst_w_i { dx + src_w_i } else { dst_w_i };
        let dst_y_end = if dy + src_h_i < dst_h_i { dy + src_h_i } else { dst_h_i };
        if dst_x_end <= dst_x_start || dst_y_end <= dst_y_start {
            return None;
        }
        Some(ClipRect {
            src_x: (dst_x_start - dx) as usize,
            src_y: (dst_y_start - dy) as usize,
            dst_x: dst_x_start as i32,
            dst_y: dst_y_start as i32,
            copy_w: (dst_x_end - dst_x_start) as u32,
            copy_h: (dst_y_end - dst_y_start) as u32,
        })
    }
}

/// Channel `k` (0 = blue, 1 = green, 2 = red, 3 = alpha) of a packed pixel.
pub open spec fn channel(p: u32, k: int) -> int {
    (p as int / pow256(k)) % 256
}

pub open spec fn pow256(k: int) -> int {
    if k <= 0 { 1 } else if k == 1 { 256 } else if k == 2 { 65536 } else { 16777216 }
}

/// One channel of `src + dst * (1 - src_alpha)`, with `1 - alpha` taken as
/// `255 - alpha` and the product scaled down by 256, truncated to 8 bits.
pub open spec fn blend_channel(src: u32, dst: u32, k: int) -> int {
    (channel(src, k) + (channel(dst, k) * (255 - channel(src, 3))) / 256) % 256
}

/// Premultiplied-alpha "source over" of two `0xAARRGGBB` pixels.
pub open spec fn blend_spec(src: u32, dst: u32) -> u32 {
    (blend_channel(src, dst, 3) * 16777216 + blend_channel(src, dst, 2) * 65536
        + blend_channel(src, dst, 1) * 256 + blend_channel(src, dst, 0)) as u32
}

proof fn lemma_channel_bits(p: u32)
    ensures
        (p >> 24u32) & 0xFFu32 == channel(p, 3),
        (p >> 16u32) & 0xFFu32 == channel(p, 2),
        (p >> 8u32) & 0xFFu32 == channel(p, 1),
        p & 0xFFu32 == channel(p, 0),
{
    assert((p >> 24u32) & 0xFFu32 == (p / 16777216) % 256) by (bit_vector);
    assert((p >> 16u32) & 0xFFu32 == (p / 65536) % 256) by (bit_vector);
    assert((p >> 8u32) & 0xFFu32 == (p / 256) % 256) by (bit_vector);
    assert(p & 0xFFu32 == p % 256) by (bit_vector);
}

proof fn lemma_pack(a: u32, r: u32, g: u32, b: u32)
    requires
        a < 256,
        r < 256,
        g < 256,
        b < 256,
    ensures
        (a << 24u32) | (r << 16u32) | (g << 8u32) | b == (a * 16777216 + r * 65536 + g * 256 + b) as u32,
{
    assert((a << 24u32) | (r << 16u32) | (g << 8u32) | b == a * 16777216 + r * 65536 + g * 256 + b) by (bit_vector)
        requires
            a < 256,
            r < 256,
            g < 256,
            b < 256,
    ;
}

/// Premultiplied alpha blend `out = src + dst * (1 - src_alpha)` of two
/// `0xAARRGGBB` pixels, in 8-bit fixed point (shift by 8 for divide by 255).
pub fn blend_premultiplied(src: u32, dst: u32) -> (r: u32)
    ensures
        r == blend_spec(src, dst),
{
    let sa = (src >> 24) & 0xFF;
    proof {
        lemma_channel_bits(src);
    }
    let inv = 255u32 - sa;
    let sr = (src >> 16) & 0xFF;
    let sg = (src >> 8) & 0xFF;
    let sb = src & 0xFF;
    let dr = (dst >> 16) & 0xFF;
    let dg = (dst >> 8) & 0xFF;
    let db = dst & 0xFF;
    let da = (dst >> 24) & 0xFF;
    proof {
        lemma_channel_bits(src);
        lemma_channel_bits(dst);
        assert(da * inv <= 255 * 255) by (nonlinear_arith)
            requires
                da <= 255,
                inv <= 255,
        ;
        assert(dr * inv <= 255 * 255) by (nonlinear_arith)
            requires
                dr <= 255,
                inv <= 255,
        ;
        assert(dg * inv <= 255 * 255) by (nonlinear_arith)
            requires
                dg <= 255,
                inv <= 255,
        ;
        assert(db * inv <= 255 * 255) by (nonlinear_arith)
            requires
                db <= 255,
                inv <= 255,
        ;
    }
    let pa = da * inv;
    let pr = dr * inv;
    let pg = dg * inv;
    let pb = db * inv;
    proof {
        assert(pa >> 8u32 == pa / 256) by (bit_vector);
        assert(pr >> 8u32 == pr / 256) by (bit_vector);
        assert(pg >> 8u32 == pg / 256) by (bit_vector);
        assert(pb >> 8u32 == pb / 256) by (bit_vector);
    }
    let out_a = sa + (pa >> 8);
    let out_r = sr + (pr >> 8);
    let out_g = sg + (pg >> 8);
    let out_b = sb + (pb >> 8);
    let a8 = out_a & 0xFF;
    let r8 = out_r & 0xFF;
    let g8 = out_g & 0xFF;
    let b8 = out_b & 0xFF;
    proof {
        assert(out_a & 0xFFu32 == out_a % 256) by (bit_vector);
        assert(out_r & 0xFFu32 == out_r % 256) by (bit_vector);
        assert(out_g & 0xFFu32 == out_g % 256) by (bit_vector);
        assert(out_b & 0xFFu32 == out_b % 256) by (bit_vector);
        lemma_pack(a8, r8, g8, b8);
    }
    (a8 << 24) | (r8 << 16) | (g8 << 8) | b8
}

/// Destination pixel `i` (row width `dst_w`) lies in the clipped rectangle,
/// restricted to its first `rows` rows.
pub open spec fn blit_target(i: int, dst_w: int, c: ClipRect, rows: int) -> bool {
    &&& dst_w > 0
    &&& c.dst_y <= i / dst_w < c.dst_y + rows
    &&& c.dst_x <= i % dst_w < c.dst_x + c.copy_w
}

/// Index of the source pixel copied to destination pixel `i`.
pub open spec fn blit_src_index(i: int, dst_w: int, src_w: int, c: ClipRect) -> int {
    (i / dst_w - c.dst_y + c.src_y) * src_w + (i % dst_w - c.dst_x + c.src_x)
}

/// The destination after copying (or, with `alpha`, blending) the clipped
/// source rectangle.
pub open spec fn blitted(old: Seq<u32>, src: Seq<u32>, src_w: u32, dst_w: u32, c: ClipRect, alpha: bool) -> Seq<u32> {
    Seq::new(old.len(), |i: int|
        if blit_target(i, dst_w as int, c, c.copy_h as int) {
            let s = src[blit_src_index(i, dst_w as int, src_w as int, c)];
            if alpha { blend_spec(s, old[i]) } else { s }
        } else {
            old[i]
        })
}

/// Every pixel a blit reads or writes lies inside `src` and `dst`.
pub open spec fn blit_fits(src_len: nat, dst_len: nat, src_w: u32, src_h: u32, dst_w: u32, dst_h: u32, dst_x: i32, dst_y: i32) -> bool {
    match clip_spec(dst_x, dst_y, src_w, src_h, dst_w, dst_h) {
        Some(c) => {
            &&& (c.src_y + c.copy_h - 1) * src_w + c.src_x + c.copy_w <= src_len
            &&& (c.dst_y + c.copy_h - 1) * dst_w + c.dst_x + c.copy_w <= dst_len
        },
        None => true,
    }
}

/// The destination rectangle a blit touched.
pub open spec fn clip_damage(c: ClipRect) -> DamageRect {
    DamageRect { x: c.dst_x as u32, y: c.dst_y as u32, width: c.copy_w, height: c.copy_h }
}

proof fn lemma_row_col(row: int, col: int, w: int)
    requires
        0 <= row,
        0 <= col < w,
    ensures
        (row * w + col) / w == row,
        (row * w + col) % w == col,
{
    lemma_fundamental_div_mod_converse(row * w + col, w, row, col);
}

/// Copy (or blend, with `alpha`) the clipped source rectangle into `dst`.
#[verifier::rlimit(60)]
fn blit_rows(src: &Vec<u32>, src_w: u32, dst: &mut Vec<u32>, dst_w: u32, c: ClipRect, alpha: bool)
    requires
        c.copy_w > 0,
        c.copy_h > 0,
        c.dst_x >= 0,
        c.dst_y >= 0,
        c.dst_x + c.copy_w <= dst_w,
        c.src_x + c.copy_w <= src_w,
        (c.src_y + c.copy_h - 1) * src_w + c.src_x + c.copy_w <= src@.len(),
        (c.dst_y + c.copy_h - 1) * dst_w + c.dst_x + c.copy_w <= old(dst)@.len(),
    ensures
        final(dst)@ == blitted(old(dst)@, src@, src_w, dst_w, c, alpha),
{
    let ghost old_dst = dst@;
    let ghost dw = dst_w as int;
    let ghost sw = src_w as int;
    let dst_stride = dst_w as usize;
    let src_stride = src_w as usize;
    let n = dst.len();
    let m = src.len();
    let mut row: usize = 0;
    while row < c.copy_h as usize
        invariant
            row <= c.copy_h,
            c.copy_w > 0,
            c.dst_x >= 0,
            c.dst_y >= 0,
            c.dst_x + c.copy_w <= dw,
            c.src_x + c.copy_w <= sw,
            dw == dst_stride,
            sw == src_stride,
            n == old_dst.len(),
            m == src@.len(),
            (c.src_y + c.copy_h - 1) * sw + c.src_x + c.copy_w <= m,
            (c.dst_y + c.copy_h - 1) * dw + c.dst_x + c.copy_w <= n,
            dst@.len() == n,
            forall|i: int| 0 <= i < dst@.len() ==> #[trigger] dst@[i] == (
                if blit_target(i, dw, c, row as int) {
                    let s = src@[blit_src_index(i, dw, sw, c)];
                    if alpha { blend_spec(s, old_dst[i]) } else { s }
                } else {
                    old_dst[i]
                }
            ),
        decreases c.copy_h - row,
    {
        proof {
            lemma_mul_inequality(c.dst_y + row, c.dst_y + c.copy_h - 1, dw);
            lemma_mul_inequality(c.src_y + row, c.src_y + c.copy_h - 1, sw);
            let a = c.dst_y + row;
            let b = c.src_y + row;
            assert(a <= a * dw) by (nonlinear_arith)
                requires
                    a >= 0,
                    dw >= 1,
            ;
            assert(b <= b * sw) by (nonlinear_arith)
                requires
                    b >= 0,
                    sw >= 1,
            ;
        }
        let dst_row = (c.dst_y as usize + row) * dst_stride + c.dst_x as usize;
        let src_row = (c.src_y + row) * src_stride + c.src_x;
        let mut col: usize = 0;
        while col < c.copy_w as usize
            invariant
                row < c.copy_h,
                col <= c.copy_w,
                c.dst_x >= 0,
                c.dst_y >= 0,
                c.dst_x + c.copy_w <= dw,
                c.src_x + c.copy_w <= sw,
                dw == dst_stride,
                sw == src_stride,
                n == old_dst.len(),
                m == src@.len(),
                dst_row == (c.dst_y + row) * dw + c.dst_x,
                src_row == (c.src_y + row) * sw + c.src_x,
                dst_row + c.copy_w <= n,
                src_row + c.copy_w <= m,
                dst@.len() == n,
                forall|i: int| 0 <= i < dst@.len() ==> #[trigger] dst@[i] == (
                    if blit_target(i, dw, c, row as int) || (i / dw == c.dst_y + row && c.dst_x <= i % dw < c.dst_x + col) {
                        let s = src@[blit_src_index(i, dw, sw, c)];
                        if alpha { blend_spec(s, old_dst[i]) } else { s }
                    } else {
                        old_dst[i]
                    }
                ),
            decreases c.copy_w - col,
        {
            let di = dst_row + col;
            let si = src_row + col;
            let src_px = src[si];
            let px = if alpha { blend_premultiplied(src_px, dst[di]) } else { src_px };
            let ghost before = dst@;
            proof {
                lemma_row_col(c.dst_y + row, c.dst_x + col, dw);
                assert(blit_src_index(di as int, dw, sw, c) == si);
                assert(!blit_target(di as int, dw, c, row as int));
                assert(before[di as int] == old_dst[di as int]);
            }
            dst.set(di, px);
            proof {
                assert forall|i: int| 0 <= i < dst@.len() implies #[trigger] dst@[i] == (
                    if blit_target(i, dw, c, row as int) || (i / dw == c.dst_y + row && c.dst_x <= i % dw < c.dst_x + col + 1) {
                        let s = src@[blit_src_index(i, dw, sw, c)];
                        if alpha { blend_spec(s, old_dst[i]) } else { s }
                    } else {
                        old_dst[i]
                    }
                ) by {
                    if i != di as int {
                        lemma_fundamental_div_mod(i, dw);
                        assert(before[i] == dst@[i]);
                        if i / dw == c.dst_y + row && i % dw == c.dst_x + col {
                            assert(i == dw * (i / dw) + i % dw);
                            assert(dw * (c.dst_y + row) == (c.dst_y + row) * dw) by (nonlinear_arith);
                            assert(false);
                        }
                    }
                }
            }
            col = col + 1;
        }
        row = row + 1;
    }
    assert(dst@ =~= blitted(old_dst, src@, src_w, dst_w, c, alpha));
}

proof fn lemma_clip_facts(dst_x: i32, dst_y: i32, src_w: u32, src_h: u32, dst_w: u32, dst_h: u32)
    ensures
        clip_spec(dst_x, dst_y, src_w, src_h, dst_w, dst_h) matches Some(c) ==> {
            &&& c.copy_w > 0
            &&& c.copy_h > 0
            &&& c.dst_x >= 0
            &&& c.dst_y >= 0
            &&& c.dst_x + c.copy_w <= dst_w
            &&& c.dst_y + c.copy_h <= dst_h
            &&& c.src_x + c.copy_w <= src_w
            &&& c.src_y + c.copy_h <= src_h
        },
{
}

/// Copy an opaque `src_w`x`src_h` source into `dst` at `(dst_x, dst_y)`,
/// clipped to the destination. Returns the destination rectangle written,
/// or `None` when the source is entirely off-screen.
pub fn blit_opaque(
    src: &Vec<u32>,
    src_w: u32,
    src_h: u32,
    dst: &mut Vec<u32>,
    dst_w: u32,
    dst_h: u32,
    dst_x: i32,
    dst_y: i32,
) -> (r: Option<DamageRect>)
    requires
        blit_fits(src@.len(), old(dst)@.len(), src_w, src_h, dst_w, dst_h, dst_x, dst_y),
    ensures
        match clip_spec(dst_x, dst_y, src_w, src_h, dst_w, dst_h) {
            Some(c) => r == Some(clip_damage(c)) && final(dst)@ == blitted(old(dst)@, src@, src_w, dst_w, c, false),
            None => r is None && final(dst)@ == old(dst)@,
        },
{
    let clip = match ClipRect::new(dst_x, dst_y, src_w, src_h, dst_w, dst_h) {
        Some(c) => c,
        None => return None,
    };
    proof {
        lemma_clip_facts(dst_x, dst_y, src_w, src_h, dst_w, dst_h);
    }
    blit_rows(src, src_w, dst, dst_w, clip, false);
    Some(DamageRect { x: clip.dst_x as u32, y: clip.dst_y as u32, width: clip.copy_w, height: clip.copy_h })
}

/// Blend a premultiplied-alpha `0xAARRGGBB` source over `dst` at
/// `(dst_x, dst_y)` (`out = src + dst * (1 - src_alpha)`), clipped to the
/// destination. Returns the destination rectangle written, or `None`.
pub fn blit_alpha_premultiplied(
    src: &Vec<u32>,
    src_w: u32,
    src_h: u32,
    dst: &mut Vec<u32>,
    dst_w: u32,
    dst_h: u32,
    dst_x: i32,
    dst_y: i32,
) -> (r: Option<DamageRect>)
    requires
        blit_fits(src@.len(), old(dst)@.len(), src_w, src_h, dst_w, dst_h, dst_x, dst_y),
    ensures
        match clip_spec(dst_x, dst_y, src_w, src_h, dst_w, dst_h) {
            Some(c) => r == Some(clip_damage(c)) && final(dst)@ == blitted(old(dst)@, src@, src_w, dst_w, c, true),
            None => r is None && final(dst)@ == old(dst)@,
        },
{
    let clip = match ClipRect::new(dst_x, dst_y, src_w, src_h, dst_w, dst_h) {
        Some(c) => c,
        None => return None,
    };
    proof {
        lemma_clip_facts(dst_x, dst_y, src_w, src_h, dst_w, dst_h);
    }
    blit_rows(src, src_w, dst, dst_w, clip, true);
    Some(DamageRect { x: clip.dst_x as u32, y: clip.dst_y as u32, width: clip.copy_w, height: clip.copy_h })
}

/// Blending a fully opaque source pixel yields the source pixel itself.
pub proof fn lemma_blend_opaque_source(src: u32, dst: u32)
    requires
        channel(src, 3) == 255,
    ensures
        blend_spec(src, dst) == src,
{
    assert(channel(src, 0) + (channel(dst, 0) * 0) / 256 == channel(src, 0));
    assert(channel(src, 1) + (channel(dst, 1) * 0) / 256 == channel(src, 1));
    assert(channel(src, 2) + (channel(dst, 2) * 0) / 256 == channel(src, 2));
    assert(channel(src, 3) + (channel(dst, 3) * 0) / 256 == channel(src, 3));
    assert(src as int == channel(src, 3) * 16777216 + channel(src, 2) * 65536 + channel(src, 1) * 256
        + channel(src, 0)) by {
        assert(src as int == (src / 16777216) % 256 * 16777216 + (src / 65536) % 256 * 65536
            + (src / 256) % 256 * 256 + src % 256) by (bit_vector);
    }
}


/// Accumulated damage of one frame: either the whole display or the
/// bounding box of the rectangles reported so far.
#[derive(Debug, Clone, Copy, PartialEq, Eq, Structural)]
pub struct DamageTracker {
    /// The whole display must be presented.
    pub full: bool,
    /// Bounding box of the partial damage, if any.
    pub bounds: Option<DamageRect>,
}

/// End coordinate `start + len` (in `int`).
pub open spec fn rect_end(start: u32, len: u32) -> int {
    start + len
}

/// Bounding box of two rectangles; a width or height that does not fit in
/// `u32` saturates.
pub open spec fn bbox(a: DamageRect, b: DamageRect) -> DamageRect {
    let x0 = min_int(a.x as int, b.x as int);
    let y0 = min_int(a.y as int, b.y as int);
    let x1 = max_int(rect_end(a.x, a.width), rect_end(b.x, b.width));
    let y1 = max_int(rect_end(a.y, a.height), rect_end(b.y, b.height));
    DamageRect {
        x: x0 as u32,
        y: y0 as u32,
        width: min_int(x1 - x0, u32::MAX as int) as u32,
        height: min_int(y1 - y0, u32::MAX as int) as u32,
    }
}

/// The tracker after reporting `rect`.
pub open spec fn union_spec(t: DamageTracker, rect: DamageRect) -> DamageTracker {
    DamageTracker {
        full: t.full,
        bounds: match t.bounds {
            Some(b) => Some(bbox(b, rect)),
            None => Some(rect),
        },
    }
}

fn bbox_exec(a: DamageRect, b: DamageRect) -> (r: DamageRect)
    ensures
        r == bbox(a, b),
{
    let x0: u64 = if (a.x as u64) < (b.x as u64) { a.x as u64 } else { b.x as u64 };
    let y0: u64 = if (a.y as u64) < (b.y as u64) { a.y as u64 } else { b.y as u64 };
    let ax1: u64 = a.x as u64 + a.width as u64;
    let bx1: u64 = b.x as u64 + b.width as u64;
    let ay1: u64 = a.y as u64 + a.height as u64;
    let by1: u64 = b.y as u64 + b.height as u64;
    let x1: u64 = if ax1 < bx1 { bx1 } else { ax1 };
    let y1: u64 = if ay1 < by1 { by1 } else { ay1 };
    let w: u64 = x1 - x0;
    let h: u64 = y1 - y0;
    DamageRect {
        x: x0 as u32,
        y: y0 as u32,
        width: if w < u32::MAX as u64 { w as u32 } else { u32::MAX },
        height: if h < u32::MAX as u64 { h as u32 } else { u32::MAX },
    }
}

impl DamageTracker {
    /// No damage yet.
    pub fn new() -> (t: DamageTracker)
        ensures
            !t.full,
            t.bounds is None,
    {
        DamageTracker { full: false, bounds: None }
    }

    /// The whole display is damaged.
    pub fn mark_full(&mut self)
        ensures
            *final(self) == (DamageTracker { full: true, ..*old(self) }),
    {
        self.full = true;
    }

    /// Grow the damage to cover `rect`.
    pub fn union(&mut self, rect: DamageRect)
        ensures
            *final(self) == union_spec(*old(self), rect),
    {
        self.bounds = match self.bounds {
            Some(b) => Some(bbox_exec(b, rect)),
            None => Some(rect),
        };
    }
}

/// Sort key for composition order: layer first, then insertion order
/// within the layer.
pub fn z_order_key(surface: &Surface) -> (r: (u8, u64))
    ensures
        r == (surface.layer.spec_rank(), surface.layer_seq),
{
    (surface.layer.rank(), surface.layer_seq)
}

/// AIOS blue (`B8G8R8A8`), the clear color used for the first frame.
pub const DEFAULT_CLEAR_COLOR: u32 = 0xFF1E_3A6E;

/// Surface `s` with source buffer `src` is composited: it is visible,
/// has a buffer, has non-zero size and the buffer holds all its pixels.
pub open spec fn composited(s: Surface, src: Option<Vec<u32>>) -> bool {
    &&& s.visible
    &&& src is Some
    &&& s.width != 0 && s.height != 0
    &&& src->0@.len() >= s.width as int * s.height as int
}

/// The frame after compositing the first `k` surfaces onto `dst`.
pub open spec fn compose_spec(dst: Seq<u32>, dst_w: u32, dst_h: u32, surfaces: Seq<Surface>, sources: Seq<Option<Vec<u32>>>, k: int) -> Seq<u32>
    decreases k,
{
    if k <= 0 {
        dst
    } else {
        let prev = compose_spec(dst, dst_w, dst_h, surfaces, sources, k - 1);
        let s = surfaces[k - 1];
        if composited(s, sources[k - 1]) {
            match clip_spec(s.x, s.y, s.width, s.height, dst_w, dst_h) {
                Some(c) => blitted(prev, sources[k - 1]->0@, s.width, dst_w, c, false),
                None => prev,
            }
        } else {
            prev
        }
    }
}

/// The damage after compositing the first `k` surfaces.
pub open spec fn compose_damage(t: DamageTracker, dst_w: u32, dst_h: u32, surfaces: Seq<Surface>, sources: Seq<Option<Vec<u32>>>, k: int) -> DamageTracker
    decreases k,
{
    if k <= 0 {
        t
    } else {
        let prev = compose_damage(t, dst_w, dst_h, surfaces, sources, k - 1);
        let s = surfaces[k - 1];
        if composited(s, sources[k - 1]) {
            match clip_spec(s.x, s.y, s.width, s.height, dst_w, dst_h) {
                Some(c) => union_spec(prev, clip_damage(c)),
                None => prev,
            }
        } else {
            prev
        }
    }
}

/// Every composited surface fits the destination buffer.
pub open spec fn compose_fits(dst_len: nat, dst_w: u32, dst_h: u32, surfaces: Seq<Surface>, sources: Seq<Option<Vec<u32>>>) -> bool {
    forall|k: int| 0 <= k < surfaces.len() && #[trigger] composited(surfaces[k], sources[k]) ==> {
        let s = surfaces[k];
        match clip_spec(s.x, s.y, s.width, s.height, dst_w, dst_h) {
            Some(c) => (c.dst_y + c.copy_h - 1) * dst_w + c.dst_x + c.copy_w <= dst_len,
            None => true,
        }
    }
}

proof fn lemma_src_fits(c: ClipRect, w: u32, h: u32, len: nat)
    requires
        c.copy_w > 0,
        c.copy_h > 0,
        c.src_x + c.copy_w <= w,
        c.src_y + c.copy_h <= h,
        len >= w * h,
    ensures
        (c.src_y + c.copy_h - 1) * w + c.src_x + c.copy_w <= len,
{
    lemma_mul_inequality(c.src_y + c.copy_h - 1, h - 1, w as int);
    assert((h - 1) * w + w == h * w) by (nonlinear_arith);
}

/// Compose the surfaces, in the given order, into `dst` (a `dst_w`x`dst_h`
/// frame). `sources[k]` is the pixel buffer of `surfaces[k]`, `None` when it
/// has no buffer yet. Hidden surfaces, surfaces without a buffer, empty
/// surfaces and surfaces whose buffer is too small are skipped. With
/// `clear_first` the frame is first cleared to `clear_color` and marked
/// fully damaged. Every blit's rectangle is added to `damage`.
pub fn compose_frame(
    dst: &mut Vec<u32>,
    dst_width: u32,
    dst_height: u32,
    surfaces: &Vec<Surface>,
    sources: &Vec<Option<Vec<u32>>>,
    damage: &mut DamageTracker,
    clear_first: bool,
    clear_color: u32,
)
    requires
        sources@.len() == surfaces@.len(),
        compose_fits(old(dst)@.len(), dst_width, dst_height, surfaces@, sources@),
    ensures
        dst_width == 0 || dst_height == 0 || old(dst)@.len() == 0 ==> final(dst)@ == old(dst)@ && *final(damage) == *old(damage),
        dst_width != 0 && dst_height != 0 && old(dst)@.len() != 0 ==> {
            let start = if clear_first { Seq::new(old(dst)@.len(), |i: int| clear_color) } else { old(dst)@ };
            let t0 = if clear_first { DamageTracker { full: true, ..*old(damage) } } else { *old(damage) };
            &&& final(dst)@ == compose_spec(start, dst_width, dst_height, surfaces@, sources@, surfaces@.len() as int)
            &&& *final(damage) == compose_damage(t0, dst_width, dst_height, surfaces@, sources@, surfaces@.len() as int)
        },
{
    if dst_width == 0 || dst_height == 0 || dst.len() == 0 {
        return;
    }
    if clear_first {
        let n = dst.len();
        let mut i: usize = 0;
        while i < n
            invariant
                n == old(dst)@.len(),
                dst@.len() == n,
                i <= n,
                forall|j: int| 0 <= j < i ==> dst@[j] == clear_color,
            decreases n - i,
        {
            dst.set(i, clear_color);
            i = i + 1;
        }
        assert(dst@ =~= Seq::new(old(dst)@.len(), |i: int| clear_color));
        damage.mark_full();
    }
    let ghost start = dst@;
    let ghost t0 = *damage;
    let mut k: usize = 0;
    while k < surfaces.len()
        invariant
            k <= surfaces@.len(),
            sources@.len() == surfaces@.len(),
            dst@.len() == start.len(),
            compose_fits(start.len(), dst_width, dst_height, surfaces@, sources@),
            dst@ == compose_spec(start, dst_width, dst_height, surfaces@, sources@, k as int),
            *damage == compose_damage(t0, dst_width, dst_height, surfaces@, sources@, k as int),
        decreases surfaces@.len() - k,
    {
        let surface = &surfaces[k];
        let src = &sources[k];
        proof {
            let w = surface.width as int;
            let h = surface.height as int;
            assert(w * h <= 0xffff_ffff * 0xffff_ffff) by (nonlinear_arith)
                requires
                    0 <= w <= 0xffff_ffff,
                    0 <= h <= 0xffff_ffff,
            ;
        }
        if surface.visible {
            match src {
                Some(src) => {
                    if surface.width != 0 && surface.height != 0
                        && (src.len() as u64) >= (surface.width as u64) * (surface.height as u64) {
                        proof {
                            assert(composited(surfaces@[k as int], sources@[k as int]));
                            lemma_clip_facts(surface.x, surface.y, surface.width, surface.height, dst_width, dst_height);
                            match clip_spec(surface.x, surface.y, surface.width, surface.height, dst_width, dst_height) {
                                Some(c) => {
                                    lemma_src_fits(c, surface.width, surface.height, src@.len());
                                },
                                None => {},
                            }
                        }
                        let blitted_rect = blit_opaque(
                            src, surface.width, surface.height, dst, dst_width, dst_height, surface.x, surface.y,
                        );
                        match blitted_rect {
                            Some(rect) => damage.union(rect),
                            None => {},
                        }
                    }
                },
                None => {},
            }
        }
        k = k + 1;
    }
}

} // verus!
