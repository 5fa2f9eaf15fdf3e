//! Title-bar and shell text: ASCII strings drawn with Spleen 8x16 into a
//! row-major pixel buffer, clipped to the buffer and to a right edge.
use vstd::prelude::*;

use crate::font::{glyph_rows, load_font_8x16, spleen_glyph, Font, FontFace};

verus! {

/// Glyph width of the title font.
pub const TITLE_GLYPH_WIDTH: i32 = 8;
/// Glyph height of the title font.
pub const TITLE_GLYPH_HEIGHT: i32 = 16;

/// The glyph pixel that lands on buffer index `i` when `rows` is drawn with
/// its top-left corner at `(gx, gy)` into a `w`-wide, `h`-high buffer,
/// clipped to columns below `max_x`, counting only rows before `r` and,
/// in row `r`, columns before `c`. `None` when no glyph pixel lands there.
pub open spec fn glyph_pixel_upto(
    i: int,
    w: int,
    h: int,
    gx: int,
    gy: int,
    max_x: int,
    rows: Seq<Seq<bool>>,
    r: int,
    c: int,
) -> Option<bool> {
    if w <= 0 || i < 0 {
        None
    } else {
        let py = i / w;
        let px = i % w;
        let row = py - gy;
        let col = px - gx;
        if 0 <= py < h && 0 <= row < rows.len() && 0 <= col < rows[row].len() && px < max_x && (row < r || (row == r
            && col < c)) {
            Some(rows[row][col])
        } else {
            None
        }
    }
}

/// `dst` with the glyph `rows` drawn at `(gx, gy)`: ink in `fg`, the rest
/// of the glyph cell in `bg`, clipped to the buffer and to `max_x`.
pub open spec fn blitted_glyph(
    dst: Seq<u32>,
    w: int,
    h: int,
    gx: int,
    gy: int,
    max_x: int,
    rows: Seq<Seq<bool>>,
    fg: u32,
    bg: u32,
) -> Seq<u32> {
    Seq::new(
        dst.len(),
        |i: int|
            match glyph_pixel_upto(i, w, h, gx, gy, max_x, rows, rows.len() as int, 0) {
                Some(on) => if on { fg } else { bg },
                None => dst[i],
            },
    )
}

/// Draw the glyph `rows` with its top-left corner at `(glyph_x, glyph_y)`
/// into `dst` (`dst_w` pixels per row, `dst_h` rows): ink in `fg`, the
/// rest of the cell in `bg`, clipped to the buffer and to columns below
/// `max_x`.
pub fn blit_glyph(
    dst: &mut Vec<u32>,
    dst_w: u32,
    dst_h: u32,
    glyph_x: i32,
    glyph_y: i32,
    max_x: i32,
    rows: &Vec<Vec<bool>>,
    fg: u32,
    bg: u32,
)
    requires
        dst_w * dst_h <= old(dst)@.len(),
        glyph_small(rows.deep_view()),
    ensures
        final(dst)@ == blitted_glyph(old(dst)@, dst_w as int, dst_h as int, glyph_x as int, glyph_y as int, max_x as int, rows.deep_view(), fg, bg),
{
    let ghost d0 = dst@;
    let ghost gr = rows.deep_view();
    let ghost w = dst_w as int;
    let ghost h = dst_h as int;
    let nrows = rows.len();
    let dlen = dst.len();
    let mut row: usize = 0;
    while row < nrows && (glyph_y as i64) + (row as i64) < (dst_h as i64)
        invariant
            nrows == rows@.len(),
            gr == rows.deep_view(),
            w == dst_w as int,
            h == dst_h as int,
            row <= nrows,
            glyph_small(gr),
            dst_w * dst_h <= d0.len(),
            d0.len() == dlen,
            dst@.len() == d0.len(),
            forall|i: int| 0 <= i < d0.len() ==> #[trigger] dst@[i] == match glyph_pixel_upto(i, w, h, glyph_x as int, glyph_y as int, max_x as int, gr, row as int, 0) {
                Some(on) => if on { fg } else { bg },
                None => d0[i],
            },
        decreases nrows - row,
    {
        let py: i64 = glyph_y as i64 + row as i64;
        if py >= 0 {
            let ncols = rows[row].len();
            proof {
                assert(gr[row as int] == rows@[row as int].deep_view());
                assert(gr[row as int].len() <= 0x1000_0000);
            }
            let mut col: usize = 0;
            while col < ncols && (glyph_x as i64) + (col as i64) < (max_x as i64) && (glyph_x as i64) + (col as i64) < (dst_w as i64)
                invariant
                    nrows == rows@.len(),
                    gr == rows.deep_view(),
                    w == dst_w as int,
                    h == dst_h as int,
                    row < nrows,
                    ncols == gr[row as int].len(),
                    ncols <= 0x1000_0000,
                    col <= ncols,
                    0 <= py < dst_h,
                    py == glyph_y + row,
                    dst_w * dst_h <= d0.len(),
                    d0.len() == dlen,
                    dst@.len() == d0.len(),
                    forall|i: int| 0 <= i < d0.len() ==> #[trigger] dst@[i] == match glyph_pixel_upto(i, w, h, glyph_x as int, glyph_y as int, max_x as int, gr, row as int, col as int) {
                        Some(on) => if on { fg } else { bg },
                        None => d0[i],
                    },
                decreases ncols - col,
            {
                let px: i64 = glyph_x as i64 + col as i64;
                if px >= 0 {
                    let on = rows[row][col];
                    proof {
                        assert(on == gr[row as int][col as int]);
                        assert((py as int) * (dst_w as int) + px < (dst_w as int) * (dst_h as int)) by (nonlinear_arith)
                            requires 0 <= py < dst_h, 0 <= px < dst_w;
                    }
                    let idx = (py as usize) * (dst_w as usize) + (px as usize);
                    let ghost prev = dst@;
                    dst.set(idx, if on { fg } else { bg });
                    proof {
                        assert((idx as int) / w == py && (idx as int) % w == px) by (nonlinear_arith)
                            requires idx == py * w + px, 0 <= px < w;
                        assert forall|i: int| 0 <= i < d0.len() implies #[trigger] dst@[i] == match glyph_pixel_upto(i, w, h, glyph_x as int, glyph_y as int, max_x as int, gr, row as int, col + 1) {
                            Some(on) => if on { fg } else { bg },
                            None => d0[i],
                        } by {
                            if i != idx {
                                assert(dst@[i] == prev[i]);
                                if w > 0 && i / w == py && i % w == px {
                                    assert(i == w * (i / w) + i % w) by (nonlinear_arith)
                                        requires w > 0;
                                    assert(i == idx) by (nonlinear_arith)
                                        requires i == w * (i / w) + i % w, i / w == py, i % w == px, idx == py * w + px;
                                }
                            }
                        }
                    }
                } else {
                    proof {
                        assert forall|i: int| 0 <= i < d0.len() implies #[trigger] dst@[i] == match glyph_pixel_upto(i, w, h, glyph_x as int, glyph_y as int, max_x as int, gr, row as int, col + 1) {
                            Some(on) => if on { fg } else { bg },
                            None => d0[i],
                        } by {
                            if w > 0 && i >= 0 && (i % w) - glyph_x == col {
                                assert(i % w >= 0) by (nonlinear_arith) requires w > 0;
                            }
                        }
                    }
                }
                col = col + 1;
            }
            proof {
                assert forall|i: int| 0 <= i < d0.len() implies #[trigger] dst@[i] == match glyph_pixel_upto(i, w, h, glyph_x as int, glyph_y as int, max_x as int, gr, row + 1, 0) {
                    Some(on) => if on { fg } else { bg },
                    None => d0[i],
                } by {
                    if w > 0 && i >= 0 {
                        assert(0 <= i % w < w) by (nonlinear_arith) requires w > 0, i >= 0;
                    }
                }
            }
        } else {
            proof {
                assert forall|i: int| 0 <= i < d0.len() implies #[trigger] dst@[i] == match glyph_pixel_upto(i, w, h, glyph_x as int, glyph_y as int, max_x as int, gr, row + 1, 0) {
                    Some(on) => if on { fg } else { bg },
                    None => d0[i],
                } by {
                    if w > 0 && i >= 0 {
                        assert(i / w >= 0) by (nonlinear_arith) requires w > 0, i >= 0;
                    }
                }
            }
        }
        row = row + 1;
    }
    proof {
        assert forall|i: int| 0 <= i < d0.len() implies #[trigger] dst@[i] == blitted_glyph(d0, w, h, glyph_x as int, glyph_y as int, max_x as int, gr, fg, bg)[i] by {
            if w > 0 && i >= 0 && row < nrows {
                assert(i / w < h || true);
            }
        }
        assert(dst@ =~= blitted_glyph(d0, w, h, glyph_x as int, glyph_y as int, max_x as int, gr, fg, bg));
    }
}

/// The glyph drawn for byte `b`: ASCII bytes as themselves, others as `?`;
/// `?` again when the font has no glyph for the character.
pub open spec fn title_glyph(b: u8) -> Option<Seq<Seq<bool>>> {
    let c: u8 = if b < 128 { b } else { 63u8 };
    match spleen_glyph(FontFace::Spleen8x16, seq![c]) {
        Some(g) => Some(g),
        None => spleen_glyph(FontFace::Spleen8x16, seq![63u8]),
    }
}

/// A glyph small enough to draw (every real glyph is).
pub open spec fn glyph_small(g: Seq<Seq<bool>>) -> bool {
    &&& g.len() <= 0x1000_0000
    &&& forall|k: int| 0 <= k < g.len() ==> (#[trigger] g[k]).len() <= 0x1000_0000
}

/// `dst` after drawing the first `n` bytes of `text` from `(start_x,
/// start_y)`, one 8-pixel cell per byte, stopping before the first cell
/// that would cross `max_x`.
pub open spec fn drawn_text(
    dst: Seq<u32>,
    w: int,
    h: int,
    start_x: int,
    start_y: int,
    max_x: int,
    text: Seq<u8>,
    fg: u32,
    bg: u32,
    n: int,
) -> Seq<u32>
    decreases n,
{
    if n <= 0 {
        dst
    } else {
        let prev = drawn_text(dst, w, h, start_x, start_y, max_x, text, fg, bg, n - 1);
        let x = start_x + TITLE_GLYPH_WIDTH * (n - 1);
        if x + TITLE_GLYPH_WIDTH > max_x {
            prev
        } else {
            match title_glyph(text[n - 1]) {
                Some(g) => if glyph_small(g) { blitted_glyph(prev, w, h, x, start_y, max_x, g, fg, bg) } else { prev },
                None => prev,
            }
        }
    }
}

pub(crate) fn glyph_fits(rows: &Vec<Vec<bool>>) -> (b: bool)
    ensures
        b == glyph_small(rows.deep_view()),
{
    if rows.len() > 0x1000_0000 {
        return false;
    }
    let mut k: usize = 0;
    while k < rows.len()
        invariant
            k <= rows@.len(),
            rows@.len() <= 0x1000_0000,
            forall|j: int| 0 <= j < k ==> (#[trigger] rows.deep_view()[j]).len() <= 0x1000_0000,
        decreases rows@.len() - k,
    {
        proof {
            assert(rows.deep_view()[k as int] == rows@[k as int].deep_view());
        }
        if rows[k].len() > 0x1000_0000 {
            return false;
        }
        k = k + 1;
    }
    true
}

/// Draw the bytes of `text` left to right from `(start_x, start_y)` in the
/// title font (loaded into `font` on first use), one 8-pixel cell per byte,
/// stopping before the first cell that would cross `max_x`. Nothing is
/// drawn when the font cannot be loaded.
pub fn draw_text_clipped(
    font: &mut Option<Font>,
    dst: &mut Vec<u32>,
    dst_w: u32,
    dst_h: u32,
    start_x: i32,
    start_y: i32,
    max_x: i32,
    text: &[u8],
    fg: u32,
    bg: u32,
)
    requires
        *old(font) matches Some(f) ==> f.spec_face() == FontFace::Spleen8x16,
        dst_w * dst_h <= old(dst)@.len(),
    ensures
        *final(font) matches Some(f) ==> f.spec_face() == FontFace::Spleen8x16,
        final(dst)@.len() == old(dst)@.len(),
        *final(font) is Some,
        *final(font) is None ==> final(dst)@ == old(dst)@,
        *final(font) is Some ==> final(dst)@ == drawn_text(
            old(dst)@,
            dst_w as int,
            dst_h as int,
            start_x as int,
            start_y as int,
            max_x as int,
            text@,
            fg,
            bg,
            text@.len() as int,
        ),
{
    if font.is_none() {
        *font = load_font_8x16();
    }
    let mut f = match font.take() {
        Some(f) => f,
        None => {
            return;
        },
    };
    let ghost d0 = dst@;
    let mut x: i64 = start_x as i64;
    let mut i: usize = 0;
    while i < text.len()
        invariant
            i <= text@.len(),
            f.spec_face() == FontFace::Spleen8x16,
            x == start_x + TITLE_GLYPH_WIDTH * i,
            i32::MIN <= x <= i32::MAX,
            dst_w * dst_h <= d0.len(),
            dst@.len() == d0.len(),
            dst@ == drawn_text(d0, dst_w as int, dst_h as int, start_x as int, start_y as int, max_x as int, text@, fg, bg, i as int),
        ensures
            dst@ == drawn_text(d0, dst_w as int, dst_h as int, start_x as int, start_y as int, max_x as int, text@, fg, bg, text@.len() as int),
        decreases text@.len() - i,
    {
        if x + 8 > max_x as i64 {
            proof {
                lemma_drawn_text_stops(d0, dst_w as int, dst_h as int, start_x as int, start_y as int, max_x as int, text@, fg, bg, i as int, text@.len() as int);
            }
            break;
        }
        let b = text[i];
        let c: u8 = if b < 128 { b } else { 63 };
        let c_arr = [c];
        let g = match glyph_rows(&mut f, &c_arr) {
            Some(g) => Some(g),
            None => {
                let q = [63u8];
                glyph_rows(&mut f, &q)
            },
        };
        proof {
            assert(c_arr@ =~= seq![c]);
            assert(seq![63u8] =~= [63u8]@);
        }
        match g {
            Some(rows) => {
                if glyph_fits(&rows) {
                    blit_glyph(dst, dst_w, dst_h, x as i32, start_y, max_x, &rows, fg, bg);
                }
            },
            None => {},
        }
        x = x + 8;
        i = i + 1;
    }
    *font = Some(f);
}

/// `dst` with `text` drawn as `draw_text_clipped` draws it when the font is
/// available (`ok`), and unchanged when it is not.
pub open spec fn text_at(
    dst: Seq<u32>,
    w: u32,
    h: u32,
    start_x: int,
    start_y: int,
    max_x: int,
    text: Seq<u8>,
    fg: u32,
    bg: u32,
    ok: bool,
) -> Seq<u32> {
    if ok {
        drawn_text(dst, w as int, h as int, start_x, start_y, max_x, text, fg, bg, text.len() as int)
    } else {
        dst
    }
}

/// Load the title font into `font` unless it is loaded already.
pub fn ensure_title_font(font: &mut Option<Font>)
    requires
        *old(font) matches Some(f) ==> f.spec_face() == FontFace::Spleen8x16,
    ensures
        *final(font) is Some,
        *final(font) matches Some(f) ==> f.spec_face() == FontFace::Spleen8x16,
        *old(font) is Some ==> *final(font) == *old(font),
{
    if font.is_none() {
        *font = load_font_8x16();
    }
}

/// Draw `text` with the title font if it is loaded; do nothing otherwise.
/// The font stays loaded or unloaded.
pub fn draw_text_if_loaded(
    font: &mut Option<Font>,
    dst: &mut Vec<u32>,
    dst_w: u32,
    dst_h: u32,
    start_x: i32,
    start_y: i32,
    max_x: i32,
    text: &[u8],
    fg: u32,
    bg: u32,
)
    requires
        *old(font) matches Some(f) ==> f.spec_face() == FontFace::Spleen8x16,
        dst_w * dst_h <= old(dst)@.len(),
    ensures
        *final(font) matches Some(f) ==> f.spec_face() == FontFace::Spleen8x16,
        (*final(font) is Some) == (*old(font) is Some),
        final(dst)@.len() == old(dst)@.len(),
        final(dst)@ == text_at(old(dst)@, dst_w, dst_h, start_x as int, start_y as int, max_x as int, text@, fg, bg,
            *old(font) is Some),
{
    if font.is_some() {
        draw_text_clipped(font, dst, dst_w, dst_h, start_x, start_y, max_x, text, fg, bg);
    }
}

proof fn lemma_drawn_text_stops(
    dst: Seq<u32>,
    w: int,
    h: int,
    start_x: int,
    start_y: int,
    max_x: int,
    text: Seq<u8>,
    fg: u32,
    bg: u32,
    i: int,
    m: int,
)
    requires
        0 <= i <= m,
        start_x + TITLE_GLYPH_WIDTH * i + TITLE_GLYPH_WIDTH > max_x,
    ensures
        drawn_text(dst, w, h, start_x, start_y, max_x, text, fg, bg, m) == drawn_text(dst, w, h, start_x, start_y, max_x, text, fg, bg, i),
    decreases m - i,
{
    if m > i {
        lemma_drawn_text_stops(dst, w, h, start_x, start_y, max_x, text, fg, bg, i, m - 1);
    }
}

} // verus!
