//! Text on the GPU framebuffer: Spleen 16x32 glyphs with newlines and
//! wrapping at the right edge, rectangle fills, and the boot log screen.
use vstd::prelude::*;
use vstd::utf8::{decode_utf8, encode_scalar, encode_utf8, valid_utf8};

use crate::font::{glyph_rows, load_font_16x32, spleen_glyph, Font, FontFace};
use crate::compositor::text::{blit_glyph, blitted_glyph, glyph_fits, glyph_small};
use crate::strings::{char_utf8, str_chars, utf8_str};

verus! {

/// Glyph width of the boot font.
pub const GLYPH_WIDTH: u32 = 16;
/// Glyph height of the boot font.
pub const GLYPH_HEIGHT: u32 = 32;
/// Left margin of the boot log.
pub const LOG_X: i32 = 16;
/// First row of log lines, below the header.
pub const LOG_Y_START: i32 = 64;

/// The framebuffer's geometry: pixels per row in memory, and the visible
/// width and height.
#[derive(Debug, Clone, Copy, PartialEq, Eq, Structural)]
pub struct FbInfo {
    pub stride_px: u32,
    pub width: u32,
    pub height: u32,
}

impl FbInfo {
    /// The visible width fits the stride and both sides fit `i32`.
    pub open spec fn wf(&self) -> bool {
        &&& self.width <= self.stride_px
        &&& self.width <= i32::MAX
        &&& self.height <= i32::MAX
    }
}

/// The glyph drawn for `c`: its own, or `?` when the font has none.
pub open spec fn boot_glyph(c: char) -> Option<Seq<Seq<bool>>> {
    match spleen_glyph(FontFace::Spleen16x32, encode_utf8(seq![c])) {
        Some(g) => Some(g),
        None => spleen_glyph(FontFace::Spleen16x32, seq![63u8]),
    }
}

/// The buffer with the glyph of `c` drawn at `(x, y)`, clipped to the
/// visible area.
pub open spec fn glyph_at(s: Seq<u32>, fb: FbInfo, c: char, x: int, y: int, fg: u32, bg: u32) -> Seq<u32> {
    match boot_glyph(c) {
        Some(g) => if glyph_small(g) {
            blitted_glyph(s, fb.stride_px as int, fb.height as int, x, y, fb.width as int, g, fg, bg)
        } else {
            s
        },
        None => s,
    }
}

/// The state after drawing the first `n` characters of `chars` from
/// `(sx, sy)`: the buffer, the cursor, and whether drawing stopped at the
/// bottom. A newline returns to `sx` one line down; a character that would
/// cross the right edge wraps first; nothing is drawn once a line would
/// cross the bottom.
pub open spec fn text_state(
    s: Seq<u32>, fb: FbInfo, chars: Seq<char>, sx: int, sy: int, fg: u32, bg: u32, n: int,
) -> (Seq<u32>, int, int, bool)
    decreases n,
{
    if n <= 0 {
        (s, sx, sy, false)
    } else {
        let (d, cx, cy, stop) = text_state(s, fb, chars, sx, sy, fg, bg, n - 1);
        let c = chars[n - 1];
        if stop || cy + GLYPH_HEIGHT > fb.height {
            (d, cx, cy, true)
        } else if c == '\n' {
            (d, sx, cy + GLYPH_HEIGHT, false)
        } else {
            let wrap = cx + GLYPH_WIDTH > fb.width;
            let cx2 = if wrap { sx } else { cx };
            let cy2 = if wrap { cy + GLYPH_HEIGHT } else { cy };
            if cy2 + GLYPH_HEIGHT > fb.height {
                (d, cx2, cy2, true)
            } else {
                (glyph_at(d, fb, c, cx2, cy2, fg, bg), cx2 + GLYPH_WIDTH, cy2, false)
            }
        }
    }
}

proof fn lemma_text_state_bounds(
    s: Seq<u32>, fb: FbInfo, chars: Seq<char>, sx: int, sy: int, fg: u32, bg: u32, n: int,
)
    requires
        fb.wf(),
        sy + GLYPH_HEIGHT <= i32::MAX,
        sx + GLYPH_WIDTH <= i32::MAX,
        i32::MIN <= sx,
        i32::MIN <= sy,
    ensures
        ({
            let (d, cx, cy, stop) = text_state(s, fb, chars, sx, sy, fg, bg, n);
            &&& sx <= cx
            &&& (cx <= fb.width || cx <= sx + GLYPH_WIDTH)
            &&& sy <= cy
            &&& (cy == sy || cy <= fb.height)
        }),
    decreases n,
{
    if n > 0 {
        lemma_text_state_bounds(s, fb, chars, sx, sy, fg, bg, n - 1);
    }
}

/// The glyph rows drawn for `c`: its own glyph, else the `?` glyph.
fn char_glyph(font: &mut Font, c: char) -> (r: Option<Vec<Vec<bool>>>)
    requires
        old(font).spec_face() == FontFace::Spleen16x32,
    ensures
        final(font).spec_face() == FontFace::Spleen16x32,
        match r {
            Some(v) => boot_glyph(c) == Some(v.deep_view()),
            None => boot_glyph(c) is None,
        },
{
    let bytes = char_utf8(c);
    proof {
        assert(encode_scalar(c as u32).len() > 0);
        assert(encode_utf8(seq![c]).len() >= encode_scalar(c as u32).len());
    }
    match glyph_rows(font, bytes.as_slice()) {
        Some(g) => Some(g),
        None => {
            let q = [63u8];
            proof {
                assert(q@ =~= seq![63u8]);
            }
            glyph_rows(font, &q)
        },
    }
}

/// Draw `text` from `(start_x, start_y)` in the boot font: `\n` starts a
/// new line at `start_x`, a character that would cross the right edge wraps
/// to the next line, and drawing stops at the first line that would cross
/// the bottom.
pub fn draw_text(
    font: &mut Font,
    fb: &FbInfo,
    buf: &mut Vec<u32>,
    text: &str,
    start_x: i32,
    start_y: i32,
    fg: u32,
    bg: u32,
)
    requires
        old(font).spec_face() == FontFace::Spleen16x32,
        fb.wf(),
        fb.stride_px * fb.height <= old(buf)@.len(),
        start_x + GLYPH_WIDTH <= i32::MAX,
        start_y + GLYPH_HEIGHT <= i32::MAX,
    ensures
        final(font).spec_face() == FontFace::Spleen16x32,
        final(buf)@.len() == old(buf)@.len(),
        final(buf)@ == text_state(old(buf)@, *fb, text@, start_x as int, start_y as int, fg, bg, text@.len() as int).0,
{
    let chars = str_chars(text);
    let ghost s0 = buf@;
    let ghost seq = text@;
    let mut cx: i64 = start_x as i64;
    let mut cy: i64 = start_y as i64;
    let mut i: usize = 0;
    while i < chars.len()
        invariant_except_break
            i <= chars@.len(),
            chars@ == seq,
            fb.wf(),
            fb.stride_px * fb.height <= s0.len(),
            buf@.len() == s0.len(),
            font.spec_face() == FontFace::Spleen16x32,
            start_x + GLYPH_WIDTH <= i32::MAX,
            start_y + GLYPH_HEIGHT <= i32::MAX,
            text_state(s0, *fb, seq, start_x as int, start_y as int, fg, bg, i as int) == (buf@, cx as int, cy as int, false),
        ensures
            font.spec_face() == FontFace::Spleen16x32,
            buf@.len() == s0.len(),
            buf@ == text_state(s0, *fb, seq, start_x as int, start_y as int, fg, bg, seq.len() as int).0,
        decreases chars@.len() - i,
    {
        proof {
            lemma_text_state_bounds(s0, *fb, seq, start_x as int, start_y as int, fg, bg, i as int);
        }
        let c = chars[i];
        if cy + 32 > fb.height as i64 {
            proof {
                lemma_stopped_stays(s0, *fb, seq, start_x as int, start_y as int, fg, bg, i as int + 1, seq.len() as int);
            }
            break;
        }
        if c == '\n' {
            cx = start_x as i64;
            cy = cy + 32;
            i = i + 1;
            continue;
        }
        if cx + 16 > fb.width as i64 {
            cx = start_x as i64;
            cy = cy + 32;
            if cy + 32 > fb.height as i64 {
                proof {
                    lemma_stopped_stays(s0, *fb, seq, start_x as int, start_y as int, fg, bg, i as int + 1, seq.len() as int);
                }
                break;
            }
        }
        match char_glyph(font, c) {
            Some(rows) => {
                if glyph_fits(&rows) {
                    blit_glyph(buf, fb.stride_px, fb.height, cx as i32, cy as i32, fb.width as i32, &rows, fg, bg);
                }
            },
            None => {},
        }
        cx = cx + 16;
        i = i + 1;
    }
}

proof fn lemma_stopped_stays(
    s: Seq<u32>, fb: FbInfo, chars: Seq<char>, sx: int, sy: int, fg: u32, bg: u32, i: int, m: int,
)
    requires
        1 <= i <= m,
        text_state(s, fb, chars, sx, sy, fg, bg, i).3,
    ensures
        text_state(s, fb, chars, sx, sy, fg, bg, m).0 == text_state(s, fb, chars, sx, sy, fg, bg, i).0,
        text_state(s, fb, chars, sx, sy, fg, bg, m).3,
    decreases m - i,
{
    if m > i {
        lemma_stopped_stays(s, fb, chars, sx, sy, fg, bg, i, m - 1);
    }
}

/// The buffer with the rectangle `[x, x + w) x [y, y + h)`, clipped to the
/// visible area, set to `color`.
pub open spec fn fb_filled(s: Seq<u32>, fb: FbInfo, x: u32, y: u32, w: u32, h: u32, color: u32) -> Seq<u32> {
    let x0 = if x < fb.width { x as int } else { fb.width as int };
    let y0 = if y < fb.height { y as int } else { fb.height as int };
    let x1 = if x + w < fb.width { x + w } else { fb.width as int };
    let y1 = if y + h < fb.height { y + h } else { fb.height as int };
    Seq::new(
        s.len(),
        |i: int| if y0 <= i / (fb.stride_px as int) < y1 && x0 <= i % (fb.stride_px as int) < x1 { color } else { s[i] },
    )
}

/// Fill the rectangle `[x, x + w) x [y, y + h)`, clipped to the visible
/// area, with `color`.
pub fn fill_rect(fb: &FbInfo, buf: &mut Vec<u32>, x: u32, y: u32, w: u32, h: u32, color: u32)
    requires
        fb.wf(),
        fb.stride_px * fb.height <= old(buf)@.len(),
        x + w <= u32::MAX,
        y + h <= u32::MAX,
    ensures
        final(buf)@.len() == old(buf)@.len(),
        final(buf)@ == fb_filled(old(buf)@, *fb, x, y, w, h, color),
{
    let x_end = if x + w < fb.width { x + w } else { fb.width };
    let y_end = if y + h < fb.height { y + h } else { fb.height };
    let x0 = if x < fb.width { x } else { fb.width };
    let y0 = if y < fb.height { y } else { fb.height };
    let ghost s0 = buf@;
    let ghost st = fb.stride_px as int;
    if fb.stride_px == 0 {
        proof {
            assert(x0 == 0 && x_end == 0);
            assert(buf@ =~= fb_filled(s0, *fb, x, y, w, h, color));
        }
        return;
    }
    let n = buf.len();
    let mut row: u32 = y0;
    while row < y_end
        invariant
            y0 <= row <= y_end || (y_end < y0 && row == y0),
            y_end <= fb.height,
            x_end <= fb.width,
            fb.wf(),
            st == fb.stride_px,
            st > 0,
            fb.stride_px * fb.height <= s0.len(),
            n == s0.len(),
            buf@.len() == s0.len(),
            forall|i: int| 0 <= i < s0.len() ==> #[trigger] buf@[i] == (
                if y0 <= i / st < row && x0 <= i % st < x_end { color } else { s0[i] }
            ),
        decreases y_end - row,
    {
        let mut col: u32 = x0;
        proof {
            vstd::arithmetic::mul::lemma_mul_inequality(row as int, fb.height as int - 1, st);
            assert((fb.height as int - 1) * st == st * fb.height - st) by (nonlinear_arith);
        }
        while col < x_end
            invariant
                y0 <= row < y_end,
                x0 <= col <= x_end || (x_end < x0 && col == x0),
                y_end <= fb.height,
                x_end <= fb.width,
                fb.wf(),
                st == fb.stride_px,
                st > 0,
                row * st + st <= s0.len(),
                n == s0.len(),
                buf@.len() == s0.len(),
                forall|i: int| 0 <= i < s0.len() ==> #[trigger] buf@[i] == (
                    if (y0 <= i / st < row && x0 <= i % st < x_end) || (i / st == row && x0 <= i % st < col) { color } else { s0[i] }
                ),
            decreases x_end - col,
        {
            proof {
                vstd::arithmetic::div_mod::lemma_fundamental_div_mod_converse(row * st + col, st, row as int, col as int);
            }
            let idx = (row as usize) * (fb.stride_px as usize) + (col as usize);
            let ghost before = buf@;
            buf.set(idx, color);
            proof {
                assert forall|i: int| 0 <= i < s0.len() implies #[trigger] buf@[i] == (
                    if (y0 <= i / st < row && x0 <= i % st < x_end) || (i / st == row && x0 <= i % st < col + 1) { color } else { s0[i] }
                ) by {
                    if i != idx as int {
                        vstd::arithmetic::div_mod::lemma_fundamental_div_mod(i, st);
                        assert(before[i] == buf@[i]);
                        if i / st == row && i % st == col {
                            assert(i == st * (i / st) + i % st);
                            assert(st * row == row * st) by (nonlinear_arith);
                            assert(false);
                        }
                    }
                }
            }
            col = col + 1;
        }
        row = row + 1;
    }
    proof {
        assert(buf@ =~= fb_filled(s0, *fb, x, y, w, h, color));
    }
}

/// The colors of the boot log screen.
#[derive(Debug, Clone, Copy, PartialEq, Eq, Structural)]
pub struct BootLogColors {
    pub background: u32,
    pub header: u32,
    pub text: u32,
}

/// The bytes `AIOS Boot Log`.
pub open spec fn boot_log_header() -> Seq<char> {
    seq!['A', 'I', 'O', 'S', ' ', 'B', 'o', 'o', 't', ' ', 'L', 'o', 'g']
}

/// How many log lines fit below the header.
pub open spec fn max_log_lines(height: u32) -> int {
    let avail = height - LOG_Y_START;
    if avail <= 0 { 0 } else { avail / (GLYPH_HEIGHT as int) }
}

/// The characters a log line shows: its text when it is UTF-8,
/// `<invalid>` otherwise.
pub open spec fn line_chars(line: Seq<u8>) -> Seq<char> {
    if valid_utf8(line) { decode_utf8(line) } else { seq!['<', 'i', 'n', 'v', 'a', 'l', 'i', 'd', '>'] }
}

/// The first `n` log lines drawn, one per glyph row below the header
/// (empty lines leave their row blank).
pub open spec fn log_lines_drawn(s: Seq<u32>, fb: FbInfo, lines: Seq<Seq<u8>>, c: BootLogColors, n: int) -> Seq<u32>
    decreases n,
{
    if n <= 0 {
        s
    } else {
        let prev = log_lines_drawn(s, fb, lines, c, n - 1);
        let line = lines[n - 1];
        if line.len() == 0 {
            prev
        } else {
            text_state(prev, fb, line_chars(line), LOG_X as int, LOG_Y_START + (n - 1) * GLYPH_HEIGHT, c.text, c.background,
                line_chars(line).len() as int).0
        }
    }
}

/// The boot log screen: the background, the header, and as many lines of
/// the log as fit.
pub open spec fn boot_log_screen(s: Seq<u32>, fb: FbInfo, lines: Seq<Seq<u8>>, c: BootLogColors) -> Seq<u32> {
    let s1 = fb_filled(s, fb, 0, 0, fb.width, fb.height, c.background);
    let s2 = text_state(s1, fb, boot_log_header(), LOG_X as int, 0, c.header, c.background, 13).0;
    let n = if lines.len() < max_log_lines(fb.height) { lines.len() as int } else { max_log_lines(fb.height) };
    log_lines_drawn(s2, fb, lines, c, n)
}

/// Draw the boot log screen: fill the framebuffer with the background,
/// draw the header, then the log lines (`lines`, oldest first) one per
/// row from y = 64, as many as fit; a line that is not UTF-8 shows as
/// `<invalid>`. The boot font is loaded first; without it nothing is drawn.
pub fn draw_boot_log(font: &mut Option<Font>, fb: &FbInfo, buf: &mut Vec<u32>, lines: &Vec<Vec<u8>>, colors: BootLogColors)
    requires
        *old(font) matches Some(f) ==> f.spec_face() == FontFace::Spleen16x32,
        fb.wf(),
        fb.stride_px * fb.height <= old(buf)@.len(),
    ensures
        *final(font) is Some,
        *final(font) matches Some(f) ==> f.spec_face() == FontFace::Spleen16x32,
        *final(font) is None ==> final(buf)@ == old(buf)@,
        *final(font) is Some ==> final(buf)@ == boot_log_screen(old(buf)@, *fb, lines.deep_view(), colors),
{
    if font.is_none() {
        *font = load_font_16x32();
    }
    let mut f = match font.take() {
        Some(f) => f,
        None => {
            return;
        },
    };
    fill_rect(fb, buf, 0, 0, fb.width, fb.height, colors.background);
    let header = "AIOS Boot Log";
    proof {
        reveal_strlit("AIOS Boot Log");
        assert(header@ =~= boot_log_header());
    }
    draw_text(&mut f, fb, buf, header, LOG_X, 0, colors.header, colors.background);
    let avail: i64 = fb.height as i64 - LOG_Y_START as i64;
    let max_lines: usize = if avail <= 0 { 0 } else { (avail / 32) as usize };
    let count = if lines.len() < max_lines { lines.len() } else { max_lines };
    let ghost s2 = buf@;
    let ghost ls = lines.deep_view();
    let mut i: usize = 0;
    while i < count
        invariant
            i <= count,
            count <= lines@.len(),
            count <= max_log_lines(fb.height),
            ls == lines.deep_view(),
            fb.wf(),
            fb.stride_px * fb.height <= s2.len(),
            buf@.len() == s2.len(),
            f.spec_face() == FontFace::Spleen16x32,
            buf@ == log_lines_drawn(s2, *fb, ls, colors, i as int),
        decreases count - i,
    {
        let line = &lines[i];
        proof {
            assert(ls[i as int] == line@);
        }
        if line.len() > 0 {
            let y: i32 = LOG_Y_START + (i as i32) * 32;
            match utf8_str(line.as_slice()) {
                Some(s) => {
                    draw_text(&mut f, fb, buf, s, LOG_X, y, colors.text, colors.background);
                },
                None => {
                    let invalid = "<invalid>";
                    proof {
                        reveal_strlit("<invalid>");
                        assert(invalid@ =~= seq!['<', 'i', 'n', 'v', 'a', 'l', 'i', 'd', '>']);
                    }
                    draw_text(&mut f, fb, buf, invalid, LOG_X, y, colors.text, colors.background);
                },
            }
        }
        i = i + 1;
    }
    *font = Some(f);
}

} // verus!
