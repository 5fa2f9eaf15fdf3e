//! Window manager: z-order list, default placement, decoration geometry.
use vstd::prelude::*;
use vstd::arithmetic::div_mod::{lemma_fundamental_div_mod, lemma_fundamental_div_mod_converse};
use vstd::arithmetic::mul::lemma_mul_inequality;

use crate::ids::{SurfaceId, MAX_SURFACES};
use crate::font::{Font, FontFace};
use super::surface::{Surface, SurfaceLayer};
use super::text::{draw_text_clipped, drawn_text};

verus! {

/// Most-recently-focused-last z-order list within a single layer.
///
/// Bottom of the stack first, top last. The reserved `SurfaceId::NONE`
/// never appears in the list and the list never exceeds `MAX_SURFACES`.
pub struct ZOrder {
    entries: Vec<SurfaceId>,
}

impl View for ZOrder {
    type V = Seq<SurfaceId>;

    closed spec fn view(&self) -> Seq<SurfaceId> {
        self.entries@
    }
}

impl ZOrder {
    /// Well-formedness: bounded by `MAX_SURFACES`, never holds `NONE`.
    pub closed spec fn wf(&self) -> bool {
        &&& self.entries@.len() <= MAX_SURFACES
        &&& forall|i: int| 0 <= i < self.entries@.len() ==> !(#[trigger] self.entries@[i]).spec_is_none()
    }

    /// An empty z-order list.
    pub fn new() -> (z: Self)
        ensures
            z.wf(),
            z@ == Seq::<SurfaceId>::empty(),
    {
        ZOrder { entries: Vec::new() }
    }

    /// Append a surface to the top of the list. Returns `false` (and leaves
    /// the list unchanged) when the list is full or `id` is `NONE`.
    pub fn push(&mut self, id: SurfaceId) -> (ok: bool)
        requires
            old(self).wf(),
        ensures
            final(self).wf(),
            ok == (old(self)@.len() < MAX_SURFACES && !id.spec_is_none()),
            ok ==> final(self)@ == old(self)@.push(id),
            !ok ==> final(self)@ == old(self)@,
    {
        if self.entries.len() >= MAX_SURFACES || id.is_none() {
            return false;
        }
        self.entries.push(id);
        true
    }

    /// Index of the first occurrence of `id`, if any.
    fn position(&self, id: SurfaceId) -> (r: Option<usize>)
        ensures
            r == (match self@.index_of_first(id) {
                Some(i) => Some(i as usize),
                None => None::<usize>,
            }),
    {
        proof {
            self.entries@.index_of_first_ensures(id);
        }
        let mut i: usize = 0;
        while i < self.entries.len()
            invariant
                0 <= i <= self.entries@.len(),
                forall|j: int| 0 <= j < i ==> self.entries@[j] != id,
            decreases self.entries@.len() - i,
        {
            if self.entries[i] == id {
                proof {
                    self.entries@.index_of_first_ensures(id);
                    assert(self.entries@.contains(id));
                    let k = self.entries@.index_of_first(id)->0;
                    assert(k == i as int) by {
                        if k < i as int {
                            assert(self.entries@[k] != id);
                        } else if k > i as int {
                            assert(self.entries@[i as int] == id);
                        }
                    }
                }
                return Some(i);
            }
            i = i + 1;
        }
        proof {
            if self.entries@.contains(id) {
                let k = choose|k: int| 0 <= k < self.entries@.len() && self.entries@[k] == id;
                assert(self.entries@[k] != id);
            }
        }
        None
    }

    /// Remove the first occurrence of `id` (no-op when absent).
    pub fn remove(&mut self, id: SurfaceId)
        requires
            old(self).wf(),
        ensures
            final(self).wf(),
            final(self)@ == old(self)@.remove_value(id),
    {
        proof {
            self.entries@.index_of_first_ensures(id);
        }
        match self.position(id) {
            Some(pos) => {
                let _ = self.entries.remove(pos);
                proof {
                    let s = old(self).entries@;
                    s.remove_ensures(pos as int);
                    assert forall|i: int| 0 <= i < self.entries@.len() implies !(#[trigger] self.entries@[i]).spec_is_none() by {
                        if i < pos as int {
                            assert(self.entries@[i] == s[i]);
                        } else {
                            assert(self.entries@[i] == s[i + 1]);
                        }
                    }
                }
            },
            None => {},
        }
    }

    /// True when `id` appears in the list.
    pub fn contains(&self, id: SurfaceId) -> (r: bool)
        ensures
            r == self@.contains(id),
    {
        proof {
            self.entries@.index_of_first_ensures(id);
        }
        self.position(id).is_some()
    }

    /// Move `id` to the top of the list (no-op when absent).
    pub fn raise_to_top(&mut self, id: SurfaceId)
        requires
            old(self).wf(),
        ensures
            final(self).wf(),
            old(self)@.contains(id) ==> final(self)@ == old(self)@.remove_value(id).push(id),
            !old(self)@.contains(id) ==> final(self)@ == old(self)@,
    {
        if self.contains(id) {
            proof {
                old(self).entries@.index_of_first_ensures(id);
                let k = old(self).entries@.index_of_first(id)->0;
                assert(!old(self).entries@[k].spec_is_none());
            }
            self.remove(id);
            let ok = self.push(id);
            assert(ok);
        }
    }

    /// Surface ids bottom of stack first, top last.
    pub fn iter(&self) -> (r: Vec<SurfaceId>)
        ensures
            r@ == self@,
    {
        self.entries.clone()
    }

    /// Surface ids top of stack first (used by hit-testing).
    pub fn iter_top_down(&self) -> (r: Vec<SurfaceId>)
        ensures
            r@ == self@.reverse(),
    {
        let mut out: Vec<SurfaceId> = Vec::new();
        let n = self.entries.len();
        let mut k: usize = n;
        while k > 0
            invariant
                k <= n,
                n == self.entries@.len(),
                out@.len() == n - k,
                forall|j: int| 0 <= j < out@.len() ==> out@[j] == self.entries@[n - 1 - j],
            decreases k,
        {
            k = k - 1;
            out.push(self.entries[k]);
        }
        assert(out@ =~= self.entries@.reverse());
        out
    }

    /// Number of surfaces in the list.
    pub fn len(&self) -> (r: usize)
        ensures
            r == self@.len(),
    {
        self.entries.len()
    }
}


// ---------------------------------------------------------------------------
// Default placement
// ---------------------------------------------------------------------------

/// Cascading offset between successive new windows.
pub const CASCADE_STEP: i32 = 24;

/// Maximum cascade distance before wrapping back to the centered position.
pub const CASCADE_WRAP: i32 = 192;

/// The value of `w as i32` (two's-complement reinterpretation).
pub open spec fn i32_of_u32(w: u32) -> int {
    if w <= 0x7fff_ffff { w as int } else { w as int - 0x1_0000_0000 }
}

/// The value of `s as i32` (truncation to the low 32 bits, signed).
pub open spec fn i32_of_u64(s: u64) -> int {
    let low = s as int % 0x1_0000_0000;
    if low <= 0x7fff_ffff { low } else { low - 0x1_0000_0000 }
}

/// Rust's `%` on signed integers: the remainder takes the dividend's sign.
pub open spec fn trunc_rem(a: int, b: int) -> int
    recommends
        b > 0,
{
    if a >= 0 { a % b } else { -((-a) % b) }
}

/// `max(v, 0)`.
pub open spec fn nonneg(v: int) -> int {
    if v < 0 { 0 } else { v }
}

/// Centered origin of a `width`x`height` window on the display (clamped at 0).
pub open spec fn centered(width: u32, display: u32) -> int {
    nonneg((i32_of_u32(display) - i32_of_u32(width)) / 2)
}

/// Cascade offset for the `sequence`-th window.
pub open spec fn cascade_offset(sequence: u64) -> int {
    trunc_rem(i32_of_u64(sequence) * 24, 192)
}

pub(crate) fn u32_as_i32(w: u32) -> (r: i32)
    ensures
        r as int == i32_of_u32(w),
{
    let r = w as i32;
    assert(r as int == i32_of_u32(w)) by (bit_vector)
        requires
            r == w as i32,
    ;
    r
}

fn u64_as_i32(s: u64) -> (r: i32)
    ensures
        r as int == i32_of_u64(s),
{
    let r = s as i32;
    let low = s as u32;
    assert(low as int == s as int % 0x1_0000_0000) by (bit_vector)
        requires
            low == s as u32,
    ;
    assert(r == low as i32) by (bit_vector)
        requires
            r == s as i32,
            low == s as u32,
    ;
    assert(r as int == i32_of_u32(low)) by (bit_vector)
        requires
            r == low as i32,
    ;
    r
}

fn rem_i32(a: i32, b: i32) -> (r: i32)
    requires
        b > 0,
    ensures
        r as int == trunc_rem(a as int, b as int),
{
    if a >= 0 {
        a % b
    } else if a == i32::MIN {
        let q: i32 = (a + b) % b;
        proof {
            assert(-(a as int) % (b as int) == (-(a as int) - b as int) % (b as int)) by (nonlinear_arith)
                requires
                    b > 0,
            ;
        }
        assert(-((a + b) as int) >= 0);
        let t: i32 = -(a + b);
        let m: i32 = t % b;
        -m
    } else {
        let t: i32 = -a;
        let m: i32 = t % b;
        -m
    }
}

/// Centered position for a new `width`x`height` window on a
/// `display_w`x`display_h` display, shifted by a cascading offset derived
/// from `sequence` so successive windows do not stack exactly.
pub fn default_position(
    width: u32,
    height: u32,
    display_w: u32,
    display_h: u32,
    sequence: u64,
) -> (r: (i32, i32))
    requires
        i32::MIN <= i32_of_u32(display_w) - i32_of_u32(width) <= i32::MAX,
        i32::MIN <= i32_of_u32(display_h) - i32_of_u32(height) <= i32::MAX,
        i32::MIN <= i32_of_u64(sequence) * 24 <= i32::MAX,
    ensures
        r.0 == centered(width, display_w) + cascade_offset(sequence),
        r.1 == centered(height, display_h) + cascade_offset(sequence),
{
    let w = u32_as_i32(width);
    let h = u32_as_i32(height);
    let dw = u32_as_i32(display_w);
    let dh = u32_as_i32(display_h);
    let dx: i32 = dw - w;
    let dy: i32 = dh - h;
    let cx0: i32 = dx / 2;
    let cy0: i32 = dy / 2;
    let cx: i32 = if cx0 < 0 { 0 } else { cx0 };
    let cy: i32 = if cy0 < 0 { 0 } else { cy0 };
    proof {
        // Truncating and flooring division agree on non-negative values, and
        // both are non-positive on negative values, so the clamp matches.
        assert(nonneg(cx0 as int) == nonneg((dx as int) / 2)) by (nonlinear_arith)
            requires
                dx >= 0 ==> cx0 as int == (dx as int) / 2,
                dx < 0 ==> cx0 <= 0,
        ;
        assert(nonneg(cy0 as int) == nonneg((dy as int) / 2)) by (nonlinear_arith)
            requires
                dy >= 0 ==> cy0 as int == (dy as int) / 2,
                dy < 0 ==> cy0 <= 0,
        ;
    }
    let s = u64_as_i32(sequence);
    let prod: i32 = s * CASCADE_STEP;
    let offset = rem_i32(prod, CASCADE_WRAP);
    assert(-192 < offset < 192);
    assert(0 <= cx <= 0x4000_0000);
    assert(0 <= cy <= 0x4000_0000);
    (cx + offset, cy + offset)
}

/// Minimum content width of a window.
pub const MIN_WINDOW_WIDTH: u32 = 160;
/// Minimum content height of a window.
pub const MIN_WINDOW_HEIGHT: u32 = 100;

/// Clamp a candidate `(width, height)` resize to the minimum allowed
/// content dimensions.
pub fn clamp_window_size(width: u32, height: u32) -> (r: (u32, u32))
    ensures
        r.0 == (if width < MIN_WINDOW_WIDTH { MIN_WINDOW_WIDTH } else { width }),
        r.1 == (if height < MIN_WINDOW_HEIGHT { MIN_WINDOW_HEIGHT } else { height }),
{
    let w = if width < MIN_WINDOW_WIDTH { MIN_WINDOW_WIDTH } else { width };
    let h = if height < MIN_WINDOW_HEIGHT { MIN_WINDOW_HEIGHT } else { height };
    (w, h)
}


// ---------------------------------------------------------------------------
// Rectangle fill
// ---------------------------------------------------------------------------

/// `min(max(v, 0), hi)`.
pub open spec fn clip(v: int, hi: int) -> int {
    let lo = nonneg(v);
    if lo < hi { lo } else { hi }
}

/// `a.saturating_add(b)` on `i32`.
pub open spec fn sat_add_i32(a: int, b: int) -> int {
    if a + b > 0x7fff_ffff { 0x7fff_ffff } else if a + b < -0x8000_0000 { -0x8000_0000 } else { a + b }
}

/// The clipped rectangle `(x0, y0, x1, y1)` that `fill_rect` paints.
pub open spec fn fill_bounds(dst_w: u32, dst_h: u32, x: i32, y: i32, width: u32, height: u32) -> (int, int, int, int) {
    let wi = i32_of_u32(dst_w);
    let hi = i32_of_u32(dst_h);
    (
        clip(x as int, wi),
        clip(y as int, hi),
        clip(sat_add_i32(x as int, i32_of_u32(width)), wi),
        clip(sat_add_i32(y as int, i32_of_u32(height)), hi),
    )
}

/// True when `fill_rect` paints at least one pixel.
pub open spec fn fill_nonempty(dst_w: u32, dst_h: u32, x: i32, y: i32, width: u32, height: u32) -> bool {
    let b = fill_bounds(dst_w, dst_h, x, y, width, height);
    width != 0 && height != 0 && b.2 > b.0 && b.3 > b.1
}

/// Pixel `i` of a row-major buffer of row width `w` lies in `[x0,x1) x [y0,y1)`.
pub open spec fn in_rect(i: int, w: int, b: (int, int, int, int)) -> bool {
    &&& b.1 <= i / w < b.3
    &&& b.0 <= i % w < b.2
}

/// The buffer after `fill_rect`: pixels inside the clipped rectangle take
/// `color`, every other pixel keeps its value.
pub open spec fn filled(old: Seq<u32>, dst_w: u32, dst_h: u32, x: i32, y: i32, width: u32, height: u32, color: u32) -> Seq<u32> {
    let b = fill_bounds(dst_w, dst_h, x, y, width, height);
    if fill_nonempty(dst_w, dst_h, x, y, width, height) {
        Seq::new(old.len(), |i: int| if in_rect(i, dst_w as int, b) { color } else { old[i] })
    } else {
        old
    }
}

/// `fill_rect` stays inside the buffer.
pub open spec fn fill_fits(len: nat, dst_w: u32, dst_h: u32, x: i32, y: i32, width: u32, height: u32) -> bool {
    let b = fill_bounds(dst_w, dst_h, x, y, width, height);
    fill_nonempty(dst_w, dst_h, x, y, width, height) ==> (b.3 - 1) * dst_w + b.2 <= len
}

fn clip_exec(v: i32, hi: i32) -> (r: i32)
    ensures
        r as int == clip(v as int, hi as int),
{
    let lo = if v < 0 { 0 } else { v };
    if lo < hi { lo } else { hi }
}

fn sat_add_exec(a: i32, b: i32) -> (r: i32)
    ensures
        r as int == sat_add_i32(a as int, b as int),
{
    let s: i64 = a as i64 + b as i64;
    if s > i32::MAX as i64 {
        i32::MAX
    } else if s < i32::MIN as i64 {
        i32::MIN
    } else {
        s as i32
    }
}

proof fn lemma_row_col(row: int, col: int, w: int)
    requires
        0 <= row,
        0 <= col < w,
    ensures
        (row * w + col) / w == row,
        (row * w + col) % w == col,
{
    lemma_fundamental_div_mod_converse(row * w + col, w, row, col);
}

/// Fill a rectangle of `dst` (a row-major buffer of row width `dst_w`) with
/// `color`. The rectangle is clipped to `[0, dst_w) x [0, dst_h)`.
#[verifier::rlimit(40)]
pub fn fill_rect(
    dst: &mut Vec<u32>,
    dst_w: u32,
    dst_h: u32,
    x: i32,
    y: i32,
    width: u32,
    height: u32,
    color: u32,
)
    requires
        fill_fits(old(dst)@.len(), dst_w, dst_h, x, y, width, height),
    ensures
        final(dst)@ == filled(old(dst)@, dst_w, dst_h, x, y, width, height, color),
{
    if width == 0 || height == 0 {
        return;
    }
    let dst_w_i = u32_as_i32(dst_w);
    let dst_h_i = u32_as_i32(dst_h);
    let x0 = clip_exec(x, dst_w_i);
    let y0 = clip_exec(y, dst_h_i);
    let x1 = clip_exec(sat_add_exec(x, u32_as_i32(width)), dst_w_i);
    let y1 = clip_exec(sat_add_exec(y, u32_as_i32(height)), dst_h_i);
    if x1 <= x0 || y1 <= y0 {
        return;
    }
    let ghost b = fill_bounds(dst_w, dst_h, x, y, width, height);
    let ghost old_dst = dst@;
    let ghost w = dst_w as int;
    let n = dst.len();
    assert(b == (x0 as int, y0 as int, x1 as int, y1 as int));
    assert(x0 >= 0 && y0 >= 0);
    assert(w == dst_w_i as int);
    let stride = dst_w as usize;
    let mut row: usize = y0 as usize;
    while row < y1 as usize
        invariant
            y0 as int <= row <= y1 as int,
            0 <= x0 < x1 <= w,
            0 <= y0 < y1,
            w == stride,
            b == (x0 as int, y0 as int, x1 as int, y1 as int),
            (y1 - 1) * w + x1 <= old_dst.len(),
            n == old_dst.len(),
            dst@.len() == old_dst.len(),
            forall|i: int| 0 <= i < dst@.len() ==> #[trigger] dst@[i] == (
                if in_rect(i, w, (x0 as int, y0 as int, x1 as int, row as int)) { color } else { old_dst[i] }
            ),
        decreases y1 - row,
    {
        let mut col: usize = x0 as usize;
        proof {
            lemma_mul_inequality(row as int, y1 - 1, w);
        }
        while col < x1 as usize
            invariant
                y0 as int <= row < y1 as int,
                x0 as int <= col <= x1 as int,
                0 <= x0 < x1 <= w,
                0 <= y0,
                w == stride,
                row * w + x1 <= old_dst.len(),
                n == old_dst.len(),
                dst@.len() == old_dst.len(),
                forall|i: int| 0 <= i < dst@.len() ==> #[trigger] dst@[i] == (
                    if in_rect(i, w, (x0 as int, y0 as int, x1 as int, row as int))
                        || (i / w == row && x0 <= i % w < col) { color } else { old_dst[i] }
                ),
            decreases x1 - col,
        {
            proof {
                lemma_row_col(row as int, col as int, w);
                assert(row * w + col < old_dst.len());
            }
            let idx = row * stride + col;
            let ghost before = dst@;
            dst.set(idx, color);
            proof {
                assert forall|i: int| 0 <= i < dst@.len() implies #[trigger] dst@[i] == (
                    if in_rect(i, w, (x0 as int, y0 as int, x1 as int, row as int))
                        || (i / w == row && x0 <= i % w < col + 1) { color } else { old_dst[i] }
                ) by {
                    if i != idx as int {
                        lemma_fundamental_div_mod(i, w);
                        assert(before[i] == dst@[i]);
                        if i / w == row && i % w == col {
                            assert(i == w * (i / w) + i % w);
                            assert(w * row == row * w) by (nonlinear_arith);
                            assert(false);
                        }
                    }
                }
            }
            col = col + 1;
        }
        row = row + 1;
    }
    assert(dst@ =~= filled(old_dst, dst_w, dst_h, x, y, width, height, color));
}


// ---------------------------------------------------------------------------
// Decorations
// ---------------------------------------------------------------------------

/// Window decoration geometry (pixels).
#[derive(Debug, Clone, Copy, PartialEq, Eq, Structural)]
pub struct WindowDecoration {
    /// Width of the border drawn around the decorated rectangle.
    pub border_width: u32,
    /// Height of the title bar above the content.
    pub title_bar_height: u32,
    /// Width of the close-button cell at the right end of the title bar.
    pub close_button_width: u32,
}

impl WindowDecoration {
    /// The decoration used for every decorated window: a 2-pixel border and
    /// a 24-pixel title bar holding a 24-pixel close button.
    pub fn default_decoration() -> (d: WindowDecoration)
        ensures
            d.border_width == 2,
            d.title_bar_height == 24,
            d.close_button_width == 24,
    {
        WindowDecoration { border_width: 2, title_bar_height: 24, close_button_width: 24 }
    }
}

/// Title bar background of a focused window (B8G8R8A8).
pub const TITLE_BAR_FOCUSED_BG: u32 = 0xFF1E_2A48;
/// Title bar background of an unfocused window.
pub const TITLE_BAR_UNFOCUSED_BG: u32 = 0xFF55_5A66;
/// Title text color.
pub const TITLE_BAR_FG: u32 = 0xFFEC_F0F8;
/// Border color of focused windows.
pub const BORDER_FOCUSED: u32 = 0xFF5B_8CFF;
/// Border color of unfocused windows.
pub const BORDER_UNFOCUSED: u32 = 0xFF7A_8190;
/// Close-button cross color.
pub const CLOSE_BUTTON_FG: u32 = 0xFFFF_FFFF;

/// Border color for a window in the given focus state.
pub open spec fn border_color(focused: bool) -> u32 {
    if focused { BORDER_FOCUSED } else { BORDER_UNFOCUSED }
}

/// The four border strips (top, bottom, left, right) of the decorated rectangle.
pub open spec fn focus_indicator(
    old: Seq<u32>, dst_w: u32, dst_h: u32, x: i32, y: i32, width: u32, height: u32, focused: bool, border: u32,
) -> Seq<u32> {
    let c = border_color(focused);
    let bottom_y = (y + i32_of_u32(height) - i32_of_u32(border)) as i32;
    let right_x = (x + i32_of_u32(width) - i32_of_u32(border)) as i32;
    let s1 = filled(old, dst_w, dst_h, x, y, width, border, c);
    let s2 = filled(s1, dst_w, dst_h, x, bottom_y, width, border, c);
    let s3 = filled(s2, dst_w, dst_h, x, y, border, height, c);
    filled(s3, dst_w, dst_h, right_x, y, border, height, c)
}

/// Any rectangle fits a buffer that holds the whole `dst_w x dst_h` area.
pub proof fn lemma_fill_fits_area(len: nat, dst_w: u32, dst_h: u32, x: i32, y: i32, width: u32, height: u32)
    requires
        dst_w * dst_h <= len,
    ensures
        fill_fits(len, dst_w, dst_h, x, y, width, height),
{
    let b = fill_bounds(dst_w, dst_h, x, y, width, height);
    if fill_nonempty(dst_w, dst_h, x, y, width, height) {
        assert(b.3 <= dst_h && b.2 <= dst_w && b.3 >= 1);
        lemma_mul_inequality(b.3 - 1, dst_h as int - 1, dst_w as int);
        assert((dst_h as int - 1) * dst_w == dst_w * dst_h - dst_w) by (nonlinear_arith);
    }
}

/// `fill_rect` keeps the buffer length.
pub proof fn lemma_filled_len(old: Seq<u32>, dst_w: u32, dst_h: u32, x: i32, y: i32, width: u32, height: u32, color: u32)
    ensures
        filled(old, dst_w, dst_h, x, y, width, height, color).len() == old.len(),
{
}

/// Draw the border around a decorated outer rectangle `(x, y, width,
/// height)`, in the focused or unfocused border color. Nothing is drawn
/// when the decoration has no border.
pub fn render_focus_indicator(
    dst: &mut Vec<u32>,
    dst_w: u32,
    dst_h: u32,
    x: i32,
    y: i32,
    width: u32,
    height: u32,
    focused: bool,
    deco: &WindowDecoration,
)
    requires
        deco.border_width != 0 ==> {
            let b = i32_of_u32(deco.border_width);
            let bottom_y = y + i32_of_u32(height) - b;
            let right_x = x + i32_of_u32(width) - b;
            &&& i32::MIN <= y + i32_of_u32(height) <= i32::MAX
            &&& i32::MIN <= bottom_y <= i32::MAX
            &&& i32::MIN <= x + i32_of_u32(width) <= i32::MAX
            &&& i32::MIN <= right_x <= i32::MAX
            &&& fill_fits(old(dst)@.len(), dst_w, dst_h, x, y, width, deco.border_width)
            &&& fill_fits(old(dst)@.len(), dst_w, dst_h, x, bottom_y as i32, width, deco.border_width)
            &&& fill_fits(old(dst)@.len(), dst_w, dst_h, x, y, deco.border_width, height)
            &&& fill_fits(old(dst)@.len(), dst_w, dst_h, right_x as i32, y, deco.border_width, height)
        },
    ensures
        deco.border_width == 0 ==> final(dst)@ == old(dst)@,
        deco.border_width != 0 ==> final(dst)@ == focus_indicator(
            old(dst)@, dst_w, dst_h, x, y, width, height, focused, deco.border_width,
        ),
{
    let color = if focused { BORDER_FOCUSED } else { BORDER_UNFOCUSED };
    let border = deco.border_width;
    if border == 0 {
        return;
    }
    let h = u32_as_i32(height);
    let w = u32_as_i32(width);
    let b = u32_as_i32(border);
    let bottom_y: i32 = y + h - b;
    let right_x: i32 = x + w - b;
    proof {
        lemma_filled_len(old(dst)@, dst_w, dst_h, x, y, width, border, color);
    }
    fill_rect(dst, dst_w, dst_h, x, y, width, border, color);
    proof {
        lemma_filled_len(dst@, dst_w, dst_h, x, bottom_y, width, border, color);
    }
    fill_rect(dst, dst_w, dst_h, x, bottom_y, width, border, color);
    proof {
        lemma_filled_len(dst@, dst_w, dst_h, x, y, border, height, color);
    }
    fill_rect(dst, dst_w, dst_h, x, y, border, height, color);
    fill_rect(dst, dst_w, dst_h, right_x, y, border, height, color);
}

/// Compositor drag mode: at most one window is dragged at a time.
#[derive(Debug, Clone, Copy, PartialEq, Eq)]
pub enum DragState {
    /// No drag in progress.
    Idle,
    /// The user is moving a window by its title bar.
    Moving {
        surface: SurfaceId,
        start_pointer: (i32, i32),
        start_origin: (i32, i32),
    },
    /// The user is resizing a window by an edge or corner.
    Resizing {
        surface: SurfaceId,
        edge: ResizeEdge,
        start_pointer: (i32, i32),
        start_origin: (i32, i32),
        start_dims: (u32, u32),
    },
}

impl DragState {
    /// True when no drag is in progress.
    pub fn is_idle(self) -> (r: bool)
        ensures
            r == (self is Idle),
    {
        match self {
            DragState::Idle => true,
            _ => false,
        }
    }
}

/// Edge or corner of a window grabbed for a resize.
#[derive(Debug, Clone, Copy, PartialEq, Eq, Structural)]
pub enum ResizeEdge {
    North,
    South,
    East,
    West,
    NorthEast,
    NorthWest,
    SouthEast,
    SouthWest,
}

/// Part of a decorated window that a pointer position falls on.
#[derive(Debug, Clone, Copy, PartialEq, Eq, Structural)]
pub enum HitZone {
    /// The client content area.
    Content,
    /// The title bar (drag to move).
    TitleBar,
    /// The close button.
    CloseButton,
    /// A border edge or corner (drag to resize).
    Border(ResizeEdge),
}

// ---------------------------------------------------------------------------
// Title bar and decorated rectangle
// ---------------------------------------------------------------------------

/// Whether `surface` gets a title bar and border: only the `Normal` and
/// `TopLevel` layers are decorated.
pub open spec fn spec_is_decorated(surface: Surface) -> bool {
    surface.layer is Normal || surface.layer is TopLevel
}

/// Whether `surface` gets a title bar and border.
pub fn is_decorated(surface: &Surface) -> (r: bool)
    ensures
        r == spec_is_decorated(*surface),
{
    match surface.layer {
        SurfaceLayer::Normal | SurfaceLayer::TopLevel => true,
        _ => false,
    }
}

/// The decorated outer rectangle `(x, y, width, height)` of `surface`: the
/// content grown by the border on each side and by the title bar, for a
/// decorated surface; the content rectangle otherwise.
pub fn outer_rect(surface: &Surface, deco: &WindowDecoration) -> (r: (i32, i32, u32, u32))
    requires
        spec_is_decorated(*surface) ==> surface.width + 2 * deco.border_width <= u32::MAX,
        spec_is_decorated(*surface) ==> surface.height + 2 * deco.border_width + deco.title_bar_height <= u32::MAX,
    ensures
        r.0 == surface.x,
        r.1 == surface.y,
        !spec_is_decorated(*surface) ==> r.2 == surface.width && r.3 == surface.height,
        spec_is_decorated(*surface) ==> r.2 == surface.width + 2 * deco.border_width,
        spec_is_decorated(*surface) ==> r.3 == surface.height + 2 * deco.border_width + deco.title_bar_height,
{
    if !is_decorated(surface) {
        return (surface.x, surface.y, surface.width, surface.height);
    }
    let outer_w = surface.width + 2 * deco.border_width;
    let outer_h = surface.height + 2 * deco.border_width + deco.title_bar_height;
    (surface.x, surface.y, outer_w, outer_h)
}

/// The buffer with pixel `(x, y)` set to `c`, when it lies inside the
/// `w x h` area (the bounds read as `i32`, as the drawing code does).
pub open spec fn set_pixel(s: Seq<u32>, w: u32, h: u32, x: int, y: int, c: u32) -> Seq<u32> {
    if 0 <= x < i32_of_u32(w) && 0 <= y < i32_of_u32(h) {
        s.update(y * w + x, c)
    } else {
        s
    }
}

/// The inset of the close cross inside its cell: a quarter of the cell's
/// smaller side, at least 2.
pub open spec fn cross_pad(cell_w: u32, cell_h: u32) -> int {
    let m = if cell_w < cell_h { cell_w as int } else { cell_h as int };
    if m / 4 > 2 { m / 4 } else { 2 }
}

/// The first `n` steps of the cross: step `i` sets the pixel of the main
/// diagonal, then the pixel of the anti-diagonal, on row `pad + i`.
pub open spec fn cross_steps(
    s: Seq<u32>, w: u32, h: u32, cell_x: int, cell_y: int, pad: int, span: int, c: u32, n: int,
) -> Seq<u32>
    decreases n,
{
    if n <= 0 {
        s
    } else {
        let prev = cross_steps(s, w, h, cell_x, cell_y, pad, span, c, n - 1);
        let i = n - 1;
        let a = set_pixel(prev, w, h, cell_x + pad + i, cell_y + pad + i, c);
        set_pixel(a, w, h, cell_x + pad + (span - 1 - i), cell_y + pad + i, c)
    }
}

/// The inner width and height of the cross square in a `cell_w x cell_h` cell.
pub open spec fn cross_inner(cell_w: u32, cell_h: u32) -> (int, int) {
    let pad = cross_pad(cell_w, cell_h);
    (i32_of_u32(cell_w) - 2 * pad, i32_of_u32(cell_h) - 2 * pad)
}

/// The buffer after drawing the close cross ("X") in the cell at
/// `(cell_x, cell_y)`: nothing when the inset leaves no room.
pub open spec fn close_glyph(
    s: Seq<u32>, w: u32, h: u32, cell_x: i32, cell_y: i32, cell_w: u32, cell_h: u32, c: u32,
) -> Seq<u32> {
    let pad = cross_pad(cell_w, cell_h);
    let (iw, ih) = cross_inner(cell_w, cell_h);
    if iw <= 0 || ih <= 0 {
        s
    } else {
        let span = if iw < ih { iw } else { ih };
        cross_steps(s, w, h, cell_x as int, cell_y as int, pad, span, c, span)
    }
}

/// The coordinates of the cross stay inside `i32`.
pub open spec fn close_glyph_fits(cell_x: i32, cell_y: i32, cell_w: u32, cell_h: u32) -> bool {
    let pad = cross_pad(cell_w, cell_h);
    let (iw, ih) = cross_inner(cell_w, cell_h);
    &&& i32::MIN <= iw
    &&& i32::MIN <= ih
    &&& (iw > 0 && ih > 0) ==> {
        let span = if iw < ih { iw } else { ih };
        &&& cell_x + pad + span <= i32::MAX
        &&& cell_y + pad + span <= i32::MAX
    }
}

proof fn lemma_set_pixel_len(s: Seq<u32>, w: u32, h: u32, x: int, y: int, c: u32)
    requires
        w * h <= s.len(),
    ensures
        set_pixel(s, w, h, x, y, c).len() == s.len(),
{
    if 0 <= x < i32_of_u32(w) && 0 <= y < i32_of_u32(h) {
        lemma_mul_inequality(y, h as int - 1, w as int);
        assert((h as int - 1) * w == w * h - w) by (nonlinear_arith);
    }
}

proof fn lemma_cross_len(s: Seq<u32>, w: u32, h: u32, cell_x: int, cell_y: int, pad: int, span: int, c: u32, n: int)
    requires
        w * h <= s.len(),
    ensures
        cross_steps(s, w, h, cell_x, cell_y, pad, span, c, n).len() == s.len(),
    decreases n,
{
    if n > 0 {
        lemma_cross_len(s, w, h, cell_x, cell_y, pad, span, c, n - 1);
        let prev = cross_steps(s, w, h, cell_x, cell_y, pad, span, c, n - 1);
        let i = n - 1;
        lemma_set_pixel_len(prev, w, h, cell_x + pad + i, cell_y + pad + i, c);
        let a = set_pixel(prev, w, h, cell_x + pad + i, cell_y + pad + i, c);
        lemma_set_pixel_len(a, w, h, cell_x + pad + (span - 1 - i), cell_y + pad + i, c);
    }
}

/// Set pixel `(x, y)` when it lies inside the area.
fn put_pixel(dst: &mut Vec<u32>, dst_w: u32, dst_h: u32, x: i32, y: i32, c: u32)
    requires
        dst_w * dst_h <= old(dst)@.len(),
    ensures
        final(dst)@ == set_pixel(old(dst)@, dst_w, dst_h, x as int, y as int, c),
        final(dst)@.len() == old(dst)@.len(),
{
    let wi = u32_as_i32(dst_w);
    let hi = u32_as_i32(dst_h);
    if 0 <= x && x < wi && 0 <= y && y < hi {
        let n = dst.len();
        proof {
            assert(x < dst_w && y < dst_h);
            lemma_mul_inequality(y as int, dst_h as int - 1, dst_w as int);
            assert((dst_h as int - 1) * dst_w == dst_w * dst_h - dst_w) by (nonlinear_arith);
            assert((y as int) * (dst_w as int) + (x as int) < dst@.len());
            assert(dst@.len() == n);
        }
        let idx = (y as usize) * (dst_w as usize) + (x as usize);
        dst.set(idx, c);
    }
}

/// Draw the close cross ("X") centred in the close-button cell: two
/// one-pixel diagonals inset by a quarter of the cell's smaller side (at
/// least 2), clipped to the buffer.
fn draw_close_glyph(
    dst: &mut Vec<u32>,
    dst_w: u32,
    dst_h: u32,
    cell_x: i32,
    cell_y: i32,
    cell_w: u32,
    cell_h: u32,
    color: u32,
)
    requires
        dst_w * dst_h <= old(dst)@.len(),
        close_glyph_fits(cell_x, cell_y, cell_w, cell_h),
    ensures
        final(dst)@ == close_glyph(old(dst)@, dst_w, dst_h, cell_x, cell_y, cell_w, cell_h, color),
{
    let m = if cell_w < cell_h { cell_w } else { cell_h };
    let pad: i32 = if m / 4 > 2 { (m / 4) as i32 } else { 2 };
    let inner_w: i32 = u32_as_i32(cell_w) - 2 * pad;
    let inner_h: i32 = u32_as_i32(cell_h) - 2 * pad;
    if inner_w <= 0 || inner_h <= 0 {
        return;
    }
    let span = if inner_w < inner_h { inner_w } else { inner_h };
    let ghost s0 = dst@;
    let mut i: i32 = 0;
    while i < span
        invariant
            0 <= i <= span,
            pad as int == cross_pad(cell_w, cell_h),
            span as int == (if inner_w < inner_h { inner_w as int } else { inner_h as int }),
            cell_x + pad + span <= i32::MAX,
            cell_y + pad + span <= i32::MAX,
            pad > 0,
            dst_w * dst_h <= dst@.len(),
            dst@.len() == s0.len(),
            dst@ == cross_steps(s0, dst_w, dst_h, cell_x as int, cell_y as int, pad as int, span as int, color, i as int),
        decreases span - i,
    {
        let x_main = cell_x + pad + i;
        let y_main = cell_y + pad + i;
        let x_anti = cell_x + pad + (span - 1 - i);
        put_pixel(dst, dst_w, dst_h, x_main, y_main, color);
        put_pixel(dst, dst_w, dst_h, x_anti, y_main, color);
        proof {
            lemma_cross_len(s0, dst_w, dst_h, cell_x as int, cell_y as int, pad as int, span as int, color, i + 1);
        }
        i = i + 1;
    }
}

/// The x where the title text must stop: before the close cell, with a
/// 4-pixel gap.
pub open spec fn title_text_max_x(x: i32, content_width: u32, deco: WindowDecoration) -> int {
    let bar_w = content_width + 2 * deco.border_width;
    x + bar_w - deco.border_width - deco.close_button_width - 4
}

/// The buffer after `render_title_bar`: the bar filled with the focus
/// colour, the title text (when there is room before the close cell and the
/// title font is available) and the close cross.
pub open spec fn title_bar(
    s: Seq<u32>, dst_w: u32, dst_h: u32, x: i32, y: i32, content_width: u32, focused: bool, title: Seq<u8>,
    deco: WindowDecoration, font_ok: bool,
) -> Seq<u32> {
    let bar_w = (content_width + 2 * deco.border_width) as u32;
    let bar_y = (y + deco.border_width) as i32;
    let bg = if focused { TITLE_BAR_FOCUSED_BG } else { TITLE_BAR_UNFOCUSED_BG };
    let s1 = filled(s, dst_w, dst_h, x, bar_y, bar_w, deco.title_bar_height, bg);
    let text_max_x = title_text_max_x(x, content_width, deco);
    let text_x = x + 8;
    let text_y = bar_y + (deco.title_bar_height as int) / 2 - 6;
    let s2 = if text_max_x > text_x && font_ok {
        drawn_text(s1, dst_w as int, dst_h as int, text_x, text_y, text_max_x, title, TITLE_BAR_FG, bg, title.len() as int)
    } else {
        s1
    };
    let cell_x = (x + bar_w - deco.border_width - deco.close_button_width) as i32;
    close_glyph(s2, dst_w, dst_h, cell_x, bar_y, deco.close_button_width, deco.title_bar_height, CLOSE_BUTTON_FG)
}

/// Draw the title bar of a decorated window whose outer origin is `(x, y)`
/// and whose content is `content_width` wide: the bar background (by focus),
/// the title in the title font clipped before the close cell, and the close
/// cross.
pub fn render_title_bar(
    font: &mut Option<Font>,
    dst: &mut Vec<u32>,
    dst_w: u32,
    dst_h: u32,
    x: i32,
    y: i32,
    content_width: u32,
    focused: bool,
    title: &[u8],
    deco: &WindowDecoration,
)
    requires
        *old(font) matches Some(f) ==> f.spec_face() == FontFace::Spleen8x16,
        dst_w * dst_h <= old(dst)@.len(),
        content_width + 2 * deco.border_width <= i32::MAX,
        deco.title_bar_height <= i32::MAX,
        i32::MIN + 6 <= y + deco.border_width,
        y + deco.border_width + deco.title_bar_height / 2 <= i32::MAX,
        x + content_width + 2 * deco.border_width <= i32::MAX,
        x + 8 <= i32::MAX,
        i32::MIN <= title_text_max_x(x, content_width, *deco),
        i32::MIN <= x + content_width + deco.border_width - deco.close_button_width,
        deco.close_button_width <= i32::MAX,
        fill_fits(old(dst)@.len(), dst_w, dst_h, x, (y + deco.border_width) as i32,
            (content_width + 2 * deco.border_width) as u32, deco.title_bar_height),
        close_glyph_fits((x + content_width + deco.border_width - deco.close_button_width) as i32,
            (y + deco.border_width) as i32, deco.close_button_width, deco.title_bar_height),
    ensures
        *final(font) matches Some(f) ==> f.spec_face() == FontFace::Spleen8x16,
        *old(font) is Some ==> *final(font) is Some,
        final(dst)@ == title_bar(old(dst)@, dst_w, dst_h, x, y, content_width, focused, title@, *deco,
            *final(font) is Some),
{
    let outer_w = content_width + 2 * deco.border_width;
    let bar_x = x;
    let bar_y = y + u32_as_i32(deco.border_width);
    let bar_w = outer_w;
    let bar_h = deco.title_bar_height;
    let bg = if focused { TITLE_BAR_FOCUSED_BG } else { TITLE_BAR_UNFOCUSED_BG };
    proof {
        lemma_filled_len(old(dst)@, dst_w, dst_h, bar_x, bar_y, bar_w, bar_h, bg);
    }
    fill_rect(dst, dst_w, dst_h, bar_x, bar_y, bar_w, bar_h, bg);
    let close_w = u32_as_i32(deco.close_button_width);
    let bw = u32_as_i32(bar_w);
    let border = u32_as_i32(deco.border_width);
    let text_max_x = bar_x + bw - border - close_w - 4;
    let text_x = bar_x + 8;
    let text_y = bar_y + (u32_as_i32(bar_h) / 2) - 6;
    let ghost s1 = dst@;
    let ghost font_before = *font;
    if text_max_x > text_x {
        draw_text_clipped(font, dst, dst_w, dst_h, text_x, text_y, text_max_x, title, TITLE_BAR_FG, bg);
    }
    let cell_x = bar_x + bw - border - close_w;
    draw_close_glyph(dst, dst_w, dst_h, cell_x, bar_y, deco.close_button_width, deco.title_bar_height, CLOSE_BUTTON_FG);
}

// ---------------------------------------------------------------------------
// Hit testing down the z-order
// ---------------------------------------------------------------------------

/// The first surface of the table with id `id` that is shown, from slot `i`.
pub open spec fn shown_surface(t: Seq<Option<Surface>>, id: SurfaceId, i: int) -> Option<Surface>
    decreases t.len() - i,
{
    if i < 0 || i >= t.len() {
        None
    } else if t[i] matches Some(s) && s.id == id && s.state is Active {
        t[i]
    } else {
        shown_surface(t, id, i + 1)
    }
}

/// The outer rectangle of `s` (see `outer_rect`).
pub open spec fn outer_of(s: Surface, deco: WindowDecoration) -> (i32, i32, u32, u32) {
    if spec_is_decorated(s) {
        (s.x, s.y, (s.width + 2 * deco.border_width) as u32, (s.height + 2 * deco.border_width + deco.title_bar_height) as u32)
    } else {
        (s.x, s.y, s.width, s.height)
    }
}

/// The outer rectangle of every decorated surface fits `u32`.
pub open spec fn table_fits(t: Seq<Option<Surface>>, deco: WindowDecoration) -> bool {
    forall|i: int| 0 <= i < t.len() ==> (#[trigger] t[i] matches Some(s) ==> (spec_is_decorated(s) ==> {
        &&& s.width + 2 * deco.border_width <= u32::MAX
        &&& s.height + 2 * deco.border_width + deco.title_bar_height <= u32::MAX
    }))
}

/// The surface looked at for z-order entry `id`: none for the reserved id,
/// otherwise the first shown surface with that id.
pub open spec fn candidate(t: Seq<Option<Surface>>, id: SurfaceId) -> Option<Surface> {
    if id.spec_is_none() { None } else { shown_surface(t, id, 0) }
}

/// The zone test said "miss" for every candidate among the first `k`
/// entries of `order`.
pub open spec fn missed_all<F: Fn(i32, i32, i32, i32, u32, u32) -> Option<HitZone>>(
    order: Seq<SurfaceId>,
    t: Seq<Option<Surface>>,
    deco: WindowDecoration,
    px: i32,
    py: i32,
    zone_of: F,
    k: int,
) -> bool {
    forall|j: int| 0 <= j < k ==> (#[trigger] candidate(t, order[j]) matches Some(s) ==> {
        let o = outer_of(s, deco);
        zone_of.ensures((px, py, o.0, o.1, o.2, o.3), None)
    })
}

fn find_shown(table: &Vec<Option<Surface>>, id: SurfaceId) -> (r: Option<Surface>)
    ensures
        r == shown_surface(table@, id, 0),
{
    let mut i: usize = 0;
    while i < table.len()
        invariant
            i <= table@.len(),
            shown_surface(table@, id, 0) == shown_surface(table@, id, i as int),
        decreases table@.len() - i,
    {
        match table[i] {
            Some(s) => {
                if s.id.0 == id.0 && s.state.is_visible() {
                    return Some(s);
                }
            },
            None => {},
        }
        i = i + 1;
    }
    None
}

/// The topmost shown surface whose outer rectangle `zone_of` places
/// `(px, py)` in, with the zone: z-order `z` is walked from the top,
/// skipping ids with no shown surface; `zone_of(px, py, x, y, w, h)` is the
/// geometric zone test of a point against a decorated rectangle. `None` when
/// every candidate missed.
pub fn hit_test_topmost<F: Fn(i32, i32, i32, i32, u32, u32) -> Option<HitZone>>(
    px: i32,
    py: i32,
    z: &ZOrder,
    table: &Vec<Option<Surface>>,
    deco: &WindowDecoration,
    zone_of: F,
) -> (r: Option<(SurfaceId, HitZone)>)
    requires
        table_fits(table@, *deco),
        forall|a: (i32, i32, i32, i32, u32, u32)| #[trigger] zone_of.requires(a),
    ensures
        r is None ==> missed_all(z@.reverse(), table@, *deco, px, py, zone_of, z@.len() as int),
        r matches Some((id, zone)) ==> exists|k: int| {
            &&& 0 <= k < z@.len()
            &&& #[trigger] candidate(table@, z@.reverse()[k]) matches Some(s) && s.id == id && {
                let o = outer_of(s, *deco);
                zone_of.ensures((px, py, o.0, o.1, o.2, o.3), Some(zone))
            }
            &&& missed_all(z@.reverse(), table@, *deco, px, py, zone_of, k)
        },
{
    let order = z.iter_top_down();
    let ghost ord = z@.reverse();
    let mut k: usize = 0;
    while k < order.len()
        invariant
            order@ == ord,
            ord == z@.reverse(),
            k <= order@.len(),
            table_fits(table@, *deco),
            forall|a: (i32, i32, i32, i32, u32, u32)| #[trigger] zone_of.requires(a),
            missed_all(ord, table@, *deco, px, py, zone_of, k as int),
        decreases order@.len() - k,
    {
        let id = order[k];
        if id.is_none() {
            k = k + 1;
            continue;
        }
        let surface = match find_shown(table, id) {
            Some(s) => s,
            None => {
                k = k + 1;
                continue;
            },
        };
        proof {
            lemma_shown_fits(table@, id, 0, *deco);
        }
        let (x, y, w, h) = outer_rect(&surface, deco);
        let hit = zone_of(px, py, x, y, w, h);
        proof {
            assert(outer_of(surface, *deco) == (x, y, w, h));
            assert(candidate(table@, ord[k as int]) == Some(surface));
        }
        match hit {
            Some(zone) => {
                assert(candidate(table@, z@.reverse()[k as int]) matches Some(s) && s.id == surface.id && {
                    let o = outer_of(s, *deco);
                    zone_of.ensures((px, py, o.0, o.1, o.2, o.3), Some(zone))
                });
                return Some((surface.id, zone));
            },
            None => {},
        }
        k = k + 1;
    }
    None
}

proof fn lemma_shown_fits(t: Seq<Option<Surface>>, id: SurfaceId, i: int, deco: WindowDecoration)
    requires
        table_fits(t, deco),
        0 <= i,
    ensures
        shown_surface(t, id, i) matches Some(s) ==> (spec_is_decorated(s) ==> {
            &&& s.width + 2 * deco.border_width <= u32::MAX
            &&& s.height + 2 * deco.border_width + deco.title_bar_height <= u32::MAX
        }) && s.id == id,
    decreases t.len() - i,
{
    if i < t.len() {
        if !(t[i] matches Some(s) && s.id == id && s.state is Active) {
            lemma_shown_fits(t, id, i + 1, deco);
        }
    }
}

} // verus!
