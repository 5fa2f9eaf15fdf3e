//! The workspace home view: where its panel goes on the display, the
//! snapshot of spaces it shows, when it redraws, and how it is drawn.
use vstd::prelude::*;

use crate::font::{Font, FontFace};
use crate::ids::{ProcessId, SurfaceId, COMPOSITOR_PID};
use crate::compositor::surface::{Surface, SurfaceTable, SurfaceTableView};
use crate::compositor::text::{draw_text_if_loaded, ensure_title_font, text_at, TITLE_GLYPH_HEIGHT, TITLE_GLYPH_WIDTH};
use crate::compositor::window::{fill_rect, filled, lemma_fill_fits_area, lemma_filled_len, u32_as_i32};
use super::ShellError;
use super::taskbar::half_toward_zero;

verus! {

/// Status strip height.
pub const STATUS_STRIP_HEIGHT: u32 = 32;
/// Taskbar height.
pub const TASKBAR_HEIGHT: u32 = 40;
/// Largest workspace panel width.
pub const WORKSPACE_MAX_WIDTH: u32 = 800;
/// Largest workspace panel height.
pub const WORKSPACE_MAX_HEIGHT: u32 = 600;
/// Spaces the workspace panel lists.
pub const MAX_SPACES_RENDERED: usize = 8;
/// Bytes of a space name kept.
pub const SPACE_NAME_CACHE_BYTES: usize = 32;

/// Size and position of the workspace panel.
#[derive(Debug, Clone, Copy, PartialEq, Eq, Structural)]
pub struct WorkspaceGeometry {
    pub width: u32,
    pub height: u32,
    pub x: i32,
    pub y: i32,
}

/// The workspace panel on a `display_width` x `display_height` display:
/// between the status strip and the taskbar, at most 800x600, centred;
/// `None` when there is no room.
pub open spec fn panel_geometry(display_width: u32, display_height: u32) -> Option<WorkspaceGeometry> {
    if display_width == 0 || display_height == 0 || display_height <= STATUS_STRIP_HEIGHT + TASKBAR_HEIGHT {
        None
    } else {
        let usable = display_height - STATUS_STRIP_HEIGHT - TASKBAR_HEIGHT;
        let width = if display_width < WORKSPACE_MAX_WIDTH { display_width } else { WORKSPACE_MAX_WIDTH };
        let height = if usable < WORKSPACE_MAX_HEIGHT { usable } else { WORKSPACE_MAX_HEIGHT as int };
        Some(WorkspaceGeometry {
            width,
            height: height as u32,
            x: ((display_width - width) / 2) as i32,
            y: (STATUS_STRIP_HEIGHT + (usable - height) / 2) as i32,
        })
    }
}

/// The workspace panel (see `panel_geometry`); `NoDisplay` when there is no
/// room.
pub fn workspace_geometry(display_width: u32, display_height: u32) -> (r: Result<WorkspaceGeometry, ShellError>)
    requires
        display_width <= i32::MAX,
        display_height <= i32::MAX,
    ensures
        r == (match panel_geometry(display_width, display_height) {
            Some(g) => Ok::<WorkspaceGeometry, ShellError>(g),
            None => Err(ShellError::NoDisplay),
        }),
{
    if display_width == 0 || display_height == 0 {
        return Err(ShellError::NoDisplay);
    }
    let chrome_height = STATUS_STRIP_HEIGHT + TASKBAR_HEIGHT;
    if display_height <= chrome_height {
        return Err(ShellError::NoDisplay);
    }
    let usable_height = display_height - chrome_height;
    let width = if display_width < WORKSPACE_MAX_WIDTH { display_width } else { WORKSPACE_MAX_WIDTH };
    let height = if usable_height < WORKSPACE_MAX_HEIGHT { usable_height } else { WORKSPACE_MAX_HEIGHT };
    let x = ((display_width as i32) - (width as i32)) / 2;
    let y = STATUS_STRIP_HEIGHT as i32 + ((usable_height as i32) - (height as i32)) / 2;
    Ok(WorkspaceGeometry { width, height, x, y })
}

/// A space listed on the workspace panel.
#[derive(Debug, Clone, Copy)]
pub struct SpaceSnapshot {
    pub name_len: u8,
    pub name: [u8; 32],
}

impl SpaceSnapshot {
    /// No name.
    pub fn empty() -> (s: SpaceSnapshot)
        ensures
            s.name_len == 0,
            forall|i: int| 0 <= i < 32 ==> s.name@[i] == 0,
    {
        SpaceSnapshot { name_len: 0, name: [0u8; 32] }
    }

    /// The first 32 bytes of `name`.
    pub fn from_name(name: &[u8]) -> (s: SpaceSnapshot)
        ensures
            s.name_len as int == (if name@.len() > SPACE_NAME_CACHE_BYTES { SPACE_NAME_CACHE_BYTES as int } else { name@.len() as int }),
            s.name@.subrange(0, s.name_len as int) == name@.subrange(0, s.name_len as int),
    {
        let cut = if name.len() > SPACE_NAME_CACHE_BYTES { SPACE_NAME_CACHE_BYTES } else { name.len() };
        let mut out = [0u8; 32];
        let mut i: usize = 0;
        while i < cut
            invariant
                cut <= 32,
                cut <= name@.len(),
                i <= cut,
                forall|j: int| 0 <= j < i ==> out@[j] == name@[j],
            decreases cut - i,
        {
            out[i] = name[i];
            i = i + 1;
        }
        let s = SpaceSnapshot { name_len: cut as u8, name: out };
        assert(s.name@.subrange(0, cut as int) =~= name@.subrange(0, cut as int));
        s
    }
}

/// What the workspace panel shows: visibility, uptime, the first spaces.
#[derive(Debug, Clone, Copy)]
pub struct WorkspaceSnapshot {
    pub visible: bool,
    pub uptime_seconds: u64,
    pub space_count: u8,
    pub spaces: [SpaceSnapshot; 8],
    pub spaces_unavailable: bool,
}

impl WorkspaceSnapshot {
    /// The snapshot before the first render (uptime `u64::MAX`, so the first
    /// real one always differs).
    pub fn empty() -> (s: WorkspaceSnapshot)
        ensures
            !s.visible,
            s.uptime_seconds == u64::MAX,
            s.space_count == 0,
            !s.spaces_unavailable,
    {
        let e = SpaceSnapshot::empty();
        WorkspaceSnapshot { visible: false, uptime_seconds: u64::MAX, space_count: 0, spaces: [e; 8], spaces_unavailable: false }
    }
}

/// `s` is the workspace snapshot at `now_ms` of the space names `spaces`
/// (`None`: the store could not list them): up to eight spaces in order,
/// names cut to 32 bytes; an unavailable or empty list is marked
/// unavailable.
pub open spec fn workspace_snapshot_of(s: WorkspaceSnapshot, visible: bool, now_ms: u64, spaces: Option<Seq<Seq<u8>>>) -> bool {
    &&& s.visible == visible
    &&& s.uptime_seconds == now_ms / 1000
    &&& s.spaces_unavailable == match spaces {
        Some(l) => l.len() == 0,
        None => true,
    }
    &&& s.space_count == match spaces {
        Some(l) => if l.len() < MAX_SPACES_RENDERED { l.len() as int } else { MAX_SPACES_RENDERED as int },
        None => 0,
    }
    &&& spaces matches Some(l) ==> forall|i: int| 0 <= i < s.space_count ==> {
        let n = l[i];
        let c = if n.len() > SPACE_NAME_CACHE_BYTES { SPACE_NAME_CACHE_BYTES as int } else { n.len() as int };
        &&& (#[trigger] s.spaces@[i]).name_len == c
        &&& s.spaces@[i].name@.subrange(0, c) == n.subrange(0, c)
    }
}

/// The workspace snapshot at `now_ms` from the space list (`None` when the
/// store could not list them): up to eight spaces in order, names cut to 32
/// bytes; an unavailable or empty list is marked unavailable.
pub fn build_workspace_snapshot(visible: bool, now_ms: u64, spaces: Option<&Vec<Vec<u8>>>) -> (s: WorkspaceSnapshot)
    ensures
        workspace_snapshot_of(
            s,
            visible,
            now_ms,
            match spaces {
                Some(l) => Some(l.deep_view()),
                None => None,
            },
        ),
{
    let mut snap = WorkspaceSnapshot::empty();
    snap.visible = visible;
    snap.uptime_seconds = now_ms / 1000;
    match spaces {
        Some(list) => {
            if list.len() == 0 {
                snap.spaces_unavailable = true;
            } else {
                let n = if list.len() < MAX_SPACES_RENDERED { list.len() } else { MAX_SPACES_RENDERED };
                let mut i: usize = 0;
                while i < n
                    invariant
                        n <= MAX_SPACES_RENDERED,
                        n <= list@.len(),
                        i <= n,
                        snap.space_count == i,
                        snap.visible == visible,
                        snap.uptime_seconds == now_ms / 1000,
                        !snap.spaces_unavailable,
                        forall|k: int| 0 <= k < i ==> {
                            let nm = list@[k]@;
                            let c = if nm.len() > SPACE_NAME_CACHE_BYTES { SPACE_NAME_CACHE_BYTES as int } else { nm.len() as int };
                            &&& (#[trigger] snap.spaces@[k]).name_len == c
                            &&& snap.spaces@[k].name@.subrange(0, c) == nm.subrange(0, c)
                        },
                    decreases n - i,
                {
                    let entry = SpaceSnapshot::from_name(list[i].as_slice());
                    snap.spaces[i] = entry;
                    snap.space_count = snap.space_count + 1;
                    i = i + 1;
                }
            }
        },
        None => {
            snap.spaces_unavailable = true;
        },
    }
    proof {
        if let Some(l) = spaces {
            assert(l.deep_view().len() == l@.len());
            assert forall|k: int| 0 <= k < l@.len() implies l.deep_view()[k] == l@[k]@ by {}
        }
    }
    snap
}

/// Two space entries hold the same length and the same 32 name bytes.
pub open spec fn same_space(a: SpaceSnapshot, b: SpaceSnapshot) -> bool {
    a.name_len == b.name_len && a.name@ == b.name@
}

/// Two workspace snapshots agree field by field.
pub open spec fn same_snapshot(a: WorkspaceSnapshot, b: WorkspaceSnapshot) -> bool {
    &&& a.visible == b.visible
    &&& a.uptime_seconds == b.uptime_seconds
    &&& a.space_count == b.space_count
    &&& a.spaces_unavailable == b.spaces_unavailable
    &&& forall|i: int| 0 <= i < 8 ==> same_space(#[trigger] a.spaces@[i], b.spaces@[i])
}

/// Whether two workspace snapshots agree field by field.
pub fn snapshot_equal(a: &WorkspaceSnapshot, b: &WorkspaceSnapshot) -> (r: bool)
    ensures
        r == same_snapshot(*a, *b),
{
    if a.visible != b.visible || a.uptime_seconds != b.uptime_seconds || a.space_count != b.space_count
        || a.spaces_unavailable != b.spaces_unavailable {
        return false;
    }
    let mut i: usize = 0;
    while i < 8
        invariant
            i <= 8,
            forall|k: int| 0 <= k < i ==> same_space(#[trigger] a.spaces@[k], b.spaces@[k]),
        decreases 8 - i,
    {
        let x = a.spaces[i];
        let y = b.spaces[i];
        if x.name_len != y.name_len {
            return false;
        }
        let mut j: usize = 0;
        while j < 32
            invariant
                j <= 32,
                i < 8,
                x == a.spaces@[i as int],
                y == b.spaces@[i as int],
                forall|m: int| 0 <= m < j ==> x.name@[m] == y.name@[m],
            decreases 32 - j,
        {
            if x.name[j] != y.name[j] {
                assert(x.name@[j as int] != y.name@[j as int]);
                assert(!same_space(a.spaces@[i as int], b.spaces@[i as int]));
                return false;
            }
            j = j + 1;
        }
        assert(x.name@ =~= y.name@);
        i = i + 1;
    }
    true
}

/// The workspace panel's state.
pub struct WorkspaceState {
    pub surface_id: SurfaceId,
    pub cached_snapshot: WorkspaceSnapshot,
    pub needs_first_render: bool,
    pub visible: bool,
}

/// What toggling the workspace does: with no panel nothing changes (`r` is
/// `None`); otherwise the panel's visibility flips, and in the surface
/// table its surface takes the new visibility (where the compositor, which
/// owns it, may change it) and is marked damaged; `r` is the surface and its
/// new visibility.
pub open spec fn workspace_toggled(
    ws: Option<WorkspaceState>,
    ws2: Option<WorkspaceState>,
    t: SurfaceTableView,
    t2: SurfaceTableView,
    r: Option<(SurfaceId, bool)>,
) -> bool {
    match ws {
        None => r is None && ws2 is None && t2 == t,
        Some(w) => {
            let id = w.surface_id;
            &&& r == Some((id, !w.visible))
            &&& ws2 matches Some(n) && n.visible == !w.visible && n.surface_id == w.surface_id
                && n.cached_snapshot == w.cached_snapshot && n.needs_first_render == w.needs_first_render
            &&& t.refusal(id, ProcessId(COMPOSITOR_PID)) is None ==> t2 == t.with(
                id,
                Surface { visible: !w.visible, damaged: true, ..t.get(id) },
            )
            &&& (t.refusal(id, ProcessId(COMPOSITOR_PID)) is Some && t.contains(id)) ==> t2 == t.with(
                id,
                Surface { damaged: true, ..t.get(id) },
            )
            &&& !t.contains(id) ==> t2 == t
        },
    }
}

/// Show or hide the workspace panel (if it exists): flip its visibility
/// flag, set the panel surface's `visible` flag to match (as the compositor)
/// and mark the surface damaged. Returns the surface and its new
/// visibility.
pub fn toggle_visibility(ws: &mut Option<WorkspaceState>, surfaces: &mut SurfaceTable) -> (r: Option<(SurfaceId, bool)>)
    requires
        old(surfaces).wf(),
    ensures
        final(surfaces).wf(),
        workspace_toggled(*old(ws), *final(ws), old(surfaces)@, final(surfaces)@, r),
{
    let (id, visible) = match ws {
        Some(w) => {
            w.visible = !w.visible;
            (w.surface_id, w.visible)
        },
        None => {
            return None;
        },
    };
    let ghost t = surfaces@;
    let _ = surfaces.surface_set_visible(id, visible, ProcessId(COMPOSITOR_PID));
    let ghost t1 = surfaces@;
    proof {
        if t.refusal(id, ProcessId(COMPOSITOR_PID)) is None {
            let k = t.index_of(id);
            assert(t.holds(k, id));
            assert(t1.holds(k, id));
            assert(t1.contains(id));
            let k1 = t1.index_of(id);
            assert(t1.holds(k1, id));
            assert(k1 == k);
        }
    }
    surfaces.mark_damaged(id);
    proof {
        if t.refusal(id, ProcessId(COMPOSITOR_PID)) is None {
            assert(surfaces@.slots =~= t1.slots);
        }
    }
    Some((id, visible))
}

/// Whether a workspace tick needs a snapshot at all: not while hidden once
/// the first frame is drawn.
pub fn workspace_needs_snapshot(ws: &WorkspaceState) -> (b: bool)
    ensures
        b == (ws.visible || ws.needs_first_render),
{
    ws.visible || ws.needs_first_render
}

/// Taking `snapshot` took workspace state `o` to `n` and decided `redraw`:
/// redraw for the first frame or a changed snapshot, which is then cached.
pub open spec fn workspace_accepted(o: WorkspaceState, n: WorkspaceState, snapshot: WorkspaceSnapshot, redraw: bool) -> bool {
    &&& redraw == (o.needs_first_render || !same_snapshot(o.cached_snapshot, snapshot))
    &&& redraw ==> n.cached_snapshot == snapshot && !n.needs_first_render
    &&& !redraw ==> n.cached_snapshot == o.cached_snapshot && n.needs_first_render == o.needs_first_render
    &&& n.visible == o.visible
    &&& n.surface_id == o.surface_id
}

/// Take a fresh snapshot: whether the panel must be redrawn (first frame,
/// or the snapshot changed); the cache is updated when it must.
pub fn workspace_accept_snapshot(ws: &mut WorkspaceState, snapshot: WorkspaceSnapshot) -> (redraw: bool)
    ensures
        workspace_accepted(*old(ws), *final(ws), snapshot, redraw),
{
    if !ws.needs_first_render && snapshot_equal(&ws.cached_snapshot, &snapshot) {
        return false;
    }
    ws.cached_snapshot = snapshot;
    ws.needs_first_render = false;
    true
}

/// Panel background.
pub const WORKSPACE_BG: u32 = 0xFF06_0A14;
/// Text color.
pub const TEXT_FG: u32 = 0xFFEC_F0F8;
/// Accent color (headers, bullets, uptime).
pub const ACCENT_FG: u32 = 0xFF8A_B4FF;
/// Left and right text margin.
pub const PADDING_X: i32 = 24;
/// Row of the title.
pub const TITLE_TOP_Y: i32 = 32;
/// Distance from the title to the "Spaces:" header.
pub const SPACES_HEADER_OFFSET: i32 = 64;
/// Height of one listed space.
pub const SPACES_LINE_HEIGHT: i32 = 20;

impl WorkspaceSnapshot {
    /// At most eight spaces, each name at most 32 bytes.
    pub open spec fn wf(&self) -> bool {
        &&& self.space_count as int <= MAX_SPACES_RENDERED
        &&& forall|i: int| 0 <= i < self.space_count ==> (#[trigger] self.spaces@[i]).name_len as int <= SPACE_NAME_CACHE_BYTES
    }
}

/// The bytes `AIOS`.
pub open spec fn title_label() -> Seq<u8> {
    seq![65u8, 73, 79, 83]
}

/// The bytes `Spaces:`.
pub open spec fn spaces_label() -> Seq<u8> {
    seq![83u8, 112, 97, 99, 101, 115, 58]
}

/// The bytes `(no spaces)`.
pub open spec fn no_spaces_label() -> Seq<u8> {
    seq![40u8, 110, 111, 32, 115, 112, 97, 99, 101, 115, 41]
}

/// The bytes `- `.
pub open spec fn bullet_label() -> Seq<u8> {
    seq![45u8, 32]
}

/// The bytes `Uptime: ` followed by the eight uptime digits.
pub open spec fn uptime_label(digits: Seq<u8>) -> Seq<u8> {
    seq![85u8, 112, 116, 105, 109, 101, 58, 32] + digits
}

/// Row of the first listed space.
pub open spec fn first_space_row() -> int {
    TITLE_TOP_Y + SPACES_HEADER_OFFSET + SPACES_LINE_HEIGHT
}

/// The index of the last space row drawn on a panel `h` high: listing stops
/// once the next row would reach the uptime band.
pub open spec fn last_space_row(h: int) -> int {
    let lim = h - SPACES_LINE_HEIGHT * 2 - TITLE_GLYPH_HEIGHT - first_space_row() - SPACES_LINE_HEIGHT;
    if lim <= 0 { 0 } else { (lim + SPACES_LINE_HEIGHT - 1) / (SPACES_LINE_HEIGHT as int) }
}

/// How many spaces are listed: all of them, or up to the last row that fits.
pub open spec fn spaces_shown(count: int, h: int) -> int {
    if count < last_space_row(h) + 1 { count } else { last_space_row(h) + 1 }
}

/// The first `n` space rows drawn: a bullet and the name on each.
pub open spec fn spaces_drawn(s: Seq<u32>, w: u32, h: u32, snap: WorkspaceSnapshot, ok: bool, n: int) -> Seq<u32>
    decreases n,
{
    if n <= 0 {
        s
    } else {
        let prev = spaces_drawn(s, w, h, snap, ok, n - 1);
        let row = first_space_row() + SPACES_LINE_HEIGHT * (n - 1);
        let max_x = w - PADDING_X;
        let sp = snap.spaces@[n - 1];
        let s1 = text_at(prev, w, h, PADDING_X + TITLE_GLYPH_WIDTH * 2, row, max_x, bullet_label(), ACCENT_FG, WORKSPACE_BG, ok);
        text_at(s1, w, h, PADDING_X + TITLE_GLYPH_WIDTH * 4, row, max_x, sp.name@.subrange(0, sp.name_len as int), TEXT_FG,
            WORKSPACE_BG, ok)
    }
}

/// The panel as `render_frame` draws it.
pub open spec fn workspace_frame(s: Seq<u32>, w: u32, h: u32, snap: WorkspaceSnapshot, digits: Seq<u8>, ok: bool) -> Seq<u32> {
    let max_x = w - PADDING_X;
    let s1 = filled(s, w, h, 0, 0, w, h, WORKSPACE_BG);
    let s2 = text_at(s1, w, h, half_toward_zero(w - 32), TITLE_TOP_Y as int, w as int, title_label(), TEXT_FG, WORKSPACE_BG, ok);
    let s3 = text_at(s2, w, h, PADDING_X as int, (TITLE_TOP_Y + SPACES_HEADER_OFFSET) as int, max_x, spaces_label(), ACCENT_FG,
        WORKSPACE_BG, ok);
    let s4 = if snap.spaces_unavailable || snap.space_count == 0 {
        text_at(s3, w, h, PADDING_X + TITLE_GLYPH_WIDTH * 2, first_space_row(), max_x, no_spaces_label(), TEXT_FG, WORKSPACE_BG, ok)
    } else {
        spaces_drawn(s3, w, h, snap, ok, spaces_shown(snap.space_count as int, h as int))
    };
    text_at(s4, w, h, PADDING_X as int, h - SPACES_LINE_HEIGHT - TITLE_GLYPH_HEIGHT, max_x, uptime_label(digits), ACCENT_FG,
        WORKSPACE_BG, ok)
}

/// Repaint the workspace panel: background, the centred title, the
/// "Spaces:" header with one bulleted row per space (or "(no spaces)"), and
/// the uptime line (`uptime_digits`, as `HH:MM:SS`) near the bottom. The
/// title font is loaded first; without it the text is left out. Nothing is
/// drawn when the buffer is smaller than the panel.
pub fn render_frame(
    font: &mut Option<Font>,
    buffer: &mut Vec<u32>,
    width: u32,
    height: u32,
    snap: &WorkspaceSnapshot,
    uptime_digits: &[u8; 8],
)
    requires
        *old(font) matches Some(f) ==> f.spec_face() == FontFace::Spleen8x16,
        width <= i32::MAX,
        height <= i32::MAX,
        snap.wf(),
    ensures
        *final(font) matches Some(f) ==> f.spec_face() == FontFace::Spleen8x16,
        *old(font) is Some ==> *final(font) is Some,
        final(buffer)@.len() == old(buffer)@.len(),
        old(buffer)@.len() < width * height ==> final(buffer)@ == old(buffer)@,
        old(buffer)@.len() >= width * height ==> final(buffer)@ == workspace_frame(old(buffer)@, width, height, *snap,
            uptime_digits@, *final(font) is Some),
{
    proof {
        assert((width as int) * (height as int) <= 0x7fff_ffff * 0x7fff_ffff) by (nonlinear_arith)
            requires
                width <= 0x7fff_ffff,
                height <= 0x7fff_ffff,
        ;
    }
    if (buffer.len() as u64) < (width as u64) * (height as u64) {
        return;
    }
    ensure_title_font(font);
    let ghost ok = *font is Some;
    proof {
        lemma_fill_fits_area(buffer@.len(), width, height, 0, 0, width, height);
        lemma_filled_len(buffer@, width, height, 0, 0, width, height, WORKSPACE_BG);
    }
    fill_rect(buffer, width, height, 0, 0, width, height, WORKSPACE_BG);
    let wi = u32_as_i32(width);
    let hi = u32_as_i32(height);
    let title: [u8; 4] = [65, 73, 79, 83];
    let title_x = if wi - 32 >= 0 { (wi - 32) / 2 } else { -((32 - wi) / 2) };
    proof {
        assert(title@ =~= title_label());
    }
    draw_text_if_loaded(font, buffer, width, height, title_x, TITLE_TOP_Y, wi, &title, TEXT_FG, WORKSPACE_BG);
    let max_x = wi - PADDING_X;
    let header: [u8; 7] = [83, 112, 97, 99, 101, 115, 58];
    proof {
        assert(header@ =~= spaces_label());
    }
    draw_text_if_loaded(font, buffer, width, height, PADDING_X, TITLE_TOP_Y + SPACES_HEADER_OFFSET, max_x, &header, ACCENT_FG,
        WORKSPACE_BG);
    if snap.spaces_unavailable || snap.space_count == 0 {
        let none: [u8; 11] = [40, 110, 111, 32, 115, 112, 97, 99, 101, 115, 41];
        proof {
            assert(none@ =~= no_spaces_label());
        }
        draw_text_if_loaded(font, buffer, width, height, PADDING_X + 16, TITLE_TOP_Y + SPACES_HEADER_OFFSET + SPACES_LINE_HEIGHT,
            max_x, &none, TEXT_FG, WORKSPACE_BG);
    } else {
        let ghost s3 = buffer@;
        let bullet: [u8; 2] = [45, 32];
        proof {
            assert(bullet@ =~= bullet_label());
        }
        let count = snap.space_count as usize;
        let mut row_y: i32 = TITLE_TOP_Y + SPACES_HEADER_OFFSET + SPACES_LINE_HEIGHT;
        let mut i: usize = 0;
        while i < count
            invariant_except_break
                i <= count,
                count == snap.space_count,
                count <= MAX_SPACES_RENDERED,
                snap.wf(),
                hi == height,
                max_x == width - PADDING_X,
                bullet@ == bullet_label(),
                row_y == first_space_row() + SPACES_LINE_HEIGHT * i,
                i <= last_space_row(height as int),
                width * height <= buffer@.len(),
                buffer@.len() == s3.len(),
                (*font is Some) == ok,
                *font matches Some(f) ==> f.spec_face() == FontFace::Spleen8x16,
                buffer@ == spaces_drawn(s3, width, height, *snap, ok, i as int),
            ensures
                buffer@.len() == s3.len(),
                (*font is Some) == ok,
                *font matches Some(f) ==> f.spec_face() == FontFace::Spleen8x16,
                width * height <= buffer@.len(),
                buffer@ == spaces_drawn(s3, width, height, *snap, ok, spaces_shown(count as int, height as int)),
            decreases count - i,
        {
            let sp = &snap.spaces[i];
            proof {
                assert(sp.name_len as int <= SPACE_NAME_CACHE_BYTES);
            }
            let name = vstd::slice::slice_subrange(sp.name.as_slice(), 0, sp.name_len as usize);
            draw_text_if_loaded(font, buffer, width, height, PADDING_X + 16, row_y, max_x, &bullet, ACCENT_FG, WORKSPACE_BG);
            draw_text_if_loaded(font, buffer, width, height, PADDING_X + 32, row_y, max_x, name, TEXT_FG, WORKSPACE_BG);
            row_y = row_y + SPACES_LINE_HEIGHT;
            i = i + 1;
            if row_y >= hi - SPACES_LINE_HEIGHT * 2 - TITLE_GLYPH_HEIGHT {
                break;
            }
        }
    }
    let mut uptime: [u8; 16] = [85, 112, 116, 105, 109, 101, 58, 32, 0, 0, 0, 0, 0, 0, 0, 0];
    let mut k: usize = 0;
    while k < 8
        invariant
            k <= 8,
            forall|j: int| 0 <= j < 8 ==> uptime@[j] == uptime_label(uptime_digits@)[j],
            forall|j: int| 8 <= j < 8 + k ==> uptime@[j] == uptime_digits@[j - 8],
        decreases 8 - k,
    {
        uptime[8 + k] = uptime_digits[k];
        k = k + 1;
    }
    proof {
        assert(uptime@ =~= uptime_label(uptime_digits@));
    }
    draw_text_if_loaded(font, buffer, width, height, PADDING_X, hi - SPACES_LINE_HEIGHT - TITLE_GLYPH_HEIGHT, max_x, &uptime,
        ACCENT_FG, WORKSPACE_BG);
}

} // verus!
