//! The taskbar: the snapshot of listed surfaces it shows, when it redraws,
//! and how it is drawn (workspace button, one cell per entry, the
//! "N windows" readout).
use vstd::prelude::*;

use crate::font::{Font, FontFace};
use crate::ids::SurfaceId;
use crate::compositor::surface::{Surface, SurfaceTitle};
use crate::compositor::text::{draw_text_if_loaded, ensure_title_font, text_at};
use crate::compositor::window::{fill_rect, filled, lemma_fill_fits_area, lemma_filled_len, u32_as_i32, i32_of_u32};

verus! {

/// Taskbar height in pixels.
pub const TASKBAR_HEIGHT: u32 = 40;
/// Entries the taskbar lists.
pub const MAX_TASKBAR_ENTRIES: usize = 8;
/// Bytes of a title the taskbar keeps: the drawn run plus one.
pub const CACHED_TITLE_BYTES: usize = 24;
/// Glyphs of a title drawn inside an entry cell.
pub const ENTRY_TITLE_MAX_CHARS: usize = 23;
/// Inner padding between an entry cell's edge and its text.
pub const ENTRY_PADDING_X: i32 = 8;
/// Bar background.
pub const TASKBAR_BG: u32 = 0xFF0F_141C;
/// Background of an unfocused entry.
pub const ENTRY_BG_UNFOCUSED: u32 = 0xFF1A_1A1A;
/// Background of the focused entry.
pub const ENTRY_BG_FOCUSED: u32 = 0xFF30_60A0;
/// Background of the workspace button.
pub const WORKSPACE_BUTTON_BG: u32 = 0xFF2A_2A2A;
/// Text color.
pub const TEXT_FG: u32 = 0xFFFF_FFFF;
/// Row of the text inside the bar: the 16-pixel glyphs centred in 40.
pub const TEXT_Y: i32 = 12;

/// The first `CACHED_TITLE_BYTES` bytes of a title.
pub open spec fn title_cut(t: Seq<u8>) -> Seq<u8> {
    t.subrange(0, if t.len() > CACHED_TITLE_BYTES { CACHED_TITLE_BYTES as int } else { t.len() as int })
}

/// A taskbar entry: the surface and the first 24 bytes of its title (the
/// rest of the array is zero).
#[derive(Debug, Clone, Copy)]
pub struct EntrySnapshot {
    pub surface_id: SurfaceId,
    pub title_len: u8,
    pub title_prefix: [u8; 24],
}

impl EntrySnapshot {
    /// The cached title bytes.
    pub open spec fn spec_title(self) -> Seq<u8> {
        self.title_prefix@.subrange(0, self.title_len as int)
    }

    /// The length fits the array.
    pub open spec fn wf(self) -> bool {
        self.title_len as int <= CACHED_TITLE_BYTES
    }

    /// The entry of surface `id` titled `title`: its first 24 bytes, the rest
    /// of the array zero.
    pub fn from_title(id: SurfaceId, title: &SurfaceTitle) -> (e: EntrySnapshot)
        requires
            title.wf(),
        ensures
            e.wf(),
            e.surface_id == id,
            e.spec_title() == title_cut(title@),
            forall|k: int| e.title_len <= k < CACHED_TITLE_BYTES ==> e.title_prefix@[k] == 0,
    {
        let bytes = title.as_bytes();
        let cut = if bytes.len() > CACHED_TITLE_BYTES { CACHED_TITLE_BYTES } else { bytes.len() };
        let mut prefix = [0u8; 24];
        let mut j: usize = 0;
        while j < cut
            invariant
                cut <= 24,
                cut <= bytes@.len(),
                j <= cut,
                forall|k: int| 0 <= k < j ==> prefix@[k] == bytes@[k],
                forall|k: int| j <= k < 24 ==> prefix@[k] == 0,
            decreases cut - j,
        {
            prefix[j] = bytes[j];
            j = j + 1;
        }
        let e = EntrySnapshot { surface_id: id, title_len: cut as u8, title_prefix: prefix };
        assert(e.spec_title() =~= title_cut(title@));
        e
    }

    /// The cached title bytes.
    pub fn title_bytes(&self) -> (r: &[u8])
        requires
            self.wf(),
        ensures
            r@ == self.spec_title(),
    {
        vstd::slice::slice_subrange(self.title_prefix.as_slice(), 0, self.title_len as usize)
    }
}

/// A surface the taskbar lists: a visible client surface (not the shell's).
pub open spec fn listed(o: Option<Surface>) -> bool {
    o matches Some(s) && !s.spec_is_shell() && s.state is Active
}

/// Number of listed surfaces among the first `n` slots.
pub open spec fn listed_count(t: Seq<Option<Surface>>, n: int) -> nat
    decreases n,
{
    if n <= 0 {
        0
    } else {
        listed_count(t, n - 1) + if listed(t[n - 1]) { 1nat } else { 0nat }
    }
}

/// The listed surfaces among the first `n` slots, in slot order.
pub open spec fn listed_surfaces(t: Seq<Option<Surface>>, n: int) -> Seq<Surface>
    decreases n,
{
    if n <= 0 {
        Seq::empty()
    } else {
        let rest = listed_surfaces(t, n - 1);
        if listed(t[n - 1]) { rest.push(t[n - 1]->Some_0) } else { rest }
    }
}

/// What the taskbar shows: the focused surface, how many surfaces are
/// listed, and the first eight of them.
pub struct TaskbarSnapshot {
    pub focused: SurfaceId,
    pub total_count: u32,
    pub entries: Vec<EntrySnapshot>,
}

impl TaskbarSnapshot {
    /// At most eight entries, each well formed.
    pub open spec fn wf(&self) -> bool {
        &&& self.entries@.len() <= MAX_TASKBAR_ENTRIES
        &&& forall|i: int| 0 <= i < self.entries@.len() ==> (#[trigger] self.entries@[i]).wf()
    }

    /// The snapshot before the first render: nothing listed, no focus.
    pub fn empty() -> (s: TaskbarSnapshot)
        ensures
            s.wf(),
            s.focused.0 == 0,
            s.total_count == 0,
            s.entries@.len() == 0,
    {
        TaskbarSnapshot { focused: SurfaceId::none(), total_count: 0, entries: Vec::new() }
    }
}

proof fn lemma_listed(t: Seq<Option<Surface>>, n: int)
    requires
        0 <= n,
    ensures
        listed_surfaces(t, n).len() == listed_count(t, n),
        listed_count(t, n) <= n,
    decreases n,
{
    if n > 0 {
        lemma_listed(t, n - 1);
    }
}

/// `s` is the taskbar snapshot of the surface slots `table` with `focused`
/// focused: every listed surface counts; the first eight become entries, in
/// slot order, with their titles cut to the entry width.
pub open spec fn taskbar_snapshot_of(s: TaskbarSnapshot, table: Seq<Option<Surface>>, focused: SurfaceId) -> bool {
    &&& s.wf()
    &&& s.focused == focused
    &&& s.total_count == listed_count(table, table.len() as int)
    &&& s.entries@.len() == (if listed_count(table, table.len() as int) < MAX_TASKBAR_ENTRIES {
        listed_count(table, table.len() as int) as int
    } else {
        MAX_TASKBAR_ENTRIES as int
    })
    &&& forall|i: int| 0 <= i < s.entries@.len() ==> {
        let sf = #[trigger] listed_surfaces(table, table.len() as int)[i];
        &&& s.entries@[i].surface_id == sf.id
        &&& s.entries@[i].spec_title() == title_cut(sf.title@)
    }
}

/// The taskbar snapshot of the surface table with `focused` focused: every
/// listed surface counts; the first eight become entries, in slot order.
pub fn build_snapshot(table: &Vec<Option<Surface>>, focused: SurfaceId) -> (s: TaskbarSnapshot)
    requires
        table@.len() <= u32::MAX,
        forall|i: int| 0 <= i < table@.len() ==> (#[trigger] table@[i] matches Some(x) ==> x.title.wf()),
    ensures
        taskbar_snapshot_of(s, table@, focused),
{
    let mut total: u32 = 0;
    let mut entries: Vec<EntrySnapshot> = Vec::new();
    let mut k: usize = 0;
    while k < table.len()
        invariant
            k <= table@.len(),
            table@.len() <= u32::MAX,
            forall|i: int| 0 <= i < table@.len() ==> (#[trigger] table@[i] matches Some(x) ==> x.title.wf()),
            total == listed_count(table@, k as int),
            total <= k,
            entries@.len() == (if total < MAX_TASKBAR_ENTRIES { total as int } else { MAX_TASKBAR_ENTRIES as int }),
            forall|i: int| 0 <= i < entries@.len() ==> (#[trigger] entries@[i]).wf(),
            forall|i: int| 0 <= i < entries@.len() ==> {
                let sf = #[trigger] listed_surfaces(table@, k as int)[i];
                &&& entries@[i].surface_id == sf.id
                &&& entries@[i].spec_title() == title_cut(sf.title@)
            },
        decreases table@.len() - k,
    {
        proof {
            lemma_listed(table@, k as int);
            lemma_listed(table@, k as int + 1);
        }
        match &table[k] {
            Some(sf) => {
                if !sf.is_shell() && sf.state.is_visible() {
                    if entries.len() < MAX_TASKBAR_ENTRIES {
                        entries.push(EntrySnapshot::from_title(sf.id, &sf.title));
                    }
                    total = total + 1;
                }
            },
            None => {},
        }
        k = k + 1;
    }
    TaskbarSnapshot { focused, total_count: total, entries }
}

/// Two entries hold the same surface and the same cached bytes.
pub open spec fn same_entry(a: EntrySnapshot, b: EntrySnapshot) -> bool {
    a.surface_id == b.surface_id && a.title_len == b.title_len && a.title_prefix@ == b.title_prefix@
}

/// Two taskbar snapshots agree field by field.
pub open spec fn same_taskbar(a: TaskbarSnapshot, b: TaskbarSnapshot) -> bool {
    &&& a.focused == b.focused
    &&& a.total_count == b.total_count
    &&& a.entries@.len() == b.entries@.len()
    &&& forall|i: int| 0 <= i < a.entries@.len() ==> same_entry(#[trigger] a.entries@[i], b.entries@[i])
}

/// Whether two taskbar snapshots agree field by field.
pub fn taskbar_snapshot_equal(a: &TaskbarSnapshot, b: &TaskbarSnapshot) -> (r: bool)
    ensures
        r == same_taskbar(*a, *b),
{
    if a.focused.0 != b.focused.0 || a.total_count != b.total_count || a.entries.len() != b.entries.len() {
        return false;
    }
    let mut i: usize = 0;
    while i < a.entries.len()
        invariant
            i <= a.entries@.len(),
            a.entries@.len() == b.entries@.len(),
            a.focused == b.focused,
            a.total_count == b.total_count,
            forall|k: int| 0 <= k < i ==> same_entry(#[trigger] a.entries@[k], b.entries@[k]),
        decreases a.entries@.len() - i,
    {
        let x = a.entries[i];
        let y = b.entries[i];
        if x.surface_id.0 != y.surface_id.0 || x.title_len != y.title_len {
            return false;
        }
        let mut j: usize = 0;
        while j < 24
            invariant
                j <= 24,
                i < a.entries@.len(),
                x == a.entries@[i as int],
                y == b.entries@[i as int],
                forall|m: int| 0 <= m < j ==> x.title_prefix@[m] == y.title_prefix@[m],
            decreases 24 - j,
        {
            if x.title_prefix[j] != y.title_prefix[j] {
                assert(!same_entry(a.entries@[i as int], b.entries@[i as int]));
                return false;
            }
            j = j + 1;
        }
        assert(x.title_prefix@ =~= y.title_prefix@);
        i = i + 1;
    }
    true
}

/// Taking `snapshot` took taskbar state `o` to `n` and decided `redraw`:
/// redraw for the first frame or a changed snapshot, which is then cached.
pub open spec fn taskbar_accepted(o: TaskbarState, n: TaskbarState, snapshot: TaskbarSnapshot, redraw: bool) -> bool {
    &&& redraw == (o.needs_first_render || !same_taskbar(o.cached_snapshot, snapshot))
    &&& redraw ==> n.cached_snapshot == snapshot && !n.needs_first_render
    &&& !redraw ==> n.cached_snapshot == o.cached_snapshot && n.needs_first_render == o.needs_first_render
    &&& n.surface_id == o.surface_id
    &&& n.width == o.width
    &&& n.height == o.height
}

/// The taskbar's state: its surface, size, the snapshot last drawn, and
/// whether the first frame is still owed.
pub struct TaskbarState {
    pub surface_id: SurfaceId,
    pub width: u32,
    pub height: u32,
    pub cached_snapshot: TaskbarSnapshot,
    pub needs_first_render: bool,
}

impl TaskbarState {
    /// Take a fresh snapshot: whether the bar must be redrawn (first frame,
    /// or the snapshot changed); the cache takes the snapshot when it must.
    pub fn accept_snapshot(&mut self, snapshot: TaskbarSnapshot) -> (redraw: bool)
        ensures
            taskbar_accepted(*old(self), *final(self), snapshot, redraw),
    {
        if !self.needs_first_render && taskbar_snapshot_equal(&self.cached_snapshot, &snapshot) {
            return false;
        }
        self.cached_snapshot = snapshot;
        self.needs_first_render = false;
        true
    }
}

/// A cell of the bar: its left edge and width.
#[derive(Debug, Clone, Copy, PartialEq, Eq, Structural)]
pub struct TaskbarCell {
    pub x: i32,
    pub width: u32,
}

/// Where the bar's parts go: the workspace button, one cell per entry (the
/// first `visible_entries` shown), and the count readout.
#[derive(Debug, Clone, Copy)]
pub struct TaskbarLayout {
    pub workspace_button: TaskbarCell,
    pub entries: [TaskbarCell; 8],
    pub visible_entries: usize,
    pub count_cell: TaskbarCell,
}

/// `v / 2` on `i32`, rounding toward zero.
pub open spec fn half_toward_zero(v: int) -> int {
    if v >= 0 { v / 2 } else { -((-v) / 2) }
}

fn half_i32(v: i32) -> (r: i32)
    requires
        v > i32::MIN,
    ensures
        r == half_toward_zero(v as int),
{
    if v >= 0 { v / 2 } else { -((-v) / 2) }
}

/// The bytes `[W]`.
pub open spec fn workspace_label() -> Seq<u8> {
    seq![91u8, 87u8, 93u8]
}

/// The coordinates of a cell stay inside `i32` with room for its text.
pub open spec fn cell_fits(c: TaskbarCell) -> bool {
    &&& c.width <= i32::MAX
    &&& c.x + c.width <= i32::MAX
    &&& i32::MIN + 80 <= c.x
    &&& c.x + 80 <= i32::MAX
}

/// The buffer after `render_workspace_button`: the cell filled, `[W]`
/// centred in it.
pub open spec fn workspace_button(s: Seq<u32>, w: u32, h: u32, c: TaskbarCell, ok: bool) -> Seq<u32> {
    let s1 = filled(s, w, h, c.x, 0, c.width, TASKBAR_HEIGHT, WORKSPACE_BUTTON_BG);
    let text_x = c.x + half_toward_zero(c.width - 24);
    text_at(s1, w, h, text_x, TEXT_Y as int, c.x + c.width, workspace_label(), TEXT_FG, WORKSPACE_BUTTON_BG, ok)
}

/// Draw the workspace button: the cell in its background and `[W]` centred.
pub fn render_workspace_button(font: &mut Option<Font>, buffer: &mut Vec<u32>, dst_w: u32, dst_h: u32, cell: &TaskbarCell)
    requires
        *old(font) matches Some(f) ==> f.spec_face() == FontFace::Spleen8x16,
        dst_w * dst_h <= old(buffer)@.len(),
        cell_fits(*cell),
    ensures
        *final(font) matches Some(f) ==> f.spec_face() == FontFace::Spleen8x16,
        (*final(font) is Some) == (*old(font) is Some),
        final(buffer)@.len() == old(buffer)@.len(),
        final(buffer)@ == workspace_button(old(buffer)@, dst_w, dst_h, *cell, *old(font) is Some),
{
    proof {
        lemma_fill_fits_area(old(buffer)@.len(), dst_w, dst_h, cell.x, 0, cell.width, TASKBAR_HEIGHT);
        lemma_filled_len(old(buffer)@, dst_w, dst_h, cell.x, 0, cell.width, TASKBAR_HEIGHT, WORKSPACE_BUTTON_BG);
    }
    fill_rect(buffer, dst_w, dst_h, cell.x, 0, cell.width, TASKBAR_HEIGHT, WORKSPACE_BUTTON_BG);
    let label: [u8; 3] = [91, 87, 93];
    proof {
        assert(label@ =~= workspace_label());
    }
    let wi = u32_as_i32(cell.width);
    let text_x = cell.x + half_i32(wi - 24);
    let max_x = cell.x + wi;
    draw_text_if_loaded(font, buffer, dst_w, dst_h, text_x, TEXT_Y, max_x, &label, TEXT_FG, WORKSPACE_BUTTON_BG);
}

/// The bytes of an entry drawn in its cell: at most 23 of the cached title.
pub open spec fn entry_run(e: EntrySnapshot) -> Seq<u8> {
    let t = e.spec_title();
    t.subrange(0, if t.len() > ENTRY_TITLE_MAX_CHARS { ENTRY_TITLE_MAX_CHARS as int } else { t.len() as int })
}

/// The buffer after `render_entry`: the cell in the focus background and
/// the entry's title (when it has one) padded 8 pixels on each side.
pub open spec fn entry_cell(s: Seq<u32>, w: u32, h: u32, c: TaskbarCell, e: EntrySnapshot, focused: bool, ok: bool) -> Seq<u32> {
    let bg = if focused { ENTRY_BG_FOCUSED } else { ENTRY_BG_UNFOCUSED };
    let s1 = filled(s, w, h, c.x, 0, c.width, TASKBAR_HEIGHT, bg);
    let run = entry_run(e);
    if run.len() == 0 {
        s1
    } else {
        text_at(s1, w, h, c.x + ENTRY_PADDING_X, TEXT_Y as int, c.x + c.width - ENTRY_PADDING_X, run, TEXT_FG, bg, ok)
    }
}

/// Draw one entry cell: its background (brighter when focused) and the
/// first 23 bytes of its title.
pub fn render_entry(
    font: &mut Option<Font>,
    buffer: &mut Vec<u32>,
    dst_w: u32,
    dst_h: u32,
    cell: TaskbarCell,
    entry: &EntrySnapshot,
    focused: bool,
)
    requires
        *old(font) matches Some(f) ==> f.spec_face() == FontFace::Spleen8x16,
        dst_w * dst_h <= old(buffer)@.len(),
        cell_fits(cell),
        entry.wf(),
    ensures
        *final(font) matches Some(f) ==> f.spec_face() == FontFace::Spleen8x16,
        (*final(font) is Some) == (*old(font) is Some),
        final(buffer)@.len() == old(buffer)@.len(),
        final(buffer)@ == entry_cell(old(buffer)@, dst_w, dst_h, cell, *entry, focused, *old(font) is Some),
{
    let bg = if focused { ENTRY_BG_FOCUSED } else { ENTRY_BG_UNFOCUSED };
    proof {
        lemma_fill_fits_area(old(buffer)@.len(), dst_w, dst_h, cell.x, 0, cell.width, TASKBAR_HEIGHT);
        lemma_filled_len(old(buffer)@, dst_w, dst_h, cell.x, 0, cell.width, TASKBAR_HEIGHT, bg);
    }
    fill_rect(buffer, dst_w, dst_h, cell.x, 0, cell.width, TASKBAR_HEIGHT, bg);
    let title = entry.title_bytes();
    let cut = if title.len() > ENTRY_TITLE_MAX_CHARS { ENTRY_TITLE_MAX_CHARS } else { title.len() };
    let run = vstd::slice::slice_subrange(title, 0, cut);
    if run.len() == 0 {
        return;
    }
    let wi = u32_as_i32(cell.width);
    draw_text_if_loaded(font, buffer, dst_w, dst_h, cell.x + ENTRY_PADDING_X, TEXT_Y, cell.x + wi - ENTRY_PADDING_X, run, TEXT_FG, bg);
}

/// The taskbar's "N windows" text: N is the count capped at 9.
pub open spec fn count_label(count: u32) -> Seq<u8> {
    seq![(48 + if count > 9 { 9 } else { count as int }) as u8, 32u8, 119, 105, 110, 100, 111, 119, 115]
}

/// The taskbar's "N windows" text: N is the count capped at 9.
pub fn count_text(count: u32) -> (t: [u8; 9])
    ensures
        t@ == count_label(count),
{
    let n: u8 = if count > 9 { 9 } else { count as u8 };
    let t: [u8; 9] = [48 + n, 32, 119, 105, 110, 100, 111, 119, 115];
    assert(t@ =~= count_label(count));
    t
}

/// The buffer after `render_count`: the cell in the bar background and
/// "N windows" right-aligned with 8 pixels of padding.
pub open spec fn count_cell(s: Seq<u32>, w: u32, h: u32, c: TaskbarCell, count: u32, ok: bool) -> Seq<u32> {
    let s1 = filled(s, w, h, c.x, 0, c.width, TASKBAR_HEIGHT, TASKBAR_BG);
    let text_x = c.x + c.width - 72 - ENTRY_PADDING_X;
    text_at(s1, w, h, text_x, TEXT_Y as int, c.x + c.width - ENTRY_PADDING_X, count_label(count), TEXT_FG, TASKBAR_BG, ok)
}

/// Draw the count readout: "N windows", N capped at 9.
pub fn render_count(font: &mut Option<Font>, buffer: &mut Vec<u32>, dst_w: u32, dst_h: u32, cell: &TaskbarCell, count: u32)
    requires
        *old(font) matches Some(f) ==> f.spec_face() == FontFace::Spleen8x16,
        dst_w * dst_h <= old(buffer)@.len(),
        cell_fits(*cell),
    ensures
        *final(font) matches Some(f) ==> f.spec_face() == FontFace::Spleen8x16,
        (*final(font) is Some) == (*old(font) is Some),
        final(buffer)@.len() == old(buffer)@.len(),
        final(buffer)@ == count_cell(old(buffer)@, dst_w, dst_h, *cell, count, *old(font) is Some),
{
    proof {
        lemma_fill_fits_area(old(buffer)@.len(), dst_w, dst_h, cell.x, 0, cell.width, TASKBAR_HEIGHT);
        lemma_filled_len(old(buffer)@, dst_w, dst_h, cell.x, 0, cell.width, TASKBAR_HEIGHT, TASKBAR_BG);
    }
    fill_rect(buffer, dst_w, dst_h, cell.x, 0, cell.width, TASKBAR_HEIGHT, TASKBAR_BG);
    let text = count_text(count);
    let wi = u32_as_i32(cell.width);
    let text_x = cell.x + wi - 72 - ENTRY_PADDING_X;
    let max_x = cell.x + wi - ENTRY_PADDING_X;
    draw_text_if_loaded(font, buffer, dst_w, dst_h, text_x, TEXT_Y, max_x, &text, TEXT_FG, TASKBAR_BG);
}

/// Every cell of the layout stays inside `i32`.
pub open spec fn layout_fits(l: TaskbarLayout) -> bool {
    &&& cell_fits(l.workspace_button)
    &&& cell_fits(l.count_cell)
    &&& forall|i: int| 0 <= i < 8 ==> cell_fits(#[trigger] l.entries@[i])
}

/// Whether entry `e` is the focused one (and focus is held at all).
pub open spec fn entry_focused(e: EntrySnapshot, focused: SurfaceId) -> bool {
    e.surface_id == focused && focused.0 != 0
}

/// The entries drawn: the first `n`, each in its cell.
pub open spec fn entries_drawn(s: Seq<u32>, w: u32, h: u32, l: TaskbarLayout, snap: TaskbarSnapshot, ok: bool, n: int) -> Seq<u32>
    decreases n,
{
    if n <= 0 {
        s
    } else {
        let prev = entries_drawn(s, w, h, l, snap, ok, n - 1);
        let e = snap.entries@[n - 1];
        entry_cell(prev, w, h, l.entries@[n - 1], e, entry_focused(e, snap.focused), ok)
    }
}

/// How many entries are drawn: the layout's visible ones, at most the
/// snapshot's and at most eight.
pub open spec fn entry_limit(l: TaskbarLayout, snap: TaskbarSnapshot) -> int {
    let a = if l.visible_entries < snap.entries@.len() { l.visible_entries as int } else { snap.entries@.len() as int };
    if a < MAX_TASKBAR_ENTRIES { a } else { MAX_TASKBAR_ENTRIES as int }
}

/// The whole bar as `render_frame` draws it.
pub open spec fn taskbar_frame(s: Seq<u32>, w: u32, h: u32, l: TaskbarLayout, snap: TaskbarSnapshot, ok: bool) -> Seq<u32> {
    let s1 = filled(s, w, h, 0, 0, w, h, TASKBAR_BG);
    let s2 = workspace_button(s1, w, h, l.workspace_button, ok);
    let s3 = entries_drawn(s2, w, h, l, snap, ok, entry_limit(l, snap));
    count_cell(s3, w, h, l.count_cell, snap.total_count, ok)
}

/// Repaint the whole bar from a snapshot: background, workspace button,
/// the layout's visible entries (the focused one highlighted) and the
/// count. The title font is loaded first; without it the text is left out.
/// Nothing is drawn when the buffer is smaller than the bar.
pub fn render_frame(
    font: &mut Option<Font>,
    buffer: &mut Vec<u32>,
    width: u32,
    height: u32,
    layout: &TaskbarLayout,
    snap: &TaskbarSnapshot,
)
    requires
        *old(font) matches Some(f) ==> f.spec_face() == FontFace::Spleen8x16,
        width <= i32::MAX,
        height <= i32::MAX,
        layout_fits(*layout),
        snap.wf(),
    ensures
        *final(font) matches Some(f) ==> f.spec_face() == FontFace::Spleen8x16,
        *old(font) is Some ==> *final(font) is Some,
        final(buffer)@.len() == old(buffer)@.len(),
        old(buffer)@.len() < width * height ==> final(buffer)@ == old(buffer)@,
        old(buffer)@.len() >= width * height ==> final(buffer)@ == taskbar_frame(old(buffer)@, width, height, *layout, *snap,
            *final(font) is Some),
{
    proof {
        assert((width as int) * (height as int) <= 0x7fff_ffff * 0x7fff_ffff) by (nonlinear_arith)
            requires
                width <= 0x7fff_ffff,
                height <= 0x7fff_ffff,
        ;
    }
    if (buffer.len() as u64) < (width as u64) * (height as u64) {
        return;
    }
    ensure_title_font(font);
    let ghost ok = *font is Some;
    proof {
        lemma_fill_fits_area(buffer@.len(), width, height, 0, 0, width, height);
        lemma_filled_len(buffer@, width, height, 0, 0, width, height, TASKBAR_BG);
    }
    fill_rect(buffer, width, height, 0, 0, width, height, TASKBAR_BG);
    render_workspace_button(font, buffer, width, height, &layout.workspace_button);
    let a = if layout.visible_entries < snap.entries.len() { layout.visible_entries } else { snap.entries.len() };
    let limit = if a < MAX_TASKBAR_ENTRIES { a } else { MAX_TASKBAR_ENTRIES };
    let ghost s2 = buffer@;
    let mut i: usize = 0;
    while i < limit
        invariant
            i <= limit,
            limit == entry_limit(*layout, *snap),
            limit <= MAX_TASKBAR_ENTRIES,
            limit <= snap.entries@.len(),
            snap.wf(),
            layout_fits(*layout),
            width * height <= buffer@.len(),
            buffer@.len() == s2.len(),
            (*font is Some) == ok,
            *font matches Some(f) ==> f.spec_face() == FontFace::Spleen8x16,
            buffer@ == entries_drawn(s2, width, height, *layout, *snap, ok, i as int),
        decreases limit - i,
    {
        let cell = layout.entries[i];
        let entry = &snap.entries[i];
        let focused = entry.surface_id.0 == snap.focused.0 && snap.focused.0 != 0;
        proof {
            assert(cell_fits(layout.entries@[i as int]));
            assert(snap.entries@[i as int].wf());
        }
        render_entry(font, buffer, width, height, cell, entry, focused);
        i = i + 1;
    }
    render_count(font, buffer, width, height, &layout.count_cell, snap.total_count);
}

/// The `y` of surface `id` in the table, if it is there (first match).
pub fn lookup_surface_y(table: &Vec<Option<Surface>>, id: SurfaceId) -> (y: Option<i32>)
    ensures
        y is None <==> forall|i: int| 0 <= i < table@.len() ==> !(#[trigger] table@[i] matches Some(s) && s.id == id),
        y matches Some(v) ==> exists|i: int| 0 <= i < table@.len() && (#[trigger] table@[i] matches Some(s) && s.id == id && s.y == v
            && forall|j: int| 0 <= j < i ==> !(#[trigger] table@[j] matches Some(t) && t.id == id)),
{
    let mut k: usize = 0;
    while k < table.len()
        invariant
            k <= table@.len(),
            forall|i: int| 0 <= i < k ==> !(#[trigger] table@[i] matches Some(s) && s.id == id),
        decreases table@.len() - k,
    {
        match &table[k] {
            Some(s) => {
                if s.id == id {
                    return Some(s.y);
                }
            },
            None => {},
        }
        k = k + 1;
    }
    None
}

} // verus!
