//! The status strip: the memory and core readouts, the redraw cadence, and
//! drawing its runs of text.
use vstd::prelude::*;

use crate::font::{Font, FontFace};
use crate::ids::{SharedMemoryId, SurfaceId};
use crate::compositor::text::{draw_text_if_loaded, ensure_title_font, text_at, TITLE_GLYPH_WIDTH};

verus! {

/// Status strip height in pixels.
pub const STRIP_HEIGHT: u32 = 32;
/// Strip background.
pub const STRIP_BG: u32 = 0xFF14_1923;
/// Text color.
pub const STRIP_FG: u32 = 0xFFEC_F0F8;
/// Row of the text: 8 pixels above and below the 16-pixel glyphs.
pub const TEXT_Y: i32 = 8;
/// Left margin before the first glyph.
pub const TEXT_X: i32 = 8;
/// Status strip redraw cadence.
pub const TICK_INTERVAL_MS: u64 = 1000;
/// Core count before the first sample.
pub const CORES_UNSET: u32 = u32::MAX;

/// Memory in use as a percentage of all pages, capped at 99 (0 when there
/// are no pages).
pub fn sample_memory_percent_used(total_pages: usize, free_pages: usize) -> (pct: u32)
    ensures
        total_pages == 0 ==> pct == 0,
        total_pages > 0 ==> ({
            let used = if free_pages < total_pages { total_pages - free_pages } else { 0 };
            let p = used * 100 / (total_pages as int);
            pct == (if p < 99 { p } else { 99 })
        }),
{
    if total_pages == 0 {
        return 0;
    }
    let used: u64 = if free_pages < total_pages { (total_pages - free_pages) as u64 } else { 0 };
    assert(used * 100 <= 0xFFFF_FFFF_FFFF_FFFF * 100) by (nonlinear_arith)
        requires used <= 0xFFFF_FFFF_FFFF_FFFF;
    let pct: u128 = (used as u128 * 100) / (total_pages as u128);
    if pct < 99 { pct as u32 } else { 99 }
}

/// The online core count as shown.
pub fn sample_core_count(online: usize) -> (n: u32)
    requires
        online <= u32::MAX,
    ensures
        n == online,
{
    online as u32
}

/// Whether the status strip is due for a redraw at `now_ms`: a second since
/// the last one, or never drawn.
pub fn strip_due(now_ms: u64, last_render_ms: u64) -> (b: bool)
    ensures
        b == ((if now_ms >= last_render_ms { now_ms - last_render_ms } else { 0 }) >= TICK_INTERVAL_MS || last_render_ms == 0),
{
    now_ms.saturating_sub(last_render_ms) >= TICK_INTERVAL_MS || last_render_ms == 0
}

/// One strip tick at `now_ms` with the sampled values took state `o` to `n`
/// and decided `redraw` (see `StatusStripState::update_for_tick`).
pub open spec fn strip_ticked(
    o: StatusStripState,
    n: StatusStripState,
    now_ms: u64,
    time: [u8; 5],
    mem_pct: u32,
    cores: u32,
    redraw: bool,
) -> bool {
    &&& n.surface_id == o.surface_id
    &&& n.shmem_id == o.shmem_id
    &&& n.width == o.width
    &&& n.height == o.height
    &&& !strip_due_spec(now_ms, o.last_render_tick) ==> !redraw && n == o
    &&& strip_due_spec(now_ms, o.last_render_tick) ==> {
        let changed = o.cached_time@ != time@ || o.cached_mem_pct != mem_pct || o.cached_cores != cores;
        &&& redraw == (changed || o.last_render_tick == 0)
        &&& n.last_render_tick == now_ms
        &&& redraw ==> n.cached_time@ == time@ && n.cached_mem_pct == mem_pct && n.cached_cores == cores
        &&& !redraw ==> n.cached_time == o.cached_time && n.cached_mem_pct == o.cached_mem_pct
            && n.cached_cores == o.cached_cores
    }
}

/// The status strip's state: its surface and buffer, size, when it was
/// last drawn, and the values drawn then.
pub struct StatusStripState {
    pub surface_id: SurfaceId,
    pub shmem_id: SharedMemoryId,
    pub width: u32,
    pub height: u32,
    pub last_render_tick: u64,
    pub cached_time: [u8; 5],
    pub cached_mem_pct: u32,
    pub cached_cores: u32,
}

impl StatusStripState {
    /// The state of a freshly created strip: never drawn, time `--:--`, no
    /// memory or core value yet.
    pub fn new(surface_id: SurfaceId, shmem_id: SharedMemoryId, width: u32) -> (s: StatusStripState)
        ensures
            s.surface_id == surface_id,
            s.shmem_id == shmem_id,
            s.width == width,
            s.height == STRIP_HEIGHT,
            s.last_render_tick == 0,
            s.cached_time@ == seq![45u8, 45, 58, 45, 45],
            s.cached_mem_pct == u32::MAX,
            s.cached_cores == CORES_UNSET,
    {
        let s = StatusStripState {
            surface_id,
            shmem_id,
            width,
            height: STRIP_HEIGHT,
            last_render_tick: 0,
            cached_time: [45, 45, 58, 45, 45],
            cached_mem_pct: u32::MAX,
            cached_cores: CORES_UNSET,
        };
        assert(s.cached_time@ =~= seq![45u8, 45, 58, 45, 45]);
        s
    }

    /// One tick at `now_ms` with the freshly sampled values: whether the
    /// strip must be redrawn. Before a second has passed since the last
    /// draw nothing changes. Once it has, the values are cached and the
    /// strip redrawn if any of them changed (or it was never drawn);
    /// otherwise only the tick is recorded.
    pub fn update_for_tick(&mut self, now_ms: u64, time: [u8; 5], mem_pct: u32, cores: u32) -> (redraw: bool)
        ensures
            strip_ticked(*old(self), *final(self), now_ms, time, mem_pct, cores, redraw),
    {
        if !strip_due(now_ms, self.last_render_tick) {
            return false;
        }
        let mut same_time = true;
        let mut k: usize = 0;
        while k < 5
            invariant
                k <= 5,
                same_time == (forall|j: int| 0 <= j < k ==> self.cached_time@[j] == time@[j]),
            decreases 5 - k,
        {
            if self.cached_time[k] != time[k] {
                same_time = false;
            }
            k = k + 1;
        }
        proof {
            if same_time {
                assert(self.cached_time@ =~= time@);
            }
        }
        let changed = !same_time || self.cached_mem_pct != mem_pct || self.cached_cores != cores;
        if !changed && self.last_render_tick != 0 {
            self.last_render_tick = now_ms;
            return false;
        }
        self.cached_time = time;
        self.cached_mem_pct = mem_pct;
        self.cached_cores = cores;
        self.last_render_tick = now_ms;
        true
    }
}

/// Whether the strip is due at `now_ms`, as `strip_due` decides it.
pub open spec fn strip_due_spec(now_ms: u64, last_render_ms: u64) -> bool {
    (if now_ms >= last_render_ms { now_ms - last_render_ms } else { 0 }) >= TICK_INTERVAL_MS || last_render_ms == 0
}

/// Draw `text` on the strip from `start_x` (row 8), clipped at `max_x`, if
/// the title font is loaded; the x just past the text's cells.
pub fn draw_run(
    font: &mut Option<Font>,
    buffer: &mut Vec<u32>,
    width: u32,
    height: u32,
    start_x: i32,
    max_x: i32,
    text: &[u8],
) -> (next_x: i32)
    requires
        *old(font) matches Some(f) ==> f.spec_face() == FontFace::Spleen8x16,
        width * height <= old(buffer)@.len(),
        8 * text@.len() <= i32::MAX,
        start_x + 8 * text@.len() <= i32::MAX,
    ensures
        *final(font) matches Some(f) ==> f.spec_face() == FontFace::Spleen8x16,
        (*final(font) is Some) == (*old(font) is Some),
        final(buffer)@.len() == old(buffer)@.len(),
        next_x == start_x + 8 * text@.len(),
        final(buffer)@ == text_at(old(buffer)@, width, height, start_x as int, TEXT_Y as int, max_x as int, text@, STRIP_FG,
            STRIP_BG, *old(font) is Some),
{
    draw_text_if_loaded(font, buffer, width, height, start_x, TEXT_Y, max_x, text, STRIP_FG, STRIP_BG);
    start_x + (text.len() as i32) * TITLE_GLYPH_WIDTH
}

/// Total length of the first `n` runs.
pub open spec fn runs_len(runs: Seq<Seq<u8>>, n: int) -> int
    decreases n,
{
    if n <= 0 { 0 } else { runs_len(runs, n - 1) + runs[n - 1].len() }
}

/// The first `n` runs drawn one after another from `TEXT_X`.
pub open spec fn runs_drawn(s: Seq<u32>, w: u32, h: u32, max_x: int, runs: Seq<Seq<u8>>, ok: bool, n: int) -> Seq<u32>
    decreases n,
{
    if n <= 0 {
        s
    } else {
        let prev = runs_drawn(s, w, h, max_x, runs, ok, n - 1);
        text_at(prev, w, h, TEXT_X + 8 * runs_len(runs, n - 1), TEXT_Y as int, max_x, runs[n - 1], STRIP_FG, STRIP_BG, ok)
    }
}

/// The runs of the strip: `AIOS  `, the time, `  `, `CPU: N/A  `,
/// `MEM: `, the percent digits, `%  `, `CORES: `, the core digits.
pub open spec fn strip_runs(time: Seq<u8>, mem_digits: Seq<u8>, core_digits: Seq<u8>) -> Seq<Seq<u8>> {
    seq![
        seq![65u8, 73, 79, 83, 32, 32],
        time,
        seq![32u8, 32],
        seq![67u8, 80, 85, 58, 32, 78, 47, 65, 32, 32],
        seq![77u8, 69, 77, 58, 32],
        mem_digits,
        seq![37u8, 32, 32],
        seq![67u8, 79, 82, 69, 83, 58, 32],
        core_digits
    ]
}

/// The first `w * h` pixels set to the strip background.
pub open spec fn strip_background(s: Seq<u32>, n: int) -> Seq<u32> {
    Seq::new(s.len(), |i: int| if i < n { STRIP_BG } else { s[i] })
}

/// The strip as `render_strip` draws it.
pub open spec fn strip_frame(s: Seq<u32>, w: u32, h: u32, time: Seq<u8>, mem_digits: Seq<u8>, core_digits: Seq<u8>, ok: bool) -> Seq<u32> {
    runs_drawn(strip_background(s, w * h), w, h, w as int, strip_runs(time, mem_digits, core_digits), ok, 9)
}

/// Repaint the strip: the first `width * height` pixels in the background,
/// then the runs `AIOS  `, the `HH:MM` time, `CPU: N/A`, `MEM: NN%` and
/// `CORES: N` left to right from x = 8, clipped at the strip's width. The
/// percent and core fields come formatted (`mem_digits`, `core_digits`).
/// The title font is loaded first; without it the text is left out.
/// Nothing is drawn when the buffer is smaller than the strip.
pub fn render_strip(
    font: &mut Option<Font>,
    buffer: &mut Vec<u32>,
    width: u32,
    height: u32,
    time: &[u8; 5],
    mem_digits: &[u8; 2],
    core_digits: &[u8; 4],
)
    requires
        *old(font) matches Some(f) ==> f.spec_face() == FontFace::Spleen8x16,
        width <= i32::MAX,
        height <= i32::MAX,
    ensures
        *final(font) matches Some(f) ==> f.spec_face() == FontFace::Spleen8x16,
        *old(font) is Some ==> *final(font) is Some,
        final(buffer)@.len() == old(buffer)@.len(),
        old(buffer)@.len() < width * height ==> final(buffer)@ == old(buffer)@,
        old(buffer)@.len() >= width * height ==> final(buffer)@ == strip_frame(old(buffer)@, width, height, time@, mem_digits@,
            core_digits@, *final(font) is Some),
{
    proof {
        assert((width as int) * (height as int) <= 0x7fff_ffff * 0x7fff_ffff) by (nonlinear_arith)
            requires
                width <= 0x7fff_ffff,
                height <= 0x7fff_ffff,
        ;
    }
    if (buffer.len() as u64) < (width as u64) * (height as u64) {
        return;
    }
    ensure_title_font(font);
    let ghost ok = *font is Some;
    let n = (width as usize) * (height as usize);
    let ghost s0 = buffer@;
    let mut i: usize = 0;
    while i < n
        invariant
            i <= n,
            n == width * height,
            n <= s0.len(),
            buffer@.len() == s0.len(),
            forall|j: int| 0 <= j < i ==> buffer@[j] == STRIP_BG,
            forall|j: int| i <= j < s0.len() ==> buffer@[j] == s0[j],
        decreases n - i,
    {
        buffer.set(i, STRIP_BG);
        i = i + 1;
    }
    assert(buffer@ =~= strip_background(s0, width * height));
    let ghost runs = strip_runs(time@, mem_digits@, core_digits@);
    let ghost bg = buffer@;
    let max_x = width as i32;
    let a: [u8; 6] = [65, 73, 79, 83, 32, 32];
    let b: [u8; 2] = [32, 32];
    let c: [u8; 10] = [67, 80, 85, 58, 32, 78, 47, 65, 32, 32];
    let d: [u8; 5] = [77, 69, 77, 58, 32];
    let e: [u8; 3] = [37, 32, 32];
    let f: [u8; 7] = [67, 79, 82, 69, 83, 58, 32];
    proof {
        assert(a@ =~= runs[0]);
        assert(b@ =~= runs[2]);
        assert(c@ =~= runs[3]);
        assert(d@ =~= runs[4]);
        assert(e@ =~= runs[6]);
        assert(f@ =~= runs[7]);
        assert(time@ == runs[1]);
        assert(mem_digits@ == runs[5]);
        assert(core_digits@ == runs[8]);
        reveal_with_fuel(runs_len, 10);
        reveal_with_fuel(runs_drawn, 2);
    }
    let x = draw_run(font, buffer, width, height, TEXT_X, max_x, &a);
    assert(buffer@ == runs_drawn(bg, width, height, max_x as int, runs, ok, 1));
    let x = draw_run(font, buffer, width, height, x, max_x, time);
    assert(buffer@ == runs_drawn(bg, width, height, max_x as int, runs, ok, 2));
    let x = draw_run(font, buffer, width, height, x, max_x, &b);
    assert(buffer@ == runs_drawn(bg, width, height, max_x as int, runs, ok, 3));
    let x = draw_run(font, buffer, width, height, x, max_x, &c);
    assert(buffer@ == runs_drawn(bg, width, height, max_x as int, runs, ok, 4));
    let x = draw_run(font, buffer, width, height, x, max_x, &d);
    assert(buffer@ == runs_drawn(bg, width, height, max_x as int, runs, ok, 5));
    let x = draw_run(font, buffer, width, height, x, max_x, mem_digits);
    assert(buffer@ == runs_drawn(bg, width, height, max_x as int, runs, ok, 6));
    let x = draw_run(font, buffer, width, height, x, max_x, &e);
    assert(buffer@ == runs_drawn(bg, width, height, max_x as int, runs, ok, 7));
    let x = draw_run(font, buffer, width, height, x, max_x, &f);
    assert(buffer@ == runs_drawn(bg, width, height, max_x as int, runs, ok, 8));
    let _ = draw_run(font, buffer, width, height, x, max_x, core_digits);
    assert(buffer@ == runs_drawn(bg, width, height, max_x as int, runs, ok, 9));
}

} // verus!
