//! The desktop shell's decisions: the status strip, the taskbar and the
//! workspace home view that the compositor draws itself.
use vstd::prelude::*;

use crate::ids::{ChannelId, ProcessId, SharedMemoryId, SurfaceId, COMPOSITOR_PID};
use crate::compositor::surface::{
    new_surface, wrap_inc, DamageRegion, Surface, SurfaceContentType, SurfaceLayer, SurfaceState, SurfaceTable,
    SurfaceTableView, SurfaceTitle,
};
use crate::ipc::shmem::{region_size, SharedRegionTable, MAX_SHARED_REGIONS};
use status_strip::{strip_ticked, StatusStripState};
use taskbar::{build_snapshot, taskbar_accepted, taskbar_snapshot_of, TaskbarState};
use workspace::{
    build_workspace_snapshot, workspace_accept_snapshot, workspace_accepted, workspace_needs_snapshot,
    workspace_snapshot_of, WorkspaceState,
};

pub mod status_strip;
pub mod taskbar;
pub mod workspace;

verus! {

/// What can go wrong setting up the shell surfaces.
#[derive(Debug, Clone, Copy, PartialEq, Eq, Structural)]
pub enum ShellError {
    SurfaceCreate,
    ShmemCreate,
    AttachBuffer,
    NoDisplay,
}



/// Which shell surface a pointer event went to.
#[derive(Debug, Clone, Copy, PartialEq, Eq, Structural)]
pub enum ShellTarget {
    /// The taskbar handles it.
    Taskbar,
    /// The workspace home view (no interactive cells).
    Workspace,
    /// The status strip (not interactive): dropped.
    StatusStrip,
    /// No shell surface of that id: dropped.
    Unknown,
}

/// Route a pointer event on shell surface `id`, given the ids of the
/// taskbar, workspace and status strip surfaces (`None` before they exist):
/// checked in that order.
pub fn route_pointer(
    id: SurfaceId,
    taskbar: Option<SurfaceId>,
    workspace: Option<SurfaceId>,
    status_strip: Option<SurfaceId>,
) -> (t: ShellTarget)
    ensures
        t == (if taskbar == Some(id) {
            ShellTarget::Taskbar
        } else if workspace == Some(id) {
            ShellTarget::Workspace
        } else if status_strip == Some(id) {
            ShellTarget::StatusStrip
        } else {
            ShellTarget::Unknown
        }),
{
    if matches_id(taskbar, id) {
        ShellTarget::Taskbar
    } else if matches_id(workspace, id) {
        ShellTarget::Workspace
    } else if matches_id(status_strip, id) {
        ShellTarget::StatusStrip
    } else {
        ShellTarget::Unknown
    }
}

fn matches_id(o: Option<SurfaceId>, id: SurfaceId) -> (b: bool)
    ensures
        b == (o == Some(id)),
{
    match o {
        Some(x) => x.0 == id.0,
        None => false,
    }
}

/// Bytes per shell pixel (XRGB8888).
pub const BYTES_PER_PIXEL: u64 = 4;

/// What the shell sets up on a display: the pixel-buffer sizes of the
/// status strip and the taskbar (full width), and the workspace panel, which
/// is left out (`None`) when the display has no room for it.
#[derive(Debug, Clone, Copy, PartialEq, Eq, Structural)]
pub struct ShellPlan {
    pub strip_bytes: u64,
    pub taskbar_bytes: u64,
    pub workspace: Option<workspace::WorkspaceGeometry>,
}

/// Plan the shell surfaces for a `display_width x display_height` display:
/// the buffer sizes their shared-memory regions need. `NoDisplay` when
/// either side is zero; a display too small for the workspace panel still
/// gets the status strip and the taskbar.
pub fn shell_plan(display_width: u32, display_height: u32) -> (r: Result<ShellPlan, ShellError>)
    requires
        display_width <= i32::MAX,
        display_height <= i32::MAX,
    ensures
        r is Err <==> (display_width == 0 || display_height == 0),
        r is Err ==> r == Err::<ShellPlan, ShellError>(ShellError::NoDisplay),
        r matches Ok(p) ==> {
            &&& p.strip_bytes == display_width * status_strip::STRIP_HEIGHT * BYTES_PER_PIXEL
            &&& p.taskbar_bytes == display_width * taskbar::TASKBAR_HEIGHT * BYTES_PER_PIXEL
            &&& p.workspace == workspace::panel_geometry(display_width, display_height)
        },
{
    if display_width == 0 || display_height == 0 {
        return Err(ShellError::NoDisplay);
    }
    let w = display_width as u64;
    let strip_bytes = w * (status_strip::STRIP_HEIGHT as u64) * BYTES_PER_PIXEL;
    let taskbar_bytes = w * (taskbar::TASKBAR_HEIGHT as u64) * BYTES_PER_PIXEL;
    let ws = match workspace::workspace_geometry(display_width, display_height) {
        Ok(g) => Some(g),
        Err(_) => None,
    };
    Ok(ShellPlan { strip_bytes, taskbar_bytes, workspace: ws })
}

/// The region `shmem` holds the pixels of a `width x height` panel.
pub open spec fn region_fits(regions: &SharedRegionTable, shmem: SharedMemoryId, width: u32, height: u32) -> bool {
    regions.region(shmem) matches Some(rg) && rg.size_bytes / 4 >= width * height
}

/// The first free slot of the surface table (meaningful when there is one).
pub open spec fn first_free_slot(t: SurfaceTableView) -> int {
    choose|i: int| 0 <= i < t.slots.len() && t.slots[i] is None && forall|j: int| 0 <= j < i ==> t.slots[j] is Some
}

/// The surface a shell panel becomes: the compositor's `SystemUI` surface
/// on `layer` with the next id and layer sequence of `t`, its buffer
/// attached (so `Active`), at `(x, y)`.
pub open spec fn panel_record(
    t: SurfaceTableView,
    channel: ChannelId,
    shmem: SharedMemoryId,
    width: u32,
    height: u32,
    title: SurfaceTitle,
    layer: SurfaceLayer,
    x: i32,
    y: i32,
) -> Surface {
    Surface {
        shmem_id: Some(shmem),
        state: SurfaceState::Active,
        x,
        y,
        ..new_surface(
            t.next_surface_id,
            t.next_layer_seq,
            ProcessId(COMPOSITOR_PID),
            channel,
            width,
            height,
            title,
            SurfaceContentType::SystemUI,
            layer,
        )
    }
}

/// Registering a shell surface (see `register_shell_panel`) took the
/// surface table from `t` to `t2` with result `r`.
pub open spec fn panel_registered(
    t: SurfaceTableView,
    t2: SurfaceTableView,
    regions: &SharedRegionTable,
    channel: Option<ChannelId>,
    shmem: SharedMemoryId,
    width: u32,
    height: u32,
    title: SurfaceTitle,
    layer: SurfaceLayer,
    x: i32,
    y: i32,
    r: Result<SurfaceId, ShellError>,
) -> bool {
    let full = forall|i: int| 0 <= i < t.slots.len() ==> t.slots[i] is Some;
    &&& !region_fits(regions, shmem, width, height) ==> r == Err::<SurfaceId, ShellError>(ShellError::ShmemCreate) && t2 == t
    &&& (region_fits(regions, shmem, width, height) && channel is None) ==> r == Err::<SurfaceId, ShellError>(
        ShellError::SurfaceCreate,
    ) && t2 == t
    &&& (region_fits(regions, shmem, width, height) && channel is Some && (width == 0 || height == 0)) ==> r
        == Err::<SurfaceId, ShellError>(ShellError::SurfaceCreate) && t2 == t
    &&& (region_fits(regions, shmem, width, height) && channel is Some && width != 0 && height != 0) ==> {
        &&& t2.next_surface_id == t.next_surface_id + 1
        &&& t2.next_layer_seq == wrap_inc(t.next_layer_seq)
        &&& full ==> r == Err::<SurfaceId, ShellError>(ShellError::SurfaceCreate) && t2.slots == t.slots
        &&& !full ==> r == Ok::<SurfaceId, ShellError>(SurfaceId(t.next_surface_id)) && t2.slots == t.slots.update(
            first_free_slot(t),
            Some(panel_record(t, channel->Some_0, shmem, width, height, title, layer, x, y)),
        )
    }
}

/// Register a `width x height` shell surface on `layer` whose pixels live
/// in the compositor's shared-memory region `shmem`, on the compositor's
/// channel, at `(x, y)`: `ShmemCreate` when the region is missing or too small for
/// the pixels; `SurfaceCreate` without a compositor channel or when the
/// table refuses the surface (a zero side, or no free slot: the id and
/// layer-sequence allocators still advance); otherwise the panel is created,
/// its buffer attached and the surface placed, and its id returned.
pub fn register_shell_panel(
    surfaces: &mut SurfaceTable,
    regions: &SharedRegionTable,
    channel: Option<ChannelId>,
    shmem: SharedMemoryId,
    width: u32,
    height: u32,
    title: SurfaceTitle,
    layer: SurfaceLayer,
    x: i32,
    y: i32,
) -> (r: Result<SurfaceId, ShellError>)
    requires
        old(surfaces).wf(),
        regions.wf(),
        (shmem.0 as int) < MAX_SHARED_REGIONS,
        title.wf(),
        old(surfaces)@.next_surface_id < u64::MAX,
    ensures
        final(surfaces).wf(),
        panel_registered(old(surfaces)@, final(surfaces)@, regions, channel, shmem, width, height, title, layer, x, y, r),
{
    let size = match region_size(regions, shmem) {
        Some(b) => b,
        None => {
            return Err(ShellError::ShmemCreate);
        },
    };
    let pixels: u64 = (size / 4) as u64;
    assert((width as u64) * (height as u64) <= 0xffff_ffffu64 * 0xffff_ffffu64) by (nonlinear_arith)
        requires
            width <= 0xffff_ffffu32,
            height <= 0xffff_ffffu32,
    ;
    if pixels < (width as u64) * (height as u64) {
        return Err(ShellError::ShmemCreate);
    }
    let ch = match channel {
        Some(c) => c,
        None => {
            return Err(ShellError::SurfaceCreate);
        },
    };
    let ghost t = surfaces@;
    let compositor = ProcessId(COMPOSITOR_PID);
    let id = match surfaces.surface_create(
        compositor,
        ch,
        width,
        height,
        title,
        SurfaceContentType::SystemUI,
        layer,
    ) {
        Ok(id) => id,
        Err(_) => {
            return Err(ShellError::SurfaceCreate);
        },
    };
    let ghost k = first_free_slot(t);
    let ghost t1 = surfaces@;
    proof {
        assert(t1.holds(k, id));
        let k1 = t1.index_of(id);
        assert(t1.holds(k1, id));
        assert(k1 == k);
        assert(t1.refusal(id, compositor) is None);
    }
    match surfaces.surface_attach_buffer(id, shmem, DamageRegion::FullSurface, compositor) {
        Ok(()) => {},
        Err(_) => {
            return Err(ShellError::AttachBuffer);
        },
    }
    let ghost t2 = surfaces@;
    proof {
        assert(t2.holds(k, id));
        let k2 = t2.index_of(id);
        assert(t2.holds(k2, id));
        assert(k2 == k);
        assert(t2.refusal(id, compositor) is None);
    }
    match surfaces.surface_set_position(id, x, y, compositor) {
        Ok(()) => {},
        Err(_) => {
            return Err(ShellError::SurfaceCreate);
        },
    }
    proof {
        assert(surfaces@.slots =~= t.slots.update(k, Some(panel_record(t, ch, shmem, width, height, title, layer, x, y))));
    }
    Ok(id)
}

/// The space names of a listing, as byte sequences.
pub open spec fn space_names(spaces: Option<&Vec<Vec<u8>>>) -> Option<Seq<Seq<u8>>> {
    match spaces {
        Some(l) => Some(l.deep_view()),
        None => None,
    }
}

/// Which shell panels a tick found must be redrawn.
#[derive(Debug, Clone, Copy, PartialEq, Eq, Structural)]
pub struct TickRedraws {
    pub strip: bool,
    pub taskbar: bool,
    pub workspace: bool,
}

/// The shell's panels; `None` for one that was never set up.
pub struct ShellPanels {
    pub strip: Option<StatusStripState>,
    pub taskbar: Option<TaskbarState>,
    pub workspace: Option<WorkspaceState>,
}

/// One shell tick at `now_ms`: the status strip with the sampled clock,
/// memory and core values; the taskbar with a snapshot of `surfaces` and the
/// keyboard focus `focused`; the workspace, while it needs a snapshot
/// (visible, or its first frame still owed), with a snapshot of the space
/// names `spaces`. A panel never set up is skipped. Returns which panels
/// must be redrawn.
pub fn shell_tick(
    panels: &mut ShellPanels,
    now_ms: u64,
    time: [u8; 5],
    mem_pct: u32,
    cores: u32,
    surfaces: &SurfaceTable,
    focused: SurfaceId,
    spaces: Option<&Vec<Vec<u8>>>,
) -> (r: TickRedraws)
    requires
        surfaces.wf(),
    ensures
        match old(panels).strip {
            None => !r.strip && final(panels).strip is None,
            Some(o) => final(panels).strip matches Some(n) && strip_ticked(o, n, now_ms, time, mem_pct, cores, r.strip),
        },
        match old(panels).taskbar {
            None => !r.taskbar && final(panels).taskbar is None,
            Some(o) => final(panels).taskbar matches Some(n) && exists|snap| #[trigger]
                taskbar_snapshot_of(snap, surfaces@.slots, focused) && taskbar_accepted(o, n, snap, r.taskbar),
        },
        match old(panels).workspace {
            None => !r.workspace && final(panels).workspace is None,
            Some(o) => if o.visible || o.needs_first_render {
                final(panels).workspace matches Some(n) && exists|snap| #[trigger]
                    workspace_snapshot_of(snap, o.visible, now_ms, space_names(spaces)) && workspace_accepted(o, n, snap, r.workspace)
            } else {
                !r.workspace && final(panels).workspace == old(panels).workspace
            },
        },
{
    let strip = match &mut panels.strip {
        Some(st) => st.update_for_tick(now_ms, time, mem_pct, cores),
        None => false,
    };
    let table = surfaces.slots();
    let bar = match &mut panels.taskbar {
        Some(tb) => {
            let snap = build_snapshot(&table, focused);
            tb.accept_snapshot(snap)
        },
        None => false,
    };
    let home = match &mut panels.workspace {
        Some(ws) => {
            if workspace_needs_snapshot(ws) {
                let snap = build_workspace_snapshot(ws.visible, now_ms, spaces);
                workspace_accept_snapshot(ws, snap)
            } else {
                false
            }
        },
        None => false,
    };
    TickRedraws { strip, taskbar: bar, workspace: home }
}

/// `status-strip`.
pub open spec fn strip_title() -> Seq<u8> {
    seq![115u8, 116, 97, 116, 117, 115, 45, 115, 116, 114, 105, 112]
}

/// `taskbar`.
pub open spec fn taskbar_title() -> Seq<u8> {
    seq![116u8, 97, 115, 107, 98, 97, 114]
}

/// `workspace`.
pub open spec fn workspace_title() -> Seq<u8> {
    seq![119u8, 111, 114, 107, 115, 112, 97, 99, 101]
}

/// Registering a shell surface titled `text` took the table from `t` to
/// `t2` with result `r`.
pub open spec fn named_panel_registered(
    t: SurfaceTableView,
    t2: SurfaceTableView,
    regions: &SharedRegionTable,
    channel: Option<ChannelId>,
    shmem: SharedMemoryId,
    width: u32,
    height: u32,
    text: Seq<u8>,
    layer: SurfaceLayer,
    x: i32,
    y: i32,
    r: Result<SurfaceId, ShellError>,
) -> bool {
    exists|title: SurfaceTitle|
        title.wf() && #[trigger] title@ == text && panel_registered(t, t2, regions, channel, shmem, width, height, title, layer, x, y, r)
}

/// The surfaces the shell brought up.
#[derive(Debug, Clone, Copy, PartialEq, Eq, Structural)]
pub struct ShellSurfaceIds {
    pub strip: SurfaceId,
    pub taskbar: SurfaceId,
    /// `None` when the workspace panel could not be set up (not fatal).
    pub workspace: Option<SurfaceId>,
}

/// The intermediate tables and results of a shell bring-up (`steps`: the
/// table after the strip, the strip's result, the table after the taskbar,
/// the taskbar's result, the workspace's result) lead from `t` to `t3` with
/// result `r`: the strip across the top, then the taskbar along the bottom
/// edge, each failure fatal; then, where the display has room for it and
/// its region was made, the workspace panel, whose failure only leaves it
/// out.
pub open spec fn shell_brought_up(
    t: SurfaceTableView,
    t3: SurfaceTableView,
    regions: &SharedRegionTable,
    channel: Option<ChannelId>,
    display_width: u32,
    display_height: u32,
    strip_shmem: SharedMemoryId,
    taskbar_shmem: SharedMemoryId,
    workspace_shmem: Option<SharedMemoryId>,
    steps: (SurfaceTableView, Result<SurfaceId, ShellError>, SurfaceTableView, Result<SurfaceId, ShellError>, Result<SurfaceId, ShellError>),
    r: Result<ShellSurfaceIds, ShellError>,
) -> bool {
    let (t1, r1, t2, r2, r3) = steps;
    &&& named_panel_registered(
        t,
        t1,
        regions,
        channel,
        strip_shmem,
        display_width,
        status_strip::STRIP_HEIGHT,
        strip_title(),
        SurfaceLayer::Panel,
        0,
        0,
        r1,
    )
    &&& r1 matches Err(e) ==> r == Err::<ShellSurfaceIds, ShellError>(e) && t3 == t1
    &&& r1 matches Ok(s) ==> {
        &&& named_panel_registered(
            t1,
            t2,
            regions,
            channel,
            taskbar_shmem,
            display_width,
            taskbar::TASKBAR_HEIGHT,
            taskbar_title(),
            SurfaceLayer::Panel,
            0,
            (display_height - taskbar::TASKBAR_HEIGHT) as i32,
            r2,
        )
        &&& r2 matches Err(e) ==> r == Err::<ShellSurfaceIds, ShellError>(e) && t3 == t2
        &&& r2 matches Ok(b) ==> match (workspace::panel_geometry(display_width, display_height), workspace_shmem) {
            (Some(g), Some(m)) => named_panel_registered(
                t2,
                t3,
                regions,
                channel,
                m,
                g.width,
                g.height,
                workspace_title(),
                SurfaceLayer::Normal,
                g.x,
                g.y,
                r3,
            ) && r == Ok::<ShellSurfaceIds, ShellError>(
                ShellSurfaceIds {
                    strip: s,
                    taskbar: b,
                    workspace: match r3 {
                        Ok(w) => Some(w),
                        Err(_) => None,
                    },
                },
            ),
            _ => t3 == t2 && r == Ok::<ShellSurfaceIds, ShellError>(ShellSurfaceIds { strip: s, taskbar: b, workspace: None }),
        }
    }
}

proof fn lemma_register_advances(
    t: SurfaceTableView,
    t2: SurfaceTableView,
    regions: &SharedRegionTable,
    channel: Option<ChannelId>,
    shmem: SharedMemoryId,
    width: u32,
    height: u32,
    title: SurfaceTitle,
    layer: SurfaceLayer,
    x: i32,
    y: i32,
    r: Result<SurfaceId, ShellError>,
)
    requires
        panel_registered(t, t2, regions, channel, shmem, width, height, title, layer, x, y, r),
    ensures
        t2.next_surface_id <= t.next_surface_id + 1,
{
}

/// Bring up the shell on a `display_width x display_height` display, each
/// surface backed by the compositor's shared-memory region made for it
/// (see `shell_plan` for their sizes): `NoDisplay` when either side is zero;
/// otherwise the status strip (top edge) and the taskbar (bottom edge),
/// either failure ending the bring-up, then the workspace panel, centred
/// between them, where there is room and a region, its failure only leaving
/// it out (see `shell_brought_up`).
pub fn init_shell_surfaces(
    surfaces: &mut SurfaceTable,
    regions: &SharedRegionTable,
    channel: Option<ChannelId>,
    display_width: u32,
    display_height: u32,
    strip_shmem: SharedMemoryId,
    taskbar_shmem: SharedMemoryId,
    workspace_shmem: Option<SharedMemoryId>,
) -> (r: Result<ShellSurfaceIds, ShellError>)
    requires
        old(surfaces).wf(),
        regions.wf(),
        (strip_shmem.0 as int) < MAX_SHARED_REGIONS,
        (taskbar_shmem.0 as int) < MAX_SHARED_REGIONS,
        workspace_shmem matches Some(m) ==> (m.0 as int) < MAX_SHARED_REGIONS,
        old(surfaces)@.next_surface_id + 3 <= u64::MAX,
        display_width <= i32::MAX,
        display_height <= i32::MAX,
    ensures
        final(surfaces).wf(),
        (display_width == 0 || display_height == 0) ==> r == Err::<ShellSurfaceIds, ShellError>(ShellError::NoDisplay)
            && final(surfaces)@ == old(surfaces)@,
        (display_width != 0 && display_height != 0) ==> exists|steps|
            #[trigger] shell_brought_up(
                old(surfaces)@,
                final(surfaces)@,
                regions,
                channel,
                display_width,
                display_height,
                strip_shmem,
                taskbar_shmem,
                workspace_shmem,
                steps,
                r,
            ),
{
    if display_width == 0 || display_height == 0 {
        return Err(ShellError::NoDisplay);
    }
    let ghost t0 = surfaces@;
    let strip_text: [u8; 12] = [115, 116, 97, 116, 117, 115, 45, 115, 116, 114, 105, 112];
    let strip_name = SurfaceTitle::from_bytes(&strip_text);
    proof {
        assert(strip_text@ =~= strip_title());
        assert(strip_name@ =~= strip_title());
    }
    let r1 = register_shell_panel(
        surfaces,
        regions,
        channel,
        strip_shmem,
        display_width,
        status_strip::STRIP_HEIGHT,
        strip_name,
        SurfaceLayer::Panel,
        0,
        0,
    );
    let ghost t1 = surfaces@;
    proof {
        lemma_register_advances(t0, t1, regions, channel, strip_shmem, display_width, status_strip::STRIP_HEIGHT, strip_name, SurfaceLayer::Panel, 0, 0, r1);
        assert(named_panel_registered(t0, t1, regions, channel, strip_shmem, display_width, status_strip::STRIP_HEIGHT, strip_title(), SurfaceLayer::Panel, 0, 0, r1));
    }
    let s = match r1 {
        Ok(s) => s,
        Err(e) => {
            proof {
                assert(shell_brought_up(t0, t1, regions, channel, display_width, display_height, strip_shmem, taskbar_shmem, workspace_shmem, (t1, r1, t1, r1, r1), Err(e)));
            }
            return Err(e);
        },
    };
    let bar_text: [u8; 7] = [116, 97, 115, 107, 98, 97, 114];
    let bar_name = SurfaceTitle::from_bytes(&bar_text);
    proof {
        assert(bar_text@ =~= taskbar_title());
        assert(bar_name@ =~= taskbar_title());
    }
    let bar_y: i32 = (display_height as i32) - (taskbar::TASKBAR_HEIGHT as i32);
    let r2 = register_shell_panel(
        surfaces,
        regions,
        channel,
        taskbar_shmem,
        display_width,
        taskbar::TASKBAR_HEIGHT,
        bar_name,
        SurfaceLayer::Panel,
        0,
        bar_y,
    );
    let ghost t2 = surfaces@;
    proof {
        lemma_register_advances(t1, t2, regions, channel, taskbar_shmem, display_width, taskbar::TASKBAR_HEIGHT, bar_name, SurfaceLayer::Panel, 0, bar_y, r2);
        assert(named_panel_registered(t1, t2, regions, channel, taskbar_shmem, display_width, taskbar::TASKBAR_HEIGHT, taskbar_title(), SurfaceLayer::Panel, 0, bar_y, r2));
    }
    let b = match r2 {
        Ok(b) => b,
        Err(e) => {
            proof {
                assert(shell_brought_up(t0, t2, regions, channel, display_width, display_height, strip_shmem, taskbar_shmem, workspace_shmem, (t1, r1, t2, r2, r2), Err(e)));
            }
            return Err(e);
        },
    };
    let geometry = workspace::workspace_geometry(display_width, display_height);
    match (geometry, workspace_shmem) {
        (Ok(g), Some(m)) => {
            let ws_text: [u8; 9] = [119, 111, 114, 107, 115, 112, 97, 99, 101];
            let ws_name = SurfaceTitle::from_bytes(&ws_text);
            proof {
                assert(ws_text@ =~= workspace_title());
                assert(ws_name@ =~= workspace_title());
            }
            let r3 = register_shell_panel(
                surfaces,
                regions,
                channel,
                m,
                g.width,
                g.height,
                ws_name,
                SurfaceLayer::Normal,
                g.x,
                g.y,
            );
            let ws = match r3 {
                Ok(w) => Some(w),
                Err(_) => None,
            };
            let ids = ShellSurfaceIds { strip: s, taskbar: b, workspace: ws };
            proof {
                let t3 = surfaces@;
                assert(named_panel_registered(t2, t3, regions, channel, m, g.width, g.height, workspace_title(), SurfaceLayer::Normal, g.x, g.y, r3));
                assert(shell_brought_up(t0, t3, regions, channel, display_width, display_height, strip_shmem, taskbar_shmem, workspace_shmem, (t1, r1, t2, r2, r3), Ok(ids)));
            }
            Ok(ids)
        },
        _ => {
            let ids = ShellSurfaceIds { strip: s, taskbar: b, workspace: None };
            proof {
                assert(shell_brought_up(t0, t2, regions, channel, display_width, display_height, strip_shmem, taskbar_shmem, workspace_shmem, (t1, r1, t2, r2, r2), Ok(ids)));
            }
            Ok(ids)
        },
    }
}

} // verus!
