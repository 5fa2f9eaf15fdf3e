use aios_kernel::cap::{grant_to_process, Capability, KernelCapabilitySystem};
use aios_kernel::compositor::shell::{register_shell_panel, shell_tick, ShellPanels, TickRedraws};
use aios_kernel::ipc::shmem::{shared_memory_create, shared_memory_prepare, SharedRegionTable, VmFlags, VM_READ, VM_WRITE};
use aios_kernel::compositor::focus::FocusManager;
use aios_kernel::compositor::input_route::{
    coalesce_events, delivery_for, focus_notifications, promote_to_focus, run_through_stages, FilterResult, HotkeyFilter,
    InputFilter, PointerCoalescer, RouteTarget,
};
use aios_kernel::compositor::hotkey::{apply, match_hotkey, system_hotkeys, HotkeyAction, HotkeyEffect};
use aios_kernel::compositor::text::draw_text_clipped;
use aios_kernel::compositor::focus::FocusChange;
use aios_kernel::compositor::render::DEFAULT_CLEAR_COLOR;
use aios_kernel::compositor::service::{
    handoff_start, handoff_step, loop_action, should_hand_off, CompositorState, HandoffAction, HandoffEvent, LoopAction,
};
use aios_kernel::drivers::virtio_gpu::{DisplayInfo, GpuError, GpuPixelFormat};
use aios_kernel::gpu::service::{GpuBufferHandle, VirtioGpuRect};
use aios_kernel::ipc::IpcError;
use aios_kernel::compositor::window::{HitZone, ZOrder};
use aios_kernel::compositor::render::{blend_premultiplied, DamageTracker};
use aios_kernel::compositor::shell::status_strip::{
    render_strip, sample_memory_percent_used, strip_due, StatusStripState, STRIP_BG,
};
use aios_kernel::compositor::shell::taskbar::{
    build_snapshot, count_text, lookup_surface_y, render_count, render_entry, render_frame, render_workspace_button,
    EntrySnapshot, TaskbarCell, TaskbarLayout, TaskbarSnapshot, TaskbarState,
    ENTRY_BG_FOCUSED, ENTRY_BG_UNFOCUSED, TASKBAR_BG, TEXT_FG, WORKSPACE_BUTTON_BG,
};
use aios_kernel::compositor::shell::workspace::{
    build_workspace_snapshot, render_frame as render_workspace, workspace_accept_snapshot, workspace_geometry,
    toggle_visibility, WorkspaceSnapshot, WorkspaceState, WORKSPACE_BG,
};
use aios_kernel::compositor::shell::{init_shell_surfaces, route_pointer, shell_plan, ShellError, ShellTarget};
use aios_kernel::compositor::surface::{
    DamageRect, Surface, SurfaceContentType, SurfaceLayer, SurfaceState, SurfaceTable, SurfaceTitle,
};
use aios_kernel::compositor::test_app::{keycode_to_ascii, test_app_step, AppAction, AppEvent, TypedBuffer};
use aios_kernel::compositor::cursor::{position, set_position, CursorState};
use aios_kernel::font::load_font_8x16;
use aios_kernel::ids::{ChannelId, ProcessId, SharedMemoryId, SurfaceId, COMPOSITOR_PID};
use aios_kernel::input::{
    abs_to_display, ButtonState, InputEvent, InputSubsystem, KeyCode, KeyState, Modifiers, MouseButton,
    VirtioInputEvent, ABS_X, ABS_Y, BTN_LEFT, BTN_RIGHT, EV_ABS, EV_KEY, EV_SYN, KEY_LEFTSHIFT, MOD_SHIFT, SYN_REPORT,
};

#[test]
fn opaque_source_replaces_destination() {
    assert_eq!(blend_premultiplied(0xFF11_2233, 0x8044_5566), 0xFF11_2233);
}

#[test]
fn transparent_source_keeps_most_of_destination() {
    assert_eq!(blend_premultiplied(0x0000_0000, 0xFF80_8080), 0xFE7F_7F7F);
    assert_eq!(blend_premultiplied(0x8040_0000, 0xFF00_00FF), 0xFE40_007E);
}

#[test]
fn damage_union_covers_both_rectangles() {
    let mut t = DamageTracker::new();
    t.union(DamageRect { x: 10, y: 10, width: 5, height: 5 });
    assert_eq!(t.bounds, Some(DamageRect { x: 10, y: 10, width: 5, height: 5 }));
    t.union(DamageRect { x: 0, y: 12, width: 4, height: 10 });
    assert_eq!(t.bounds, Some(DamageRect { x: 0, y: 10, width: 15, height: 12 }));
    assert!(!t.full);
    t.mark_full();
    assert!(t.full);
}

#[test]
fn alt_tab_goes_back_to_previous_window() {
    let mut fm = FocusManager::new();
    fm.set_keyboard_focus(Some(SurfaceId(1)));
    fm.set_keyboard_focus(Some(SurfaceId(2)));
    assert_eq!(fm.keyboard_focus(), Some(SurfaceId(2)));
    assert_eq!(fm.alt_tab_target(), Some(SurfaceId(1)));
    assert_eq!(fm.history(), vec![SurfaceId(2), SurfaceId(1)]);
    let change = fm.surface_destroyed(SurfaceId(2));
    assert_eq!(change.lost, Some(SurfaceId(2)));
    assert_eq!(fm.keyboard_focus(), None);
    assert_eq!(fm.history(), vec![SurfaceId(1)]);
}

#[test]
fn motion_events_coalesce_to_the_last_position() {
    let motion = |x| InputEvent::Pointer { x, y: 5, button: None, state: None };
    let click = InputEvent::Pointer { x: 9, y: 9, button: Some(MouseButton::Left), state: Some(ButtonState::Pressed) };
    let out = coalesce_events(&vec![motion(1), motion(2), click, motion(3), motion(4)]);
    assert_eq!(out, vec![motion(2), click, motion(4)]);
}

#[test]
fn input_keys_carry_modifiers_and_pointer_reports_at_sync() {
    let mut s = InputSubsystem::new(1280, 800);
    s.process_raw_event(VirtioInputEvent { event_type: EV_KEY, code: KEY_LEFTSHIFT, value: 1 });
    s.process_raw_event(VirtioInputEvent { event_type: EV_KEY, code: 30, value: 1 });
    s.process_raw_event(VirtioInputEvent { event_type: EV_KEY, code: KEY_LEFTSHIFT, value: 0 });
    s.process_raw_event(VirtioInputEvent { event_type: EV_ABS, code: ABS_X, value: 16383 });
    s.process_raw_event(VirtioInputEvent { event_type: EV_KEY, code: BTN_LEFT, value: 1 });
    s.process_raw_event(VirtioInputEvent { event_type: EV_SYN, code: SYN_REPORT, value: 0 });
    assert_eq!(
        s.pop_event(),
        Some(InputEvent::Keyboard { key: KeyCode(KEY_LEFTSHIFT), state: KeyState::Pressed, modifiers: Modifiers(MOD_SHIFT) })
    );
    assert_eq!(
        s.pop_event(),
        Some(InputEvent::Keyboard { key: KeyCode(30), state: KeyState::Pressed, modifiers: Modifiers(MOD_SHIFT) })
    );
    assert_eq!(
        s.pop_event(),
        Some(InputEvent::Keyboard { key: KeyCode(KEY_LEFTSHIFT), state: KeyState::Released, modifiers: Modifiers(0) })
    );
    assert_eq!(
        s.pop_event(),
        Some(InputEvent::Pointer { x: 639, y: 0, button: Some(MouseButton::Left), state: Some(ButtonState::Pressed) })
    );
    assert_eq!(s.pop_event(), None);
    // A second report with nothing new queues nothing.
    s.process_raw_event(VirtioInputEvent { event_type: EV_SYN, code: SYN_REPORT, value: 0 });
    assert_eq!(s.pop_event(), None);
}

#[test]
fn abs_axis_scales_to_display() {
    assert_eq!(abs_to_display(0, 32767, 1280), 0);
    assert_eq!(abs_to_display(32767, 32767, 1280), 1279);
    assert_eq!(abs_to_display(40000, 32767, 1280), 1279);
    assert_eq!(abs_to_display(5, 32767, 0), 0);
}

#[test]
fn typed_keys_become_ascii() {
    assert_eq!(keycode_to_ascii(KeyCode(30)), Some(b'a'));
    assert_eq!(keycode_to_ascii(KeyCode(11)), Some(b'0'));
    assert_eq!(keycode_to_ascii(KeyCode(57)), Some(b' '));
    assert_eq!(keycode_to_ascii(KeyCode(1)), None);
    let mut t = TypedBuffer::new();
    assert!(t.push(b'h'));
    assert!(t.push(b'i'));
    assert_eq!(t.as_slice(), b"hi");
    assert_eq!(t.len(), 2);
}

#[test]
fn cursor_moves() {
    let mut c = CursorState::new();
    assert_eq!(position(&c), (400, 300));
    set_position(&mut c, -3, 7);
    assert_eq!(position(&c), (-3, 7));
}

#[test]
fn workspace_panel_geometry() {
    let g = workspace_geometry(1280, 800).unwrap();
    assert_eq!((g.width, g.height, g.x, g.y), (800, 600, 240, 96));
    let g = workspace_geometry(640, 300).unwrap();
    assert_eq!((g.width, g.height, g.x, g.y), (640, 228, 0, 32));
    assert_eq!(workspace_geometry(0, 800).err(), Some(ShellError::NoDisplay));
    assert_eq!(workspace_geometry(1280, 72).err(), Some(ShellError::NoDisplay));
}

#[test]
fn shell_surface_plan() {
    assert_eq!(shell_plan(1280, 0).err(), Some(ShellError::NoDisplay));
    assert_eq!(shell_plan(0, 800).err(), Some(ShellError::NoDisplay));
    let p = shell_plan(1280, 800).unwrap();
    assert_eq!(p.strip_bytes, 1280 * 32 * 4);
    assert_eq!(p.taskbar_bytes, 1280 * 40 * 4);
    let g = p.workspace.unwrap();
    assert_eq!((g.width, g.height, g.x, g.y), (800, 600, 240, 96));
    // Too short for the workspace panel: strip and taskbar only.
    let p = shell_plan(1, 1).unwrap();
    assert_eq!(p.strip_bytes, 32 * 4);
    assert!(p.workspace.is_none());
}

#[test]
fn shell_bring_up_registers_the_three_panels() {
    let mut caps = KernelCapabilitySystem::new();
    caps.add_process(ProcessId(COMPOSITOR_PID));
    grant_to_process(&mut caps, ProcessId(COMPOSITOR_PID), Capability::SharedMemoryCreate, false, 0).unwrap();
    let mut regions = SharedRegionTable::new();
    let rw = VmFlags(VM_READ | VM_WRITE);
    let plan = shell_plan(1280, 800).unwrap();
    let g = plan.workspace.unwrap();
    let mut region = |bytes: u64, base: u64| {
        let p = shared_memory_prepare(&caps, ProcessId(COMPOSITOR_PID), bytes as usize, rw, 0).unwrap();
        shared_memory_create(&mut regions, &mut caps, ProcessId(COMPOSITOR_PID), p, rw, Some(base), 0).unwrap()
    };
    let strip = region(plan.strip_bytes, 0x4000_0000);
    let bar = region(plan.taskbar_bytes, 0x4100_0000);
    let home = region((g.width as u64) * (g.height as u64) * 4, 0x4200_0000);

    let mut table = SurfaceTable::new();
    assert_eq!(
        init_shell_surfaces(&mut table, &regions, Some(ChannelId(1)), 0, 800, strip, bar, Some(home)),
        Err(ShellError::NoDisplay)
    );
    // Without the compositor channel the strip cannot be created.
    assert_eq!(
        init_shell_surfaces(&mut table, &regions, None, 1280, 800, strip, bar, Some(home)),
        Err(ShellError::SurfaceCreate)
    );
    let ids = init_shell_surfaces(&mut table, &regions, Some(ChannelId(1)), 1280, 800, strip, bar, Some(home)).unwrap();
    let s = table.get(ids.strip).unwrap();
    assert_eq!((s.x, s.y, s.width, s.height, s.layer), (0, 0, 1280, 32, SurfaceLayer::Panel));
    assert_eq!(s.title.as_bytes(), b"status-strip");
    let t = table.get(ids.taskbar).unwrap();
    assert_eq!((t.x, t.y, t.width, t.height), (0, 760, 1280, 40));
    assert_eq!(t.state, SurfaceState::Active);
    let w = table.get(ids.workspace.unwrap()).unwrap();
    assert_eq!((w.x, w.y, w.width, w.height, w.layer), (240, 96, 800, 600, SurfaceLayer::Normal));
    assert_eq!(w.title.as_bytes(), b"workspace");
    // A workspace region too small only leaves the workspace out.
    let mut table = SurfaceTable::new();
    let ids = init_shell_surfaces(&mut table, &regions, Some(ChannelId(1)), 1280, 800, strip, bar, Some(strip)).unwrap();
    assert!(ids.workspace.is_none());
}

#[test]
fn workspace_snapshot_and_redraw_decisions() {
    let spaces = vec![b"home".to_vec(), vec![b'x'; 40]];
    let snap = build_workspace_snapshot(true, 5_500, Some(&spaces));
    assert_eq!(snap.uptime_seconds, 5);
    assert_eq!(snap.space_count, 2);
    assert_eq!(snap.spaces[0].name_len, 4);
    assert_eq!(&snap.spaces[0].name[..4], b"home");
    assert_eq!(snap.spaces[1].name_len, 32);
    assert!(!snap.spaces_unavailable);
    let none = build_workspace_snapshot(false, 0, None);
    assert!(none.spaces_unavailable);
    let empty: Vec<Vec<u8>> = Vec::new();
    assert!(build_workspace_snapshot(false, 0, Some(&empty)).spaces_unavailable);

    let mut ws = WorkspaceState {
        surface_id: SurfaceId(7),
        cached_snapshot: WorkspaceSnapshot::empty(),
        needs_first_render: true,
        visible: true,
    };
    assert!(workspace_accept_snapshot(&mut ws, snap));
    let again = build_workspace_snapshot(true, 5_900, Some(&spaces));
    assert!(!workspace_accept_snapshot(&mut ws, again));
    let later = build_workspace_snapshot(true, 6_000, Some(&spaces));
    assert!(workspace_accept_snapshot(&mut ws, later));

    let mut table = SurfaceTable::new();
    let panel = table
        .surface_create(
            ProcessId(COMPOSITOR_PID),
            ChannelId(0),
            200,
            150,
            SurfaceTitle::from_bytes(b"workspace"),
            SurfaceContentType::Generic,
            SurfaceLayer::Normal,
        )
        .unwrap();
    assert!(table.get(panel).unwrap().visible);
    ws.surface_id = panel;
    let mut opt = Some(ws);
    assert_eq!(toggle_visibility(&mut opt, &mut table), Some((panel, false)));
    assert!(!opt.as_ref().unwrap().visible);
    assert!(!table.get(panel).unwrap().visible);
    assert!(table.get(panel).unwrap().damaged);
    assert_eq!(toggle_visibility(&mut opt, &mut table), Some((panel, true)));
    assert!(opt.as_ref().unwrap().visible);
    assert!(table.get(panel).unwrap().visible);
    let mut nothing: Option<WorkspaceState> = None;
    assert_eq!(toggle_visibility(&mut nothing, &mut table), None);
    assert!(table.get(panel).unwrap().visible);
}

#[test]
fn show_workspace_hotkey_toggles_the_panel() {
    let mut table = SurfaceTable::new();
    let panel = table
        .surface_create(
            ProcessId(COMPOSITOR_PID),
            ChannelId(0),
            200,
            150,
            SurfaceTitle::from_bytes(b"workspace"),
            SurfaceContentType::Generic,
            SurfaceLayer::Normal,
        )
        .unwrap();
    let mut opt = Some(WorkspaceState {
        surface_id: panel,
        cached_snapshot: WorkspaceSnapshot::empty(),
        needs_first_render: true,
        visible: true,
    });
    let mut focus = FocusManager::new();
    assert_eq!(
        apply(HotkeyAction::ShowWorkspace, &mut opt, &mut table, &mut focus),
        HotkeyEffect::Workspace(Some((panel, false)))
    );
    assert!(!table.get(panel).unwrap().visible);
    // Nothing focused: switching and closing have no target.
    assert_eq!(apply(HotkeyAction::SwitchWindow, &mut opt, &mut table, &mut focus), HotkeyEffect::Nothing);
    assert_eq!(apply(HotkeyAction::CloseWindow, &mut opt, &mut table, &mut focus), HotkeyEffect::Nothing);
    assert!(!opt.as_ref().unwrap().visible);
    assert!(!table.get(panel).unwrap().visible);
}

#[test]
fn switch_and_close_window_hotkeys_follow_the_focus() {
    let mut table = SurfaceTable::new();
    let mut opt: Option<WorkspaceState> = None;
    let mut focus = FocusManager::new();
    focus.set_keyboard_focus(Some(SurfaceId(3)));
    focus.set_keyboard_focus(Some(SurfaceId(4)));
    assert_eq!(
        apply(HotkeyAction::SwitchWindow, &mut opt, &mut table, &mut focus),
        HotkeyEffect::FocusMoved(FocusChange { lost: Some(SurfaceId(4)), gained: Some(SurfaceId(3)) })
    );
    assert_eq!(focus.keyboard_focus(), Some(SurfaceId(3)));
    assert_eq!(
        apply(HotkeyAction::CloseWindow, &mut opt, &mut table, &mut focus),
        HotkeyEffect::CloseRequested(SurfaceId(3))
    );
    assert_eq!(focus.keyboard_focus(), Some(SurfaceId(3)));
}

#[test]
fn non_ascii_title_bytes_draw_as_question_marks() {
    let mut font = None;
    let mut a = vec![0u32; 64 * 16];
    let mut b = vec![0u32; 64 * 16];
    draw_text_clipped(&mut font, &mut a, 64, 16, 0, 0, 64, &[b'a', 0xC3, 0xA9, b'z'], 7, 1);
    draw_text_clipped(&mut font, &mut b, 64, 16, 0, 0, 64, b"a??z", 7, 1);
    assert_eq!(a, b);
    assert!(a.iter().any(|p| *p != 0));
}

#[test]
fn toggle_leaves_a_surface_the_compositor_does_not_own() {
    let mut table = SurfaceTable::new();
    let other = table
        .surface_create(
            ProcessId(3),
            ChannelId(0),
            200,
            150,
            SurfaceTitle::from_bytes(b"app"),
            SurfaceContentType::Generic,
            SurfaceLayer::Normal,
        )
        .unwrap();
    let mut opt = Some(WorkspaceState {
        surface_id: other,
        cached_snapshot: WorkspaceSnapshot::empty(),
        needs_first_render: false,
        visible: true,
    });
    assert_eq!(toggle_visibility(&mut opt, &mut table), Some((other, false)));
    assert!(table.get(other).unwrap().visible);
    assert!(table.get(other).unwrap().damaged);
}

#[test]
fn workspace_frame_paints_background() {
    let snap = WorkspaceSnapshot::empty();
    let mut buf = vec![0u32; 200 * 150];
    let mut font = None;
    render_workspace(&mut font, &mut buf, 200, 150, &snap, b"00:00:05");
    assert_eq!(buf[0], WORKSPACE_BG);
    assert_eq!(buf[200 * 150 - 1], WORKSPACE_BG);
    // A buffer smaller than the panel is left alone.
    let mut small = vec![1u32; 10];
    render_workspace(&mut font, &mut small, 200, 150, &snap, b"00:00:05");
    assert_eq!(small, vec![1u32; 10]);
}

#[test]
fn status_strip_redraws_at_most_once_a_second_and_only_on_change() {
    let mut st = StatusStripState::new(SurfaceId(5), SharedMemoryId(1), 640);
    assert!(st.update_for_tick(500, *b"00:00", 10, 4));
    assert!(!st.update_for_tick(1000, *b"00:01", 10, 4));
    assert!(!st.update_for_tick(1600, *b"00:00", 10, 4));
    assert_eq!(st.last_render_tick, 1600);
    assert!(st.update_for_tick(2700, *b"00:00", 11, 4));
    assert_eq!(st.cached_mem_pct, 11);
    assert!(strip_due(1000, 0));
    assert!(!strip_due(1500, 1000));
    assert!(strip_due(2000, 1000));
}

#[test]
fn memory_percent_is_capped() {
    assert_eq!(sample_memory_percent_used(1000, 250), 75);
    assert_eq!(sample_memory_percent_used(0, 0), 0);
    assert_eq!(sample_memory_percent_used(100, 0), 99);
    assert_eq!(sample_memory_percent_used(10, 20), 0);
}

#[test]
fn status_strip_frame_fills_background() {
    let mut buf = vec![0u32; 100 * 32 + 5];
    let mut font = None;
    render_strip(&mut font, &mut buf, 100, 32, b"12:34", b"07", b"4   ");
    assert_eq!(buf[0], STRIP_BG);
    assert_eq!(buf[100 * 32 - 1], STRIP_BG);
    // Past the strip nothing is touched.
    assert_eq!(buf[100 * 32], 0);
}

fn client(id: u64, active: bool, owner: u32, title: &[u8]) -> Option<Surface> {
    Some(Surface {
        id: SurfaceId(id),
        state: if active { SurfaceState::Active } else { SurfaceState::Created },
        layer: SurfaceLayer::Normal,
        title: SurfaceTitle::from_bytes(title),
        content_type: SurfaceContentType::Generic,
        x: 0,
        y: 30,
        width: 10,
        height: 10,
        shmem_id: None,
        owner_pid: ProcessId(owner),
        channel: ChannelId(1),
        layer_seq: id,
        damaged: false,
        visible: true,
    })
}

#[test]
fn taskbar_lists_active_client_surfaces() {
    let table = vec![
        client(1, true, 2, b"editor"),
        None,
        client(2, false, 2, b"created"),
        client(3, true, COMPOSITOR_PID, b"taskbar"),
        client(4, true, 3, b"a very long window title that gets cut"),
    ];
    let snap = build_snapshot(&table, SurfaceId(4));
    assert_eq!(snap.total_count, 2);
    assert_eq!(snap.entries.len(), 2);
    assert_eq!(snap.entries[0].surface_id, SurfaceId(1));
    assert_eq!(snap.entries[0].title_bytes(), b"editor");
    assert_eq!(snap.entries[1].surface_id, SurfaceId(4));
    assert_eq!(snap.entries[1].title_bytes(), b"a very long window title");
    let e = EntrySnapshot::from_title(SurfaceId(9), &SurfaceTitle::from_bytes(b"ok"));
    assert_eq!(e.title_len, 2);

    let mut state = TaskbarState {
        surface_id: SurfaceId(11),
        width: 400,
        height: 40,
        cached_snapshot: TaskbarSnapshot::empty(),
        needs_first_render: true,
    };
    assert!(state.accept_snapshot(snap));
    assert!(!state.accept_snapshot(build_snapshot(&table, SurfaceId(4))));
    assert!(state.accept_snapshot(build_snapshot(&table, SurfaceId(1))));
}

#[test]
fn taskbar_count_text() {
    assert_eq!(&count_text(3), b"3 windows");
    assert_eq!(&count_text(0), b"0 windows");
    assert_eq!(&count_text(12), b"9 windows");
}

#[test]
fn taskbar_frame_paints_cells() {
    let table = vec![client(1, true, 2, b"one"), client(2, true, 2, b"two")];
    let snap = build_snapshot(&table, SurfaceId(1));
    let cell = TaskbarCell { x: 0, width: 0 };
    let mut entries = [cell; 8];
    entries[0] = TaskbarCell { x: 48, width: 100 };
    entries[1] = TaskbarCell { x: 148, width: 100 };
    let layout = TaskbarLayout {
        workspace_button: TaskbarCell { x: 0, width: 48 },
        entries,
        visible_entries: 2,
        count_cell: TaskbarCell { x: 300, width: 100 },
    };
    let mut buf = vec![0u32; 400 * 40];
    let mut font = None;
    render_frame(&mut font, &mut buf, 400, 40, &layout, &snap);
    assert_eq!(buf[400 + 1], WORKSPACE_BUTTON_BG);
    assert_eq!(buf[400 + 50], ENTRY_BG_FOCUSED);
    assert_eq!(buf[400 + 150], ENTRY_BG_UNFOCUSED);
    assert_eq!(buf[400 + 260], TASKBAR_BG);
    assert_eq!(buf[400 + 301], TASKBAR_BG);
}

#[test]
fn shell_pointer_routing() {
    let tb = Some(SurfaceId(1));
    let ws = Some(SurfaceId(2));
    let st = Some(SurfaceId(3));
    assert_eq!(route_pointer(SurfaceId(1), tb, ws, st), ShellTarget::Taskbar);
    assert_eq!(route_pointer(SurfaceId(2), tb, ws, st), ShellTarget::Workspace);
    assert_eq!(route_pointer(SurfaceId(3), tb, ws, st), ShellTarget::StatusStrip);
    assert_eq!(route_pointer(SurfaceId(4), tb, ws, st), ShellTarget::Unknown);
    assert_eq!(route_pointer(SurfaceId(1), None, ws, st), ShellTarget::Unknown);
}

fn key(code: u16, state: KeyState) -> InputEvent {
    InputEvent::Keyboard { key: KeyCode(code), state, modifiers: Modifiers(0) }
}

fn click(x: u32, y: u32) -> InputEvent {
    InputEvent::Pointer { x, y, button: Some(MouseButton::Left), state: Some(ButtonState::Pressed) }
}

#[test]
fn pipeline_routes_keys_to_focus_and_pointer_to_hit() {
    let mut hotkeys = HotkeyFilter::new();
    let mut focus = FocusManager::new();
    // No keyboard focus yet: keys are dropped.
    assert_eq!(run_through_stages(&key(30, KeyState::Pressed), &mut hotkeys, &mut focus, None), RouteTarget::Dropped);
    focus.set_keyboard_focus(Some(SurfaceId(4)));
    assert_eq!(
        run_through_stages(&key(30, KeyState::Pressed), &mut hotkeys, &mut focus, None),
        RouteTarget::Surface(SurfaceId(4))
    );
    // Pointer on content: to the surface hit, which takes the pointer focus.
    let hit = Some((SurfaceId(7), HitZone::Content));
    assert_eq!(run_through_stages(&click(5, 5), &mut hotkeys, &mut focus, hit), RouteTarget::Surface(SurfaceId(7)));
    assert_eq!(focus.pointer_focus(), Some(SurfaceId(7)));
    assert_eq!(focus.keyboard_focus(), Some(SurfaceId(4)));
    // Pointer on the title bar: the compositor handles the decoration.
    let hit = Some((SurfaceId(7), HitZone::TitleBar));
    assert_eq!(
        run_through_stages(&click(5, 5), &mut hotkeys, &mut focus, hit),
        RouteTarget::Decoration { surface: SurfaceId(7), zone: HitZone::TitleBar }
    );
    // Pointer over nothing: dropped, pointer focus cleared.
    assert_eq!(run_through_stages(&click(5, 5), &mut hotkeys, &mut focus, None), RouteTarget::Dropped);
    assert_eq!(focus.pointer_focus(), None);
}

#[test]
fn left_press_delivery_promotes_and_notifies() {
    let mut a = client(1, true, 2, b"a");
    if let Some(s) = a.as_mut() {
        s.channel = ChannelId(11);
    }
    let mut b = client(2, true, 2, b"b");
    if let Some(s) = b.as_mut() {
        s.channel = ChannelId(12);
    }
    let table = vec![a, None, b];
    assert_eq!(delivery_for(&table, SurfaceId(2), &click(1, 1)), Some((ChannelId(12), true)));
    let motion = InputEvent::Pointer { x: 1, y: 1, button: None, state: None };
    assert_eq!(delivery_for(&table, SurfaceId(1), &motion), Some((ChannelId(11), false)));
    assert_eq!(delivery_for(&table, SurfaceId(9), &motion), None);

    let mut focus = FocusManager::new();
    let mut z = ZOrder::new();
    assert!(z.push(SurfaceId(2)));
    assert!(z.push(SurfaceId(1)));
    focus.set_keyboard_focus(Some(SurfaceId(1)));
    let change = promote_to_focus(&mut focus, &mut z, SurfaceId(2));
    assert_eq!(change, FocusChange { lost: Some(SurfaceId(1)), gained: Some(SurfaceId(2)) });
    assert_eq!(focus.keyboard_focus(), Some(SurfaceId(2)));
    assert_eq!(z.iter(), vec![SurfaceId(1), SurfaceId(2)]);
    // Promoting the focused surface again changes nothing.
    let again = promote_to_focus(&mut focus, &mut z, SurfaceId(2));
    assert_eq!(again, FocusChange { lost: None, gained: None });

    let notes = focus_notifications(&table, change);
    assert_eq!(notes, vec![(ChannelId(11), SurfaceId(1), false), (ChannelId(12), SurfaceId(2), true)]);
    // A surface with no table entry gets no notice.
    let notes = focus_notifications(&table, FocusChange { lost: Some(SurfaceId(9)), gained: Some(SurfaceId(1)) });
    assert_eq!(notes, vec![(ChannelId(11), SurfaceId(1), true)]);
}

#[test]
fn test_app_types_and_closes() {
    let mut typed = TypedBuffer::new();
    assert_eq!(test_app_step(&mut typed, AppEvent::Input(key(30, KeyState::Pressed))), AppAction::Redraw);
    assert_eq!(test_app_step(&mut typed, AppEvent::Input(key(30, KeyState::Released))), AppAction::Idle);
    // A key with no character (Escape) is ignored.
    assert_eq!(test_app_step(&mut typed, AppEvent::Input(key(1, KeyState::Pressed))), AppAction::Idle);
    assert_eq!(test_app_step(&mut typed, AppEvent::Input(click(3, 3))), AppAction::Idle);
    assert_eq!(test_app_step(&mut typed, AppEvent::Other), AppAction::Idle);
    assert_eq!(typed.as_slice(), b"a");
    for _ in 0..70 {
        test_app_step(&mut typed, AppEvent::Input(key(48, KeyState::Pressed)));
    }
    assert_eq!(typed.len(), 64);
    assert_eq!(test_app_step(&mut typed, AppEvent::Input(key(48, KeyState::Pressed))), AppAction::Idle);
    assert_eq!(test_app_step(&mut typed, AppEvent::CloseRequested), AppAction::Close);
    assert_eq!(typed.len(), 64);
}

fn fb_handle(id: u32) -> GpuBufferHandle {
    GpuBufferHandle {
        resource_id: id,
        width: 1280,
        height: 800,
        format: GpuPixelFormat::B8G8R8A8,
        stride: 5120,
        fb_phys: 0x4000_0000 + 0x40_0000 * id as u64,
        fb_virt: 0,
        page_count: 1000,
        order: 10,
    }
}

fn service_state() -> CompositorState {
    let display = DisplayInfo { width: 1280, height: 800, format: GpuPixelFormat::B8G8R8A8, scanout_id: 0 };
    CompositorState::new(ChannelId(3), display)
}

#[test]
fn display_handoff_binds_front_and_stores_both() {
    let mut st = service_state();
    assert!(should_hand_off(&st.display));
    let (stage, act) = handoff_start(&st);
    assert_eq!(act, HandoffAction::Allocate { width: 1280, height: 800 });
    let (stage, act) = handoff_step(&mut st, stage, HandoffEvent::Allocated(fb_handle(1)));
    assert_eq!(act, HandoffAction::Allocate { width: 1280, height: 800 });
    let (stage, act) = handoff_step(&mut st, stage.unwrap(), HandoffEvent::Allocated(fb_handle(2)));
    assert_eq!(
        act,
        HandoffAction::FillAndBind {
            front: fb_handle(1),
            color: DEFAULT_CLEAR_COLOR,
            scanout: 0,
            rect: VirtioGpuRect { x: 0, y: 0, width: 1280, height: 800 },
        }
    );
    assert!(st.front_buffer.is_none());
    let (stage, act) = handoff_step(&mut st, stage.unwrap(), HandoffEvent::Bound);
    assert!(stage.is_none());
    assert_eq!(act, HandoffAction::Publish);
    assert_eq!(st.front_buffer, Some(fb_handle(1)));
    assert_eq!(st.back_buffer, Some(fb_handle(2)));
}

#[test]
fn failed_handoff_releases_what_it_holds() {
    let mut st = service_state();
    let (s0, _) = handoff_start(&st);
    let (r, act) = handoff_step(&mut st, s0, HandoffEvent::Failed(GpuError::OutOfMemory));
    assert!(r.is_none());
    assert_eq!(act, HandoffAction::Release { buffers: vec![], error: GpuError::OutOfMemory });
    let (s1, _) = handoff_step(&mut st, s0, HandoffEvent::Allocated(fb_handle(1)));
    let (_, act) = handoff_step(&mut st, s1.unwrap(), HandoffEvent::Failed(GpuError::OutOfMemory));
    assert_eq!(act, HandoffAction::Release { buffers: vec![fb_handle(1)], error: GpuError::OutOfMemory });
    let (s2, _) = handoff_step(&mut st, s1.unwrap(), HandoffEvent::Allocated(fb_handle(2)));
    let (_, act) = handoff_step(&mut st, s2.unwrap(), HandoffEvent::Failed(GpuError::CommandFailed));
    assert_eq!(
        act,
        HandoffAction::Release { buffers: vec![fb_handle(1), fb_handle(2)], error: GpuError::CommandFailed }
    );
    assert_eq!(st, service_state());
    let headless = DisplayInfo { width: 0, height: 800, format: GpuPixelFormat::B8G8R8A8, scanout_id: 0 };
    assert!(!should_hand_off(&headless));
}

#[test]
fn service_loop_reactions() {
    assert_eq!(loop_action(Ok(12)), LoopAction::Acknowledge);
    assert_eq!(loop_action(Err(IpcError::Epipe)), LoopAction::Exit);
    assert_eq!(loop_action(Err(IpcError::Etimedout)), LoopAction::Continue);
    assert_eq!(loop_action(Err(IpcError::Eperm)), LoopAction::LogAndContinue);
}

#[test]
fn input_handlers_one_by_one() {
    let mut s = InputSubsystem::new(100, 50);
    // Key repeat (value 2) is queued as a repeat; an unknown value queues nothing.
    s.process_key_event(48, 2);
    s.process_key_event(48, 7);
    assert_eq!(
        s.pop_event(),
        Some(InputEvent::Keyboard { key: KeyCode(48), state: KeyState::Repeat, modifiers: Modifiers(0) })
    );
    assert_eq!(s.pop_event(), None);
    // Buttons and axes only update the pending pointer until it is flushed.
    s.process_button_event(BTN_RIGHT, 1);
    s.process_abs_event(ABS_Y, 32767);
    assert_eq!(s.pop_event(), None);
    s.flush_pending_pointer();
    assert_eq!(
        s.pop_event(),
        Some(InputEvent::Pointer { x: 0, y: 49, button: Some(MouseButton::Right), state: Some(ButtonState::Pressed) })
    );
    // Nothing pending: flushing again queues nothing.
    s.flush_pending_pointer();
    assert_eq!(s.pop_event(), None);
    // Modifier bookkeeping alone.
    s.update_modifiers(KEY_LEFTSHIFT, 1);
    assert_eq!(s.modifiers, MOD_SHIFT);
    s.update_modifiers(KEY_LEFTSHIFT, 0);
    assert_eq!(s.modifiers, 0);
    assert_eq!(KeyState::from_value(0), Some(KeyState::Released));
    assert_eq!(KeyState::from_value(3), None);
    // The poll flag is taken once.
    s.set_poll_due();
    assert!(s.take_poll_due());
    assert!(!s.take_poll_due());
}

#[test]
fn taskbar_cells_with_text() {
    let mut font = load_font_8x16();
    assert!(font.is_some());
    let title = SurfaceTitle::from_bytes(b"editor");
    let entry = EntrySnapshot::from_title(SurfaceId(5), &title);
    assert_eq!(entry.title_bytes(), b"editor");
    let mut buf = vec![0u32; 400 * 40];
    render_entry(&mut font, &mut buf, 400, 40, TaskbarCell { x: 100, width: 120 }, &entry, true);
    let cell_px: Vec<u32> = (0..40).flat_map(|y| (100..220).map(move |x| (y, x))).map(|(y, x)| buf[y * 400 + x]).collect();
    assert!(cell_px.iter().all(|p| *p == ENTRY_BG_FOCUSED || *p == TEXT_FG));
    assert!(cell_px.iter().any(|p| *p == TEXT_FG));
    assert_eq!(buf[99], 0);
    render_workspace_button(&mut font, &mut buf, 400, 40, &TaskbarCell { x: 0, width: 48 });
    assert_eq!(buf[0], WORKSPACE_BUTTON_BG);
    render_count(&mut font, &mut buf, 400, 40, &TaskbarCell { x: 300, width: 100 }, 3);
    assert_eq!(buf[301], TASKBAR_BG);
    assert!(buf[300..400].iter().all(|p| *p == TASKBAR_BG));
    let table = vec![None, client(4, true, 2, b"x"), client(4, true, 2, b"y")];
    assert_eq!(lookup_surface_y(&table, SurfaceId(4)), Some(30));
    assert_eq!(lookup_surface_y(&table, SurfaceId(8)), None);
}

#[test]
fn hotkey_stage_passes_unbound_keys() {
    let mut h = HotkeyFilter::new();
    assert_eq!(h.filter(&key(30, KeyState::Pressed)), FilterResult::Pass);
    assert_eq!(h.filter(&click(1, 2)), FilterResult::Pass);
    assert_eq!(match_hotkey(KeyCode(15), Modifiers(MOD_SHIFT), KeyState::Pressed), None);
    assert!(system_hotkeys().is_empty());
    let mut c = PointerCoalescer::new();
    assert_eq!(c.take_pending(), None);
    c.set_pending(3, 4);
    assert_eq!(c.take_pending(), Some(InputEvent::Pointer { x: 3, y: 4, button: None, state: None }));
    assert_eq!(c.take_pending(), None);
}

#[test]
fn shell_panel_registers_an_attached_placed_surface() {
    let mut caps = KernelCapabilitySystem::new();
    caps.add_process(ProcessId(COMPOSITOR_PID));
    grant_to_process(&mut caps, ProcessId(COMPOSITOR_PID), Capability::SharedMemoryCreate, false, 0).unwrap();
    let mut regions = SharedRegionTable::new();
    let rw = VmFlags(VM_READ | VM_WRITE);
    // 800 x 40 pixels need 128000 bytes: 32 pages.
    let plan = shared_memory_prepare(&caps, ProcessId(COMPOSITOR_PID), 800 * 40 * 4, rw, 0).unwrap();
    let big = shared_memory_create(&mut regions, &mut caps, ProcessId(COMPOSITOR_PID), plan, rw, Some(0x4000_0000), 0).unwrap();
    let plan = shared_memory_prepare(&caps, ProcessId(COMPOSITOR_PID), 4096, rw, 0).unwrap();
    let small = shared_memory_create(&mut regions, &mut caps, ProcessId(COMPOSITOR_PID), plan, rw, Some(0x5000_0000), 0).unwrap();

    let mut table = SurfaceTable::new();
    let title = SurfaceTitle::from_bytes(b"taskbar");
    // One page cannot hold the panel.
    assert_eq!(
        register_shell_panel(&mut table, &regions, Some(ChannelId(3)), small, 800, 40, title.clone(), SurfaceLayer::Panel, 0, 560),
        Err(ShellError::ShmemCreate)
    );
    // No compositor channel yet.
    assert_eq!(
        register_shell_panel(&mut table, &regions, None, big, 800, 40, title.clone(), SurfaceLayer::Panel, 0, 560),
        Err(ShellError::SurfaceCreate)
    );
    let id = register_shell_panel(&mut table, &regions, Some(ChannelId(3)), big, 800, 40, title, SurfaceLayer::Panel, 0, 560).unwrap();
    assert_eq!(id, SurfaceId(1));
    let s = table.get(id).unwrap();
    assert_eq!(s.state, SurfaceState::Active);
    assert_eq!(s.shmem_id, Some(big));
    assert_eq!((s.x, s.y, s.width, s.height), (0, 560, 800, 40));
    assert_eq!(s.layer, SurfaceLayer::Panel);
    assert_eq!(s.owner_pid, ProcessId(COMPOSITOR_PID));
    assert_eq!(s.title.as_bytes(), b"taskbar");
}

#[test]
fn shell_tick_redraws_what_changed() {
    let table = SurfaceTable::new();
    let spaces: Vec<Vec<u8>> = vec![b"home".to_vec()];
    let mut panels = ShellPanels {
        strip: Some(StatusStripState::new(SurfaceId(1), SharedMemoryId(1), 640)),
        taskbar: Some(TaskbarState {
            surface_id: SurfaceId(2),
            width: 640,
            height: 40,
            cached_snapshot: TaskbarSnapshot::empty(),
            needs_first_render: true,
        }),
        workspace: Some(WorkspaceState {
            surface_id: SurfaceId(3),
            cached_snapshot: WorkspaceSnapshot::empty(),
            needs_first_render: true,
            visible: true,
        }),
    };
    let all = TickRedraws { strip: true, taskbar: true, workspace: true };
    assert_eq!(shell_tick(&mut panels, 1_000, *b"00:01", 40, 4, &table, SurfaceId(0), Some(&spaces)), all);
    // Half a second later nothing has changed.
    let none = TickRedraws { strip: false, taskbar: false, workspace: false };
    assert_eq!(shell_tick(&mut panels, 1_500, *b"00:01", 40, 4, &table, SurfaceId(0), Some(&spaces)), none);
    // A second on, the uptime moved: the strip's values are the same, the
    // workspace's uptime is not.
    let r = shell_tick(&mut panels, 2_000, *b"00:01", 40, 4, &table, SurfaceId(0), Some(&spaces));
    assert_eq!(r, TickRedraws { strip: false, taskbar: false, workspace: true });
    // A hidden workspace that has drawn its first frame takes no snapshot.
    panels.workspace.as_mut().unwrap().visible = false;
    let r = shell_tick(&mut panels, 9_000, *b"00:09", 40, 4, &table, SurfaceId(0), None);
    assert_eq!(r, TickRedraws { strip: true, taskbar: false, workspace: false });
    let mut empty = ShellPanels { strip: None, taskbar: None, workspace: None };
    assert_eq!(shell_tick(&mut empty, 1_000, *b"00:01", 40, 4, &table, SurfaceId(0), None), none);
}
