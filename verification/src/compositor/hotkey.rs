//! System hotkeys, consumed by the compositor before any surface sees them.
use vstd::prelude::*;

use crate::ids::SurfaceId;
use crate::input::{KeyCode, KeyState, Modifiers};
use crate::compositor::surface::SurfaceTable;
use crate::compositor::focus::{alt_tab_spec, touched, FocusChange, FocusManager};
use crate::compositor::shell::workspace::{toggle_visibility, workspace_toggled, WorkspaceState};

verus! {

/// Actions a system hotkey may trigger.
#[derive(Debug, Clone, Copy, PartialEq, Eq, Structural)]
pub enum HotkeyAction {
    /// Cycle keyboard focus to the next surface in the focus history.
    SwitchWindow,
    /// Ask the focused surface to close.
    CloseWindow,
    /// Toggle the workspace surface.
    ShowWorkspace,
}

/// A key plus modifier combination bound to an action.
#[derive(Debug, Clone, Copy, PartialEq, Eq, Structural)]
pub struct HotkeyBinding {
    pub key: KeyCode,
    pub modifiers: Modifiers,
    pub action: HotkeyAction,
}

/// The system hotkey table. It is fixed (no registration path) and, in
/// this milestone, empty.
pub open spec fn system_hotkeys_spec() -> Seq<HotkeyBinding> {
    Seq::empty()
}

/// The system hotkey table.
pub fn system_hotkeys() -> (r: Vec<HotkeyBinding>)
    ensures
        r@ == system_hotkeys_spec(),
{
    Vec::new()
}

/// The action of the first binding in `table` for `(key, modifiers)`.
pub open spec fn lookup_binding(table: Seq<HotkeyBinding>, key: KeyCode, modifiers: Modifiers) -> Option<HotkeyAction>
    decreases table.len(),
{
    if table.len() == 0 {
        None
    } else if table[0].key == key && table[0].modifiers.0 == modifiers.0 {
        Some(table[0].action)
    } else {
        lookup_binding(table.drop_first(), key, modifiers)
    }
}

/// The hotkey action for a key event: only the initial press triggers,
/// never a release or a repeat.
pub fn match_hotkey(key: KeyCode, modifiers: Modifiers, state: KeyState) -> (r: Option<HotkeyAction>)
    ensures
        r == (if state is Pressed { lookup_binding(system_hotkeys_spec(), key, modifiers) } else { None }),
{
    match state {
        KeyState::Pressed => {},
        _ => return None,
    }
    let table = system_hotkeys();
    let mut i: usize = 0;
    while i < table.len()
        invariant
            i <= table@.len(),
            table@ == system_hotkeys_spec(),
            state is Pressed,
            lookup_binding(table@, key, modifiers) == lookup_binding(table@.subrange(i as int, table@.len() as int), key, modifiers),
        decreases table@.len() - i,
    {
        let b = table[i];
        if b.key == key && b.modifiers.0 == modifiers.0 {
            assert(table@.subrange(i as int, table@.len() as int)[0] == table@[i as int]);
            return Some(b.action);
        }
        proof {
            assert(table@.subrange(i as int, table@.len() as int).drop_first() =~= table@.subrange(i as int + 1, table@.len() as int));
        }
        i = i + 1;
    }
    None
}

/// What carrying out a hotkey did.
#[derive(Debug, Clone, Copy, PartialEq, Eq)]
pub enum HotkeyEffect {
    /// Nothing to do.
    Nothing,
    /// Keyboard focus moved; the surfaces to notify.
    FocusMoved(FocusChange),
    /// The focused surface is asked to close: the compositor sends it
    /// `CloseRequested` over its channel.
    CloseRequested(SurfaceId),
    /// The workspace panel was toggled (see `toggle_visibility`).
    Workspace(Option<(SurfaceId, bool)>),
}

/// Carry out a matched hotkey action: `SwitchWindow` gives keyboard focus
/// to the Alt+Tab target (the most recently used other surface), if any;
/// `CloseWindow` names the focused surface to ask to close, if any;
/// `ShowWorkspace` toggles the workspace panel.
pub fn apply(
    action: HotkeyAction,
    ws: &mut Option<WorkspaceState>,
    surfaces: &mut SurfaceTable,
    focus: &mut FocusManager,
) -> (r: HotkeyEffect)
    requires
        old(surfaces).wf(),
        old(focus).wf(),
    ensures
        final(surfaces).wf(),
        final(focus).wf(),
        !(action is ShowWorkspace) ==> *final(ws) == *old(ws) && final(surfaces)@ == old(surfaces)@,
        !(action is SwitchWindow) ==> final(focus)@ == old(focus)@,
        action is SwitchWindow ==> match alt_tab_spec(old(focus)@.history, old(focus)@.keyboard_focus) {
            None => r == HotkeyEffect::Nothing && final(focus)@ == old(focus)@,
            Some(t) => {
                &&& r == HotkeyEffect::FocusMoved(FocusChange { lost: old(focus)@.keyboard_focus, gained: Some(t) })
                &&& final(focus)@.keyboard_focus == Some(t)
                &&& final(focus)@.pointer_focus == old(focus)@.pointer_focus
                &&& final(focus)@.history == touched(old(focus)@.history, t)
            },
        },
        action is CloseWindow ==> r == match old(focus)@.keyboard_focus {
            Some(id) => HotkeyEffect::CloseRequested(id),
            None => HotkeyEffect::Nothing,
        },
        action is ShowWorkspace ==> (r matches HotkeyEffect::Workspace(x) && workspace_toggled(
            *old(ws),
            *final(ws),
            old(surfaces)@,
            final(surfaces)@,
            x,
        )),
{
    match action {
        HotkeyAction::SwitchWindow => apply_switch_window(focus),
        HotkeyAction::CloseWindow => apply_close_window(focus),
        HotkeyAction::ShowWorkspace => HotkeyEffect::Workspace(apply_show_workspace(ws, surfaces)),
    }
}

fn apply_switch_window(focus: &mut FocusManager) -> (r: HotkeyEffect)
    requires
        old(focus).wf(),
    ensures
        final(focus).wf(),
        match alt_tab_spec(old(focus)@.history, old(focus)@.keyboard_focus) {
            None => r == HotkeyEffect::Nothing && final(focus)@ == old(focus)@,
            Some(t) => {
                &&& r == HotkeyEffect::FocusMoved(FocusChange { lost: old(focus)@.keyboard_focus, gained: Some(t) })
                &&& final(focus)@.keyboard_focus == Some(t)
                &&& final(focus)@.pointer_focus == old(focus)@.pointer_focus
                &&& final(focus)@.history == touched(old(focus)@.history, t)
            },
        },
{
    match focus.alt_tab_target() {
        Some(t) => HotkeyEffect::FocusMoved(focus.set_keyboard_focus(Some(t))),
        None => HotkeyEffect::Nothing,
    }
}

fn apply_close_window(focus: &FocusManager) -> (r: HotkeyEffect)
    ensures
        r == match focus@.keyboard_focus {
            Some(id) => HotkeyEffect::CloseRequested(id),
            None => HotkeyEffect::Nothing,
        },
{
    match focus.keyboard_focus() {
        Some(id) => HotkeyEffect::CloseRequested(id),
        None => HotkeyEffect::Nothing,
    }
}

fn apply_show_workspace(ws: &mut Option<WorkspaceState>, surfaces: &mut SurfaceTable) -> (r: Option<(SurfaceId, bool)>)
    requires
        old(surfaces).wf(),
    ensures
        final(surfaces).wf(),
        workspace_toggled(*old(ws), *final(ws), old(surfaces)@, final(surfaces)@, r),
{
    toggle_visibility(ws, surfaces)
}

} // verus!
