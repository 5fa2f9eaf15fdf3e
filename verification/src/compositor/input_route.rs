//! Compositor input pipeline: pointer coalescing, hotkey filtering and
//! routing to a surface or to the decoration machinery.
use vstd::prelude::*;

use crate::ids::{ChannelId, SurfaceId};
use crate::input::{ButtonState, InputEvent, MouseButton};
use super::focus::{touched, FocusChange, FocusManager, FocusState};
use super::surface::Surface;
use super::window::ZOrder;
use super::hotkey::{lookup_binding, match_hotkey, system_hotkeys_spec};
use super::window::{HitZone, ResizeEdge};

verus! {

/// Outcome of a pipeline stage for one event.
#[derive(Debug, Clone, Copy, PartialEq, Eq, Structural)]
pub enum FilterResult {
    /// Pass the event on unchanged.
    Pass,
    /// The stage consumed the event.
    Consume,
    /// Replace the event.
    Transform(InputEvent),
}

/// Merges successive pointer-motion events: only the latest position of a
/// run of motion is delivered.
pub struct PointerCoalescer {
    pending: Option<(u32, u32)>,
}

impl PointerCoalescer {
    pub closed spec fn pending_spec(&self) -> Option<(u32, u32)> {
        self.pending
    }

    /// No motion pending.
    pub fn new() -> (c: PointerCoalescer)
        ensures
            c.pending_spec() is None,
    {
        PointerCoalescer { pending: None }
    }

    /// Remember the latest motion position.
    pub fn set_pending(&mut self, x: u32, y: u32)
        ensures
            final(self).pending_spec() == Some((x, y)),
    {
        self.pending = Some((x, y));
    }

    /// Take the pending motion, if any, as a motion-only pointer event.
    pub fn take_pending(&mut self) -> (r: Option<InputEvent>)
        ensures
            final(self).pending_spec() is None,
            r == match old(self).pending_spec() {
                Some((x, y)) => Some(InputEvent::Pointer { x, y, button: None, state: None }),
                None => None,
            },
    {
        match self.pending.take() {
            Some((x, y)) => Some(InputEvent::Pointer { x, y, button: None, state: None }),
            None => None,
        }
    }
}

/// Stage that consumes system hotkeys before any surface sees them.
pub struct HotkeyFilter;

/// What the hotkey stage does with `event`.
pub open spec fn hotkey_filter_spec(event: InputEvent) -> FilterResult {
    match event {
        InputEvent::Keyboard { key, state, modifiers } =>
            if state is Pressed && lookup_binding(system_hotkeys_spec(), key, modifiers) is Some {
                FilterResult::Consume
            } else {
                FilterResult::Pass
            },
        InputEvent::Pointer { .. } => FilterResult::Pass,
    }
}

impl HotkeyFilter {
    pub fn new() -> (f: HotkeyFilter) {
        HotkeyFilter
    }

    /// Consume a keyboard event that matches a system hotkey; pass
    /// everything else. The action itself changes the compositor's tables,
    /// which this stage does not hold: the compositor carries it out with
    /// `hotkey::apply`.
    fn handle(&self, event: &InputEvent) -> (r: FilterResult)
        ensures
            r == hotkey_filter_spec(*event),
    {
        match event {
            InputEvent::Keyboard { key, state, modifiers } => {
                match match_hotkey(*key, *modifiers, *state) {
                    Some(_) => FilterResult::Consume,
                    None => FilterResult::Pass,
                }
            },
            InputEvent::Pointer { .. } => FilterResult::Pass,
        }
    }
}

/// A stage of the input pipeline: it passes an event on, consumes it or
/// replaces it.
pub trait InputFilter {
    fn filter(&mut self, event: &InputEvent) -> (r: FilterResult);
}

impl InputFilter for HotkeyFilter {
    fn filter(&mut self, event: &InputEvent) -> (r: FilterResult)
        ensures
            r == hotkey_filter_spec(*event),
    {
        self.handle(event)
    }
}

/// Where a routed event goes.
#[derive(Debug, Clone, Copy, PartialEq, Eq, Structural)]
pub enum RouteTarget {
    /// Deliver to the surface.
    Surface(SurfaceId),
    /// The pointer is on decoration the compositor handles itself.
    Decoration { surface: SurfaceId, zone: HitZone },
    /// Drop the event.
    Dropped,
}

/// Where `event` goes: keyboard events to the keyboard focus; pointer
/// events to the surface hit, or to its decoration when the hit is not on
/// the content area.
pub open spec fn route_spec(
    event: InputEvent,
    keyboard_focus: Option<SurfaceId>,
    pointer_hit: Option<(SurfaceId, HitZone)>,
) -> RouteTarget {
    match event {
        InputEvent::Keyboard { .. } => match keyboard_focus {
            Some(id) => RouteTarget::Surface(id),
            None => RouteTarget::Dropped,
        },
        InputEvent::Pointer { .. } => match pointer_hit {
            Some((id, HitZone::Content)) => RouteTarget::Surface(id),
            Some((id, zone)) => RouteTarget::Decoration { surface: id, zone },
            None => RouteTarget::Dropped,
        },
    }
}

/// Route an event: keyboard events go to the keyboard focus; pointer events
/// go to the surface hit, or to its decoration when the hit is not on the
/// content area.
pub fn route_event(
    event: &InputEvent,
    keyboard_focus: Option<SurfaceId>,
    pointer_hit: Option<(SurfaceId, HitZone)>,
) -> (r: RouteTarget)
    ensures
        r == route_spec(*event, keyboard_focus, pointer_hit),
{
    match event {
        InputEvent::Keyboard { .. } => match keyboard_focus {
            Some(id) => RouteTarget::Surface(id),
            None => RouteTarget::Dropped,
        },
        InputEvent::Pointer { .. } => match pointer_hit {
            Some((id, HitZone::Content)) => RouteTarget::Surface(id),
            Some((id, zone)) => RouteTarget::Decoration { surface: id, zone },
            None => RouteTarget::Dropped,
        },
    }
}

/// True for a pointer event carrying a button transition (click or release).
pub fn is_pointer_transition(event: &InputEvent) -> (r: bool)
    ensures
        r == (*event matches InputEvent::Pointer { button: Some(_), state: Some(_), .. }),
{
    match event {
        InputEvent::Pointer { button: Some(_), state: Some(_), .. } => true,
        _ => false,
    }
}

/// True for the four corner edges.
pub fn edge_is_corner(edge: ResizeEdge) -> (r: bool)
    ensures
        r == (edge is NorthEast || edge is NorthWest || edge is SouthEast || edge is SouthWest),
{
    match edge {
        ResizeEdge::NorthEast | ResizeEdge::NorthWest | ResizeEdge::SouthEast | ResizeEdge::SouthWest => true,
        _ => false,
    }
}

/// Coalescing state: events released so far and the pending motion.
pub open spec fn coalesce_prefix(events: Seq<InputEvent>, k: int) -> (Seq<InputEvent>, Option<(u32, u32)>)
    decreases k,
{
    if k <= 0 {
        (Seq::empty(), None)
    } else {
        let (out, pending) = coalesce_prefix(events, k - 1);
        let e = events[k - 1];
        let flushed = match pending {
            Some((x, y)) => out.push(InputEvent::Pointer { x, y, button: None, state: None }),
            None => out,
        };
        if e.is_motion() {
            match e {
                InputEvent::Pointer { x, y, .. } => (out, Some((x, y))),
                _ => (out, pending),
            }
        } else {
            (flushed.push(e), None)
        }
    }
}

/// The events of a drained input queue that go through the rest of the
/// pipeline, in order: a run of motion-only pointer events is replaced by its
/// last one, delivered just before the next non-motion event (or at the end).
pub open spec fn coalesce_spec(events: Seq<InputEvent>) -> Seq<InputEvent> {
    let (out, pending) = coalesce_prefix(events, events.len() as int);
    match pending {
        Some((x, y)) => out.push(InputEvent::Pointer { x, y, button: None, state: None }),
        None => out,
    }
}

/// Stage 1 of the pipeline for a drained queue (see `coalesce_spec`).
pub fn coalesce_events(events: &Vec<InputEvent>) -> (r: Vec<InputEvent>)
    ensures
        r@ == coalesce_spec(events@),
{
    let mut coalescer = PointerCoalescer::new();
    let mut out: Vec<InputEvent> = Vec::new();
    let mut k: usize = 0;
    while k < events.len()
        invariant
            k <= events@.len(),
            (out@, coalescer.pending_spec()) == coalesce_prefix(events@, k as int),
        decreases events@.len() - k,
    {
        let e = events[k];
        match e {
            InputEvent::Pointer { x, y, button, state } => {
                if button.is_none() && state.is_none() {
                    coalescer.set_pending(x, y);
                } else {
                    match coalescer.take_pending() {
                        Some(p) => out.push(p),
                        None => {},
                    }
                    out.push(e);
                }
            },
            InputEvent::Keyboard { .. } => {
                match coalescer.take_pending() {
                    Some(p) => out.push(p),
                    None => {},
                }
                out.push(e);
            },
        }
        k = k + 1;
    }
    match coalescer.take_pending() {
        Some(p) => out.push(p),
        None => {},
    }
    out
}


/// The surface under the pointer, as the pointer focus keeps it.
pub open spec fn hit_surface(pointer_hit: Option<(SurfaceId, HitZone)>) -> Option<SurfaceId> {
    match pointer_hit {
        Some((id, _)) => Some(id),
        None => None,
    }
}

/// One event through the pipeline after coalescing: the hotkey stage may
/// consume it; otherwise a pointer event updates the pointer focus to the
/// surface hit (`pointer_hit`, the caller's hit test at the event's
/// position) and the event is routed.
pub fn run_through_stages(
    event: &InputEvent,
    hotkeys: &mut HotkeyFilter,
    focus: &mut FocusManager,
    pointer_hit: Option<(SurfaceId, HitZone)>,
) -> (r: RouteTarget)
    requires
        old(focus).wf(),
    ensures
        final(focus).wf(),
        hotkey_filter_spec(*event) is Consume ==> r == RouteTarget::Dropped && final(focus)@ == old(focus)@,
        hotkey_filter_spec(*event) is Pass ==> {
            &&& r == route_spec(*event, old(focus)@.keyboard_focus, pointer_hit)
            &&& (*event is Pointer ==> final(focus)@ == (FocusState { pointer_focus: hit_surface(pointer_hit), ..old(focus)@ }))
            &&& (*event is Keyboard ==> final(focus)@ == old(focus)@)
        },
{
    let ev = match hotkeys.filter(event) {
        FilterResult::Pass => *event,
        FilterResult::Consume => {
            return RouteTarget::Dropped;
        },
        FilterResult::Transform(replacement) => replacement,
    };
    let kbd = focus.keyboard_focus();
    match ev {
        InputEvent::Pointer { .. } => {
            let id = match pointer_hit {
                Some((id, _)) => Some(id),
                None => None,
            };
            focus.set_pointer_focus(id);
        },
        InputEvent::Keyboard { .. } => {},
    }
    route_event(&ev, kbd, pointer_hit)
}

/// The channel of the first surface `id` among the slots from `i` on.
pub open spec fn channel_in(t: Seq<Option<Surface>>, id: SurfaceId, i: int) -> Option<ChannelId>
    decreases t.len() - i,
{
    if i < 0 || i >= t.len() {
        None
    } else if t[i] matches Some(s) && s.id == id {
        Some(t[i]->Some_0.channel)
    } else {
        channel_in(t, id, i + 1)
    }
}

/// The channel of surface `id` in the table (first match).
pub fn surface_channel(table: &Vec<Option<Surface>>, id: SurfaceId) -> (r: Option<ChannelId>)
    ensures
        r == channel_in(table@, id, 0),
{
    let mut k: usize = 0;
    while k < table.len()
        invariant
            k <= table@.len(),
            channel_in(table@, id, 0) == channel_in(table@, id, k as int),
        decreases table@.len() - k,
    {
        match &table[k] {
            Some(s) => {
                if s.id == id {
                    return Some(s.channel);
                }
            },
            None => {},
        }
        k = k + 1;
    }
    None
}

/// A left-button press: a click that gives focus.
pub open spec fn is_left_press(event: InputEvent) -> bool {
    event matches InputEvent::Pointer { button: Some(MouseButton::Left), state: Some(ButtonState::Pressed), .. }
}

/// How an event routed to surface `id` is delivered: to the surface's
/// channel (nothing when the surface is gone), and whether the surface is
/// first promoted to keyboard focus (a left-button press).
pub fn delivery_for(table: &Vec<Option<Surface>>, id: SurfaceId, event: &InputEvent) -> (r: Option<(ChannelId, bool)>)
    ensures
        channel_in(table@, id, 0) is None ==> r is None,
        channel_in(table@, id, 0) matches Some(c) ==> r == Some((c, is_left_press(*event))),
{
    let ch = match surface_channel(table, id) {
        Some(c) => c,
        None => {
            return None;
        },
    };
    let promote = match event {
        InputEvent::Pointer { button: Some(MouseButton::Left), state: Some(ButtonState::Pressed), .. } => true,
        _ => false,
    };
    Some((ch, promote))
}

/// Give surface `id` keyboard focus and raise it to the top of the z-order:
/// the focus change to notify.
pub fn promote_to_focus(focus: &mut FocusManager, z: &mut ZOrder, id: SurfaceId) -> (c: FocusChange)
    requires
        old(focus).wf(),
        old(z).wf(),
    ensures
        final(focus).wf(),
        final(z).wf(),
        Some(id) == old(focus)@.keyboard_focus ==> c == (FocusChange { lost: None, gained: None })
            && final(focus)@ == old(focus)@,
        Some(id) != old(focus)@.keyboard_focus ==> {
            &&& c == (FocusChange { lost: old(focus)@.keyboard_focus, gained: Some(id) })
            &&& final(focus)@.keyboard_focus == Some(id)
            &&& final(focus)@.pointer_focus == old(focus)@.pointer_focus
            &&& final(focus)@.history == touched(old(focus)@.history, id)
        },
        old(z)@.contains(id) ==> final(z)@ == old(z)@.remove_value(id).push(id),
        !old(z)@.contains(id) ==> final(z)@ == old(z)@,
{
    let change = focus.set_keyboard_focus(Some(id));
    z.raise_to_top(id);
    change
}

/// The focus-changed notices a focus change sends: `(channel, surface,
/// gained)` for the surface that lost focus, then for the one that gained
/// it, each only when the surface still has a channel in the table.
pub fn focus_notifications(table: &Vec<Option<Surface>>, change: FocusChange) -> (r: Vec<(ChannelId, SurfaceId, bool)>)
    ensures
        r@ == notices(channel_in(table@, change.lost->Some_0, 0), change.lost, false)
            + notices(channel_in(table@, change.gained->Some_0, 0), change.gained, true),
{
    let mut out: Vec<(ChannelId, SurfaceId, bool)> = Vec::new();
    match change.lost {
        Some(id) => match surface_channel(table, id) {
            Some(ch) => out.push((ch, id, false)),
            None => {},
        },
        None => {},
    }
    let ghost first = out@;
    match change.gained {
        Some(id) => match surface_channel(table, id) {
            Some(ch) => out.push((ch, id, true)),
            None => {},
        },
        None => {},
    }
    assert(out@ =~= first + notices(channel_in(table@, change.gained->Some_0, 0), change.gained, true));
    out
}

/// The notice for one side of a focus change, if it is sent.
pub open spec fn notices(ch: Option<ChannelId>, id: Option<SurfaceId>, gained: bool) -> Seq<(ChannelId, SurfaceId, bool)> {
    match (id, ch) {
        (Some(s), Some(c)) => seq![(c, s, gained)],
        _ => Seq::empty(),
    }
}

} // verus!
