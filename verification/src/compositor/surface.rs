//! Surface lifecycle: the compositor's fixed-size surface table.
use vstd::prelude::*;

use crate::ids::{ChannelId, ProcessId, SharedMemoryId, SurfaceId, COMPOSITOR_PID, MAX_SURFACES};

verus! {

/// Errors of surface lifecycle operations.
#[derive(Debug, Clone, Copy, PartialEq, Eq, Structural)]
pub enum SurfaceError {
    /// The surface table is full.
    TableFull,
    /// No surface with that id exists.
    NotFound,
    /// The caller does not own the surface.
    NotOwner,
    /// The surface's state does not allow the operation.
    InvalidTransition,
    /// Width or height is zero.
    InvalidSize,
}

/// Lifecycle state of a surface.
#[derive(Debug, Clone, Copy, PartialEq, Eq, Structural)]
pub enum SurfaceState {
    /// Created; no configure event processed yet.
    Created,
    /// The client has seen its configure event.
    Configured,
    /// A buffer is attached; the surface is composited.
    Active,
    /// Temporarily not composited.
    Suspended,
    /// Torn down.
    Destroyed,
}

impl SurfaceState {
    /// The lifecycle graph: every live state may be destroyed; `Created` and
    /// `Configured` move forward to `Configured`/`Active`; `Active` and
    /// `Suspended` move between each other (and `Active` to itself).
    pub open spec fn spec_can_transition_to(self, next: SurfaceState) -> bool {
        match (self, next) {
            (SurfaceState::Destroyed, _) => false,
            (_, SurfaceState::Destroyed) => true,
            (SurfaceState::Created, SurfaceState::Configured) => true,
            (SurfaceState::Created, SurfaceState::Active) => true,
            (SurfaceState::Configured, SurfaceState::Active) => true,
            (SurfaceState::Active, SurfaceState::Active) => true,
            (SurfaceState::Active, SurfaceState::Suspended) => true,
            (SurfaceState::Suspended, SurfaceState::Active) => true,
            _ => false,
        }
    }

    /// Whether the lifecycle allows moving from `self` to `next`.
    pub fn can_transition_to(self, next: SurfaceState) -> (r: bool)
        ensures
            r == self.spec_can_transition_to(next),
    {
        match (self, next) {
            (SurfaceState::Destroyed, _) => false,
            (_, SurfaceState::Destroyed) => true,
            (SurfaceState::Created, SurfaceState::Configured) => true,
            (SurfaceState::Created, SurfaceState::Active) => true,
            (SurfaceState::Configured, SurfaceState::Active) => true,
            (SurfaceState::Active, SurfaceState::Active) => true,
            (SurfaceState::Active, SurfaceState::Suspended) => true,
            (SurfaceState::Suspended, SurfaceState::Active) => true,
            _ => false,
        }
    }

    /// `Destroyed` is the only terminal state.
    pub fn is_terminal(self) -> (r: bool)
        ensures
            r == (self is Destroyed),
    {
        match self {
            SurfaceState::Destroyed => true,
            _ => false,
        }
    }

    /// Only `Active` surfaces are shown (composited, listed in the taskbar).
    pub fn is_visible(self) -> (r: bool)
        ensures
            r == (self is Active),
    {
        match self {
            SurfaceState::Active => true,
            _ => false,
        }
    }
}

/// Z-order layer of a surface, bottom to top.
#[derive(Debug, Clone, Copy, PartialEq, Eq, Structural)]
pub enum SurfaceLayer {
    /// Wallpaper.
    Background,
    /// Ordinary application windows.
    Normal,
    /// Always-on-top application windows.
    TopLevel,
    /// System chrome (status strip, taskbar).
    Panel,
    /// Popovers.
    Overlay,
}

impl SurfaceLayer {
    pub open spec fn spec_rank(self) -> u8 {
        match self {
            SurfaceLayer::Background => 0,
            SurfaceLayer::Normal => 1,
            SurfaceLayer::TopLevel => 2,
            SurfaceLayer::Panel => 3,
            SurfaceLayer::Overlay => 4,
        }
    }

    /// Position of the layer in the bottom-to-top stacking order.
    pub fn rank(self) -> (r: u8)
        ensures
            r == self.spec_rank(),
    {
        match self {
            SurfaceLayer::Background => 0,
            SurfaceLayer::Normal => 1,
            SurfaceLayer::TopLevel => 2,
            SurfaceLayer::Panel => 3,
            SurfaceLayer::Overlay => 4,
        }
    }
}

/// What a surface displays.
#[derive(Debug, Clone, Copy, PartialEq, Eq, Structural)]
pub enum SurfaceContentType {
    /// An ordinary application.
    Generic,
    /// Compositor-drawn system UI.
    SystemUI,
}

/// Maximum title length in bytes.
pub const MAX_TITLE_LEN: usize = 64;

/// Fixed-capacity surface title (ASCII bytes).
#[derive(Debug, Clone, Copy)]
pub struct SurfaceTitle {
    bytes: [u8; 64],
    len: usize,
}

impl View for SurfaceTitle {
    type V = Seq<u8>;

    closed spec fn view(&self) -> Seq<u8> {
        self.bytes@.subrange(0, self.len as int)
    }
}

impl SurfaceTitle {
    pub closed spec fn wf(&self) -> bool {
        self.len <= MAX_TITLE_LEN
    }

    /// A title holding the first `MAX_TITLE_LEN` bytes of `text`.
    pub fn from_bytes(text: &[u8]) -> (t: SurfaceTitle)
        ensures
            t.wf(),
            t@ == text@.subrange(0, if text@.len() > MAX_TITLE_LEN { MAX_TITLE_LEN as int } else { text@.len() as int }),
    {
        let n = if text.len() > MAX_TITLE_LEN { MAX_TITLE_LEN } else { text.len() };
        let mut bytes = [0u8; 64];
        let mut i: usize = 0;
        while i < n
            invariant
                n <= 64,
                n <= text@.len(),
                i <= n,
                bytes@.len() == 64,
                forall|j: int| 0 <= j < i ==> bytes@[j] == text@[j],
            decreases n - i,
        {
            bytes[i] = text[i];
            i = i + 1;
        }
        let t = SurfaceTitle { bytes, len: n };
        assert(t@ =~= text@.subrange(0, n as int));
        t
    }

    /// The title bytes.
    pub fn as_bytes(&self) -> (r: Vec<u8>)
        requires
            self.wf(),
        ensures
            r@ == self@,
    {
        let mut out: Vec<u8> = Vec::new();
        let mut i: usize = 0;
        while i < self.len
            invariant
                self.len <= 64,
                i <= self.len,
                out@ == self.bytes@.subrange(0, i as int),
            decreases self.len - i,
        {
            out.push(self.bytes[i]);
            i = i + 1;
            assert(out@ =~= self.bytes@.subrange(0, i as int));
        }
        out
    }
}

/// A rectangle in surface or display coordinates.
#[derive(Debug, Clone, Copy, PartialEq, Eq, Structural)]
pub struct DamageRect {
    pub x: u32,
    pub y: u32,
    pub width: u32,
    pub height: u32,
}

/// The damage a client reports with a buffer attach.
#[derive(Debug, Clone, Copy, PartialEq, Eq, Structural)]
pub enum DamageRegion {
    /// Nothing changed.
    NoDamage,
    /// The whole surface changed.
    FullSurface,
    /// Only this rectangle changed.
    Rect(DamageRect),
}

impl DamageRegion {
    pub open spec fn spec_has_damage(self) -> bool {
        match self {
            DamageRegion::NoDamage => false,
            DamageRegion::FullSurface => true,
            DamageRegion::Rect(r) => r.width != 0 && r.height != 0,
        }
    }

    /// True when the region covers at least one pixel.
    pub fn has_damage(self) -> (r: bool)
        ensures
            r == self.spec_has_damage(),
    {
        match self {
            DamageRegion::NoDamage => false,
            DamageRegion::FullSurface => true,
            DamageRegion::Rect(r) => r.width != 0 && r.height != 0,
        }
    }
}

/// A compositor surface: the kernel-side record for a window or panel.
#[derive(Debug, Clone, Copy)]
pub struct Surface {
    pub id: SurfaceId,
    pub state: SurfaceState,
    pub layer: SurfaceLayer,
    pub title: SurfaceTitle,
    pub content_type: SurfaceContentType,
    pub x: i32,
    pub y: i32,
    pub width: u32,
    pub height: u32,
    /// Shared-memory buffer holding the pixels, once attached.
    pub shmem_id: Option<SharedMemoryId>,
    /// Process that created the surface.
    pub owner_pid: ProcessId,
    /// Channel on which the owner receives events.
    pub channel: ChannelId,
    /// Insertion order within the layer (z-order tie-break).
    pub layer_seq: u64,
    /// Produced damage since the last frame.
    pub damaged: bool,
    /// Composited at all (independent of `state`).
    pub visible: bool,
}

impl Surface {
    pub open spec fn spec_is_shell(&self) -> bool {
        self.owner_pid.0 == COMPOSITOR_PID
    }

    /// Desktop-shell surfaces are the ones the compositor process owns.
    pub fn is_shell(&self) -> (r: bool)
        ensures
            r == self.spec_is_shell(),
    {
        self.owner_pid.0 == COMPOSITOR_PID
    }
}

/// Abstract state of the surface table.
pub ghost struct SurfaceTableView {
    pub slots: Seq<Option<Surface>>,
    pub next_surface_id: u64,
    pub next_layer_seq: u64,
}

impl SurfaceTableView {
    /// Slot `i` holds the surface `id`.
    pub open spec fn holds(self, i: int, id: SurfaceId) -> bool {
        &&& 0 <= i < self.slots.len()
        &&& self.slots[i] is Some
        &&& self.slots[i]->0.id == id
    }

    /// Some slot holds the surface `id`.
    pub open spec fn contains(self, id: SurfaceId) -> bool {
        exists|i: int| self.holds(i, id)
    }

    /// The slot that holds `id` (meaningful when `contains(id)`).
    pub open spec fn index_of(self, id: SurfaceId) -> int {
        choose|i: int| self.holds(i, id)
    }

    /// The record of surface `id` (meaningful when `contains(id)`).
    pub open spec fn get(self, id: SurfaceId) -> Surface {
        self.slots[self.index_of(id)]->0
    }

    /// Table invariant: `MAX_SURFACES` slots, live ids distinct and not `NONE`,
    /// titles well formed.
    pub open spec fn wf(self) -> bool {
        &&& self.slots.len() == MAX_SURFACES
        &&& self.next_surface_id >= 1
        &&& forall|i: int, j: int|
            0 <= i < self.slots.len() && 0 <= j < self.slots.len() && #[trigger] self.slots[i] is Some
                && #[trigger] self.slots[j] is Some && self.slots[i]->0.id == self.slots[j]->0.id ==> i == j
        &&& forall|i: int| 0 <= i < self.slots.len() && #[trigger] self.slots[i] is Some ==> {
            &&& !self.slots[i]->0.id.spec_is_none()
            &&& self.slots[i]->0.id.0 < self.next_surface_id
            &&& self.slots[i]->0.title.wf()
        }
    }

    /// Why an owner-checked operation on `id` by `caller` is refused, if it is:
    /// the surface must exist, be owned by `caller` and not be destroyed.
    pub open spec fn refusal(self, id: SurfaceId, caller: ProcessId) -> Option<SurfaceError> {
        if !self.contains(id) {
            Some(SurfaceError::NotFound)
        } else if self.get(id).owner_pid.0 != caller.0 {
            Some(SurfaceError::NotOwner)
        } else if self.get(id).state is Destroyed {
            Some(SurfaceError::InvalidTransition)
        } else {
            None
        }
    }

    /// The table with surface `id` replaced by `s`.
    pub open spec fn with(self, id: SurfaceId, s: Surface) -> SurfaceTableView {
        SurfaceTableView { slots: self.slots.update(self.index_of(id), Some(s)), ..self }
    }
}

/// System-wide table of compositor surfaces, with the monotonic id and
/// layer-sequence allocators.
pub struct SurfaceTable {
    slots: Vec<Option<Surface>>,
    next_surface_id: u64,
    next_layer_seq: u64,
}

impl View for SurfaceTable {
    type V = SurfaceTableView;

    closed spec fn view(&self) -> SurfaceTableView {
        SurfaceTableView {
            slots: self.slots@,
            next_surface_id: self.next_surface_id,
            next_layer_seq: self.next_layer_seq,
        }
    }
}

/// `v + 1` wrapping at 2^64 (the allocators' `fetch_add`).
pub open spec fn wrap_inc(v: u64) -> u64 {
    if v == u64::MAX { 0 } else { (v + 1) as u64 }
}

fn wrapping_inc(v: u64) -> (r: u64)
    ensures
        r == wrap_inc(v),
{
    if v == u64::MAX { 0 } else { v + 1 }
}

/// The record a successful create stores.
pub open spec fn new_surface(
    id: u64, seq: u64, owner_pid: ProcessId, channel: ChannelId, width: u32, height: u32,
    title: SurfaceTitle, content_type: SurfaceContentType, layer: SurfaceLayer,
) -> Surface {
    Surface {
        id: SurfaceId(id),
        state: SurfaceState::Created,
        layer,
        title,
        content_type,
        x: 0,
        y: 0,
        width,
        height,
        shmem_id: None,
        owner_pid,
        channel,
        layer_seq: seq,
        damaged: true,
        visible: true,
    }
}


impl SurfaceTable {
    /// Table invariant (see `SurfaceTableView::wf`).
    pub open spec fn wf(&self) -> bool {
        self@.wf()
    }

    /// An empty table whose first surface id is `1`.
    pub fn new() -> (t: SurfaceTable)
        ensures
            t.wf(),
            t@.next_surface_id == 1,
            t@.next_layer_seq == 1,
            forall|i: int| 0 <= i < t@.slots.len() ==> t@.slots[i] is None,
    {
        let mut slots: Vec<Option<Surface>> = Vec::new();
        let mut i: usize = 0;
        while i < MAX_SURFACES
            invariant
                i <= MAX_SURFACES,
                slots@.len() == i,
                forall|j: int| 0 <= j < i ==> slots@[j] is None,
            decreases MAX_SURFACES - i,
        {
            slots.push(None);
            i = i + 1;
        }
        SurfaceTable { slots, next_surface_id: 1, next_layer_seq: 1 }
    }

    /// Slot index of surface `id`.
    fn find(&self, id: SurfaceId) -> (r: Option<usize>)
        requires
            self.wf(),
        ensures
            match r {
                Some(i) => self@.holds(i as int, id) && i as int == self@.index_of(id),
                None => !self@.contains(id),
            },
    {
        let mut i: usize = 0;
        while i < self.slots.len()
            invariant
                i <= self.slots@.len(),
                self.wf(),
                forall|j: int| 0 <= j < i ==> !self@.holds(j, id),
            decreases self.slots@.len() - i,
        {
            match &self.slots[i] {
                Some(s) => {
                    if s.id == id {
                        proof {
                            assert(self@.holds(i as int, id));
                            let k = self@.index_of(id);
                            assert(self@.holds(k, id));
                        }
                        return Some(i);
                    }
                },
                None => {},
            }
            i = i + 1;
        }
        None
    }

    /// A copy of the record of surface `id`.
    pub fn get(&self, id: SurfaceId) -> (r: Option<Surface>)
        requires
            self.wf(),
        ensures
            r == (if self@.contains(id) { Some(self@.get(id)) } else { None }),
    {
        match self.find(id) {
            Some(i) => self.slots[i],
            None => None,
        }
    }

    /// All slots, in table order.
    pub fn slots(&self) -> (r: Vec<Option<Surface>>)
        ensures
            r@ == self@.slots,
    {
        self.slots.clone()
    }

    /// Overwrite slot `i` (which holds `s.id`) with `s`.
    fn replace(&mut self, i: usize, s: Surface)
        requires
            old(self).wf(),
            old(self)@.holds(i as int, s.id),
            i as int == old(self)@.index_of(s.id),
            s.title.wf(),
        ensures
            final(self).wf(),
            final(self)@ == old(self)@.with(s.id, s),
    {
        self.slots.set(i, Some(s));
        proof {
            let old_slots = old(self).slots@;
            let new_slots = self.slots@;
            assert forall|a: int| 0 <= a < new_slots.len() && #[trigger] new_slots[a] is Some implies {
                &&& !new_slots[a]->0.id.spec_is_none()
                &&& new_slots[a]->0.id.0 < self.next_surface_id
                &&& new_slots[a]->0.title.wf()
            } by {
                assert(old_slots[a] is Some);
            }
            assert forall|a: int, b: int|
                0 <= a < new_slots.len() && 0 <= b < new_slots.len() && #[trigger] new_slots[a] is Some
                    && #[trigger] new_slots[b] is Some && new_slots[a]->0.id == new_slots[b]->0.id implies a == b by {
                assert(old_slots[a] is Some && old_slots[b] is Some);
                if a == i as int {
                    assert(old_slots[a]->0.id == s.id);
                } else if b == i as int {
                    assert(old_slots[b]->0.id == s.id);
                }
            }
        }
    }

    /// Look up `id` for an owner-checked operation by `caller`.
    fn find_owned(&self, id: SurfaceId, caller: ProcessId) -> (r: Result<usize, SurfaceError>)
        requires
            self.wf(),
        ensures
            match r {
                Ok(i) => self@.refusal(id, caller) is None && self@.holds(i as int, id) && i as int == self@.index_of(id),
                Err(e) => self@.refusal(id, caller) == Some(e),
            },
    {
        match self.find(id) {
            None => Err(SurfaceError::NotFound),
            Some(i) => {
                let s = self.slots[i].unwrap();
                if s.owner_pid.0 != caller.0 {
                    Err(SurfaceError::NotOwner)
                } else if s.state.is_terminal() {
                    Err(SurfaceError::InvalidTransition)
                } else {
                    Ok(i)
                }
            },
        }
    }

    /// Attach a shared-memory buffer. The first attach moves a `Created` or
    /// `Configured` surface to `Active`; later attaches keep it `Active`.
    /// The surface becomes damaged when `damage` covers any pixel.
    pub fn surface_attach_buffer(
        &mut self,
        id: SurfaceId,
        shmem_id: SharedMemoryId,
        damage: DamageRegion,
        caller_pid: ProcessId,
    ) -> (r: Result<(), SurfaceError>)
        requires
            old(self).wf(),
        ensures
            final(self).wf(),
            match old(self)@.refusal(id, caller_pid) {
                Some(e) => r == Err::<(), SurfaceError>(e) && final(self)@ == old(self)@,
                None => r == Ok::<(), SurfaceError>(()) && final(self)@ == old(self)@.with(id, Surface {
                    shmem_id: Some(shmem_id),
                    state: SurfaceState::Active,
                    damaged: old(self)@.get(id).damaged || damage.spec_has_damage(),
                    ..old(self)@.get(id)
                }),
            },
    {
        let i = match self.find_owned(id, caller_pid) {
            Ok(i) => i,
            Err(e) => return Err(e),
        };
        let mut s = self.slots[i].unwrap();
        let next_state = match s.state {
            SurfaceState::Created | SurfaceState::Configured => SurfaceState::Active,
            SurfaceState::Active | SurfaceState::Suspended => SurfaceState::Active,
            SurfaceState::Destroyed => return Err(SurfaceError::InvalidTransition),
        };
        if !s.state.can_transition_to(next_state) {
            return Err(SurfaceError::InvalidTransition);
        }
        s.shmem_id = Some(shmem_id);
        s.state = next_state;
        if damage.has_damage() {
            s.damaged = true;
        }
        self.replace(i, s);
        Ok(())
    }

    /// Tear down a surface, freeing its slot. Its id is never reused.
    pub fn surface_destroy(&mut self, id: SurfaceId, caller_pid: ProcessId) -> (r: Result<(), SurfaceError>)
        requires
            old(self).wf(),
        ensures
            final(self).wf(),
            match old(self)@.refusal(id, caller_pid) {
                Some(e) => r == Err::<(), SurfaceError>(e) && final(self)@ == old(self)@,
                None => r == Ok::<(), SurfaceError>(()) && final(self)@ == SurfaceTableView {
                    slots: old(self)@.slots.update(old(self)@.index_of(id), None),
                    ..old(self)@
                },
            },
            r is Ok ==> !final(self)@.contains(id),
    {
        let i = match self.find_owned(id, caller_pid) {
            Ok(i) => i,
            Err(e) => return Err(e),
        };
        let s = self.slots[i].unwrap();
        if !s.state.can_transition_to(SurfaceState::Destroyed) {
            return Err(SurfaceError::InvalidTransition);
        }
        self.slots.set(i, None);
        proof {
            let old_slots = old(self).slots@;
            let new_slots = self.slots@;
            assert forall|a: int| 0 <= a < new_slots.len() && #[trigger] new_slots[a] is Some implies {
                &&& !new_slots[a]->0.id.spec_is_none()
                &&& new_slots[a]->0.id.0 < self.next_surface_id
                &&& new_slots[a]->0.title.wf()
            } by {
                assert(old_slots[a] is Some);
            }
            assert forall|a: int, b: int|
                0 <= a < new_slots.len() && 0 <= b < new_slots.len() && #[trigger] new_slots[a] is Some
                    && #[trigger] new_slots[b] is Some && new_slots[a]->0.id == new_slots[b]->0.id implies a == b by {
                assert(old_slots[a] is Some && old_slots[b] is Some);
            }
            if self@.contains(id) {
                let k = self@.index_of(id);
                assert(self@.holds(k, id));
                assert(old_slots[k] is Some);
            }
        }
        Ok(())
    }

    /// Resize a surface; returns the new dimensions for the follow-up
    /// configure event.
    pub fn surface_resize(
        &mut self,
        id: SurfaceId,
        width: u32,
        height: u32,
        caller_pid: ProcessId,
    ) -> (r: Result<(u32, u32), SurfaceError>)
        requires
            old(self).wf(),
        ensures
            final(self).wf(),
            width == 0 || height == 0 ==> r == Err::<(u32, u32), SurfaceError>(SurfaceError::InvalidSize)
                && final(self)@ == old(self)@,
            width != 0 && height != 0 ==> match old(self)@.refusal(id, caller_pid) {
                Some(e) => r == Err::<(u32, u32), SurfaceError>(e) && final(self)@ == old(self)@,
                None => r == Ok::<(u32, u32), SurfaceError>((width, height)) && final(self)@ == old(self)@.with(id, Surface {
                    width,
                    height,
                    damaged: true,
                    ..old(self)@.get(id)
                }),
            },
    {
        if width == 0 || height == 0 {
            return Err(SurfaceError::InvalidSize);
        }
        let i = match self.find_owned(id, caller_pid) {
            Ok(i) => i,
            Err(e) => return Err(e),
        };
        let mut s = self.slots[i].unwrap();
        s.width = width;
        s.height = height;
        s.damaged = true;
        self.replace(i, s);
        Ok((width, height))
    }

    /// Move a surface to another layer, at the top of that layer (a fresh
    /// layer sequence number).
    pub fn surface_set_layer(
        &mut self,
        id: SurfaceId,
        layer: SurfaceLayer,
        caller_pid: ProcessId,
    ) -> (r: Result<(), SurfaceError>)
        requires
            old(self).wf(),
        ensures
            final(self).wf(),
            match old(self)@.refusal(id, caller_pid) {
                Some(e) => r == Err::<(), SurfaceError>(e) && final(self)@ == old(self)@,
                None => r == Ok::<(), SurfaceError>(()) && final(self)@ == SurfaceTableView {
                    next_layer_seq: wrap_inc(old(self)@.next_layer_seq),
                    ..old(self)@.with(id, Surface {
                        layer,
                        layer_seq: old(self)@.next_layer_seq,
                        damaged: true,
                        ..old(self)@.get(id)
                    })
                },
            },
    {
        let i = match self.find_owned(id, caller_pid) {
            Ok(i) => i,
            Err(e) => return Err(e),
        };
        let mut s = self.slots[i].unwrap();
        s.layer = layer;
        s.layer_seq = self.next_layer_seq;
        s.damaged = true;
        self.replace(i, s);
        self.next_layer_seq = wrapping_inc(self.next_layer_seq);
        Ok(())
    }

    /// Move a surface's origin to `(x, y)`.
    pub fn surface_set_position(
        &mut self,
        id: SurfaceId,
        x: i32,
        y: i32,
        caller_pid: ProcessId,
    ) -> (r: Result<(), SurfaceError>)
        requires
            old(self).wf(),
        ensures
            final(self).wf(),
            match old(self)@.refusal(id, caller_pid) {
                Some(e) => r == Err::<(), SurfaceError>(e) && final(self)@ == old(self)@,
                None => r == Ok::<(), SurfaceError>(()) && final(self)@ == old(self)@.with(id, Surface {
                    x,
                    y,
                    damaged: true,
                    ..old(self)@.get(id)
                }),
            },
    {
        let i = match self.find_owned(id, caller_pid) {
            Ok(i) => i,
            Err(e) => return Err(e),
        };
        let mut s = self.slots[i].unwrap();
        s.x = x;
        s.y = y;
        s.damaged = true;
        self.replace(i, s);
        Ok(())
    }

    /// Show or hide a surface (hidden surfaces are skipped by composition).
    pub fn surface_set_visible(
        &mut self,
        id: SurfaceId,
        visible: bool,
        caller_pid: ProcessId,
    ) -> (r: Result<(), SurfaceError>)
        requires
            old(self).wf(),
        ensures
            final(self).wf(),
            match old(self)@.refusal(id, caller_pid) {
                Some(e) => r == Err::<(), SurfaceError>(e) && final(self)@ == old(self)@,
                None => r == Ok::<(), SurfaceError>(()) && final(self)@ == old(self)@.with(id, Surface {
                    visible,
                    damaged: true,
                    ..old(self)@.get(id)
                }),
            },
    {
        let i = match self.find_owned(id, caller_pid) {
            Ok(i) => i,
            Err(e) => return Err(e),
        };
        let mut s = self.slots[i].unwrap();
        s.visible = visible;
        s.damaged = true;
        self.replace(i, s);
        Ok(())
    }

    /// Mark a surface damaged (compositor-internal: no ownership check).
    pub fn mark_damaged(&mut self, id: SurfaceId)
        requires
            old(self).wf(),
        ensures
            final(self).wf(),
            old(self)@.contains(id) ==> final(self)@ == old(self)@.with(id, Surface {
                damaged: true,
                ..old(self)@.get(id)
            }),
            !old(self)@.contains(id) ==> final(self)@ == old(self)@,
    {
        match self.find(id) {
            Some(i) => {
                let mut s = self.slots[i].unwrap();
                s.damaged = true;
                self.replace(i, s);
            },
            None => {},
        }
    }

    /// Create a new surface in state `Created` at `(0, 0)`, damaged and
    /// visible. The id and layer-sequence allocators advance even when the
    /// table turns out to be full.
    pub fn surface_create(
        &mut self,
        owner_pid: ProcessId,
        channel: ChannelId,
        width: u32,
        height: u32,
        title: SurfaceTitle,
        content_type: SurfaceContentType,
        layer: SurfaceLayer,
    ) -> (r: Result<SurfaceId, SurfaceError>)
        requires
            old(self).wf(),
            title.wf(),
            old(self)@.next_surface_id < u64::MAX,
        ensures
            final(self).wf(),
            width == 0 || height == 0 ==> r == Err::<SurfaceId, SurfaceError>(SurfaceError::InvalidSize)
                && final(self)@ == old(self)@,
            width != 0 && height != 0 ==> {
                &&& final(self)@.next_surface_id == old(self)@.next_surface_id + 1
                &&& final(self)@.next_layer_seq == wrap_inc(old(self)@.next_layer_seq)
                &&& (forall|i: int| 0 <= i < old(self)@.slots.len() ==> old(self)@.slots[i] is Some)
                    ==> r == Err::<SurfaceId, SurfaceError>(SurfaceError::TableFull)
                        && final(self)@.slots == old(self)@.slots
                &&& (exists|i: int| 0 <= i < old(self)@.slots.len() && old(self)@.slots[i] is None) ==> {
                    let k = choose|i: int| 0 <= i < old(self)@.slots.len() && old(self)@.slots[i] is None
                        && forall|j: int| 0 <= j < i ==> old(self)@.slots[j] is Some;
                    &&& r == Ok::<SurfaceId, SurfaceError>(SurfaceId(old(self)@.next_surface_id))
                    &&& final(self)@.slots == old(self)@.slots.update(k, Some(new_surface(
                        old(self)@.next_surface_id, old(self)@.next_layer_seq, owner_pid, channel,
                        width, height, title, content_type, layer)))
                }
            },
    {
        if width == 0 || height == 0 {
            return Err(SurfaceError::InvalidSize);
        }
        let id = self.next_surface_id;
        self.next_surface_id = id + 1;
        let layer_seq = self.next_layer_seq;
        self.next_layer_seq = wrapping_inc(layer_seq);
        let mut i: usize = 0;
        while i < self.slots.len()
            invariant
                i <= self.slots@.len(),
                self.slots@ == old(self).slots@,
                old(self).wf(),
                title.wf(),
                width != 0 && height != 0,
                id == old(self)@.next_surface_id,
                layer_seq == old(self)@.next_layer_seq,
                id < u64::MAX,
                self.next_surface_id == id + 1,
                self.next_layer_seq == wrap_inc(layer_seq),
                forall|j: int| 0 <= j < i ==> self.slots@[j] is Some,
            decreases self.slots@.len() - i,
        {
            if self.slots[i].is_none() {
                let surface = Surface {
                    id: SurfaceId(id),
                    state: SurfaceState::Created,
                    layer,
                    title,
                    content_type,
                    x: 0,
                    y: 0,
                    width,
                    height,
                    shmem_id: None,
                    owner_pid,
                    channel,
                    layer_seq,
                    damaged: true,
                    visible: true,
                };
                self.slots.set(i, Some(surface));
                proof {
                    let old_slots = old(self).slots@;
                    let new_slots = self.slots@;
                    assert forall|a: int| 0 <= a < new_slots.len() && #[trigger] new_slots[a] is Some implies {
                        &&& !new_slots[a]->0.id.spec_is_none()
                        &&& new_slots[a]->0.id.0 < self.next_surface_id
                        &&& new_slots[a]->0.title.wf()
                    } by {
                        if a != i as int {
                            assert(old_slots[a] is Some);
                        }
                    }
                    assert forall|a: int, b: int|
                        0 <= a < new_slots.len() && 0 <= b < new_slots.len() && #[trigger] new_slots[a] is Some
                            && #[trigger] new_slots[b] is Some && new_slots[a]->0.id == new_slots[b]->0.id implies a == b by {
                        if a != i as int && b != i as int {
                            assert(old_slots[a] is Some && old_slots[b] is Some);
                        } else if a != i as int {
                            assert(old_slots[a] is Some);
                        } else if b != i as int {
                            assert(old_slots[b] is Some);
                        }
                    }
                    let k = choose|k: int| 0 <= k < old(self)@.slots.len() && old(self)@.slots[k] is None
                        && forall|j: int| 0 <= j < k ==> old(self)@.slots[j] is Some;
                    assert(0 <= i < old(self)@.slots.len() && old(self)@.slots[i as int] is None
                        && forall|j: int| 0 <= j < i ==> old(self)@.slots[j] is Some);
                    if k < i as int {
                        assert(old(self)@.slots[k] is Some);
                    } else if k > i as int {
                        assert(old(self)@.slots[i as int] is Some);
                    }
                }
                return Ok(SurfaceId(id));
            }
            i = i + 1;
        }
        Err(SurfaceError::TableFull)
    }
}

} // verus!
