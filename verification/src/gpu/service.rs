//! The GPU service's state: the table of allocated buffers, the display
//! mode, and the front and back buffers of double buffering; and the
//! decisions of its request handlers.
use vstd::prelude::*;

use crate::ids::ChannelId;
use crate::drivers::virtio_gpu::{DisplayInfo, GpuError, GpuPixelFormat};

verus! {

/// Buffers the service tracks at once.
pub const MAX_BUFFERS: usize = 16;

/// A buffer allocated on the device: its resource, size and layout, and
/// where its pixels live.
#[derive(Debug, Clone, Copy, PartialEq, Eq, Structural)]
pub struct GpuBufferHandle {
    pub resource_id: u32,
    pub width: u32,
    pub height: u32,
    pub format: GpuPixelFormat,
    pub stride: u32,
    pub fb_phys: u64,
    pub fb_virt: u64,
    pub page_count: u64,
    pub order: u32,
}

/// A rectangle of a resource, in pixels.
#[derive(Debug, Clone, Copy, PartialEq, Eq, Structural)]
pub struct VirtioGpuRect {
    pub x: u32,
    pub y: u32,
    pub width: u32,
    pub height: u32,
}

/// The service's state.
pub struct GpuServiceState {
    pub buffers: Vec<Option<GpuBufferHandle>>,
    pub display: DisplayInfo,
    pub channel: ChannelId,
    pub front_buffer: Option<GpuBufferHandle>,
    pub back_buffer: Option<GpuBufferHandle>,
    pub double_buffering: bool,
}

/// Slot `i` is the first holding resource `id`.
pub open spec fn is_first_with_id(t: Seq<Option<GpuBufferHandle>>, id: u32, i: int) -> bool {
    &&& 0 <= i < t.len()
    &&& t[i] matches Some(h) && h.resource_id == id
    &&& forall|j: int| 0 <= j < i ==> !(#[trigger] t[j] matches Some(g) && g.resource_id == id)
}

/// No slot holds resource `id`.
pub open spec fn holds_no(t: Seq<Option<GpuBufferHandle>>, id: u32) -> bool {
    forall|i: int| 0 <= i < t.len() ==> !(#[trigger] t[i] matches Some(h) && h.resource_id == id)
}

/// Slot `i` is the first free one.
pub open spec fn is_first_free(t: Seq<Option<GpuBufferHandle>>, i: int) -> bool {
    &&& 0 <= i < t.len()
    &&& t[i] is None
    &&& forall|j: int| 0 <= j < i ==> #[trigger] t[j] is Some
}

impl GpuServiceState {
    /// The table has its fixed size.
    pub open spec fn wf(&self) -> bool {
        self.buffers@.len() == MAX_BUFFERS
    }

    /// A fresh service for `display` on `channel`: no buffers, single
    /// buffering.
    pub fn new(display: DisplayInfo, channel: ChannelId) -> (s: GpuServiceState)
        ensures
            s.wf(),
            s.display == display,
            s.channel == channel,
            forall|i: int| 0 <= i < MAX_BUFFERS ==> #[trigger] s.buffers@[i] is None,
            s.front_buffer is None,
            s.back_buffer is None,
            !s.double_buffering,
    {
        let mut buffers: Vec<Option<GpuBufferHandle>> = Vec::new();
        let mut i: usize = 0;
        while i < MAX_BUFFERS
            invariant
                i <= MAX_BUFFERS,
                buffers@.len() == i,
                forall|k: int| 0 <= k < i ==> #[trigger] buffers@[k] is None,
            decreases MAX_BUFFERS - i,
        {
            buffers.push(None);
            i = i + 1;
        }
        GpuServiceState { buffers, display, channel, front_buffer: None, back_buffer: None, double_buffering: false }
    }

    /// Track a newly allocated buffer in the first free slot: that slot's
    /// index, or `OutOfMemory` when every slot is taken.
    pub fn track_buffer(&mut self, handle: GpuBufferHandle) -> (r: Result<usize, GpuError>)
        requires
            old(self).wf(),
        ensures
            final(self).wf(),
            final(self).display == old(self).display,
            final(self).front_buffer == old(self).front_buffer,
            final(self).back_buffer == old(self).back_buffer,
            final(self).double_buffering == old(self).double_buffering,
            final(self).channel == old(self).channel,
            r is Err <==> forall|j: int| 0 <= j < MAX_BUFFERS ==> #[trigger] old(self).buffers@[j] is Some,
            r is Err ==> r == Err::<usize, GpuError>(GpuError::OutOfMemory) && final(self).buffers@ == old(self).buffers@,
            r matches Ok(i) ==> is_first_free(old(self).buffers@, i as int)
                && final(self).buffers@ == old(self).buffers@.update(i as int, Some(handle)),
    {
        let mut i: usize = 0;
        while i < self.buffers.len()
            invariant
                i <= self.buffers@.len(),
                self.buffers@.len() == MAX_BUFFERS,
                self.display == old(self).display,
                self.front_buffer == old(self).front_buffer,
                self.back_buffer == old(self).back_buffer,
                self.double_buffering == old(self).double_buffering,
                self.channel == old(self).channel,
                self.buffers@ == old(self).buffers@,
                forall|j: int| 0 <= j < i ==> #[trigger] self.buffers@[j] is Some,
            decreases self.buffers@.len() - i,
        {
            if self.buffers[i].is_none() {
                self.buffers.set(i, Some(handle));
                return Ok(i);
            }
            i = i + 1;
        }
        Err(GpuError::OutOfMemory)
    }

    /// The tracked buffer of resource `resource_id` (the first match).
    pub fn find_buffer(&self, resource_id: u32) -> (r: Option<GpuBufferHandle>)
        ensures
            r is None <==> holds_no(self.buffers@, resource_id),
            r matches Some(h) ==> exists|i: int| is_first_with_id(self.buffers@, resource_id, i) && self.buffers@[i] == Some(h),
    {
        let mut i: usize = 0;
        while i < self.buffers.len()
            invariant
                i <= self.buffers@.len(),
                forall|j: int| 0 <= j < i ==> !(#[trigger] self.buffers@[j] matches Some(h) && h.resource_id == resource_id),
            decreases self.buffers@.len() - i,
        {
            match self.buffers[i] {
                Some(h) => {
                    if h.resource_id == resource_id {
                        assert(is_first_with_id(self.buffers@, resource_id, i as int));
                        return Some(h);
                    }
                },
                None => {},
            }
            i = i + 1;
        }
        None
    }

    /// Stop tracking resource `resource_id`: its handle (to free), with its
    /// slot cleared; `None` when it is not tracked.
    pub fn remove_buffer(&mut self, resource_id: u32) -> (r: Option<GpuBufferHandle>)
        requires
            old(self).wf(),
        ensures
            final(self).wf(),
            final(self).display == old(self).display,
            final(self).front_buffer == old(self).front_buffer,
            final(self).back_buffer == old(self).back_buffer,
            final(self).double_buffering == old(self).double_buffering,
            final(self).channel == old(self).channel,
            r is None <==> holds_no(old(self).buffers@, resource_id),
            r is None ==> final(self).buffers@ == old(self).buffers@,
            r matches Some(h) ==> exists|i: int| is_first_with_id(old(self).buffers@, resource_id, i)
                && old(self).buffers@[i] == Some(h) && final(self).buffers@ == old(self).buffers@.update(i, None),
    {
        let mut i: usize = 0;
        while i < self.buffers.len()
            invariant
                i <= self.buffers@.len(),
                self.buffers@.len() == MAX_BUFFERS,
                self.display == old(self).display,
                self.front_buffer == old(self).front_buffer,
                self.back_buffer == old(self).back_buffer,
                self.double_buffering == old(self).double_buffering,
                self.channel == old(self).channel,
                self.buffers@ == old(self).buffers@,
                forall|j: int| 0 <= j < i ==> !(#[trigger] self.buffers@[j] matches Some(h) && h.resource_id == resource_id),
            decreases self.buffers@.len() - i,
        {
            match self.buffers[i] {
                Some(h) => {
                    if h.resource_id == resource_id {
                        assert(is_first_with_id(self.buffers@, resource_id, i as int));
                        self.buffers.set(i, None);
                        return Some(h);
                    }
                },
                None => {},
            }
            i = i + 1;
        }
        None
    }

    /// The size of a buffer requested as `width x height`: a zero side takes
    /// the display's; `InvalidResource` when a side is still zero.
    pub fn allocation_size(&self, width: u32, height: u32) -> (r: Result<(u32, u32), GpuError>)
        ensures
            ({
                let w = if width > 0 { width } else { self.display.width };
                let h = if height > 0 { height } else { self.display.height };
                &&& (w == 0 || h == 0) ==> r == Err::<(u32, u32), GpuError>(GpuError::InvalidResource)
                &&& (w != 0 && h != 0) ==> r == Ok::<(u32, u32), GpuError>((w, h))
            }),
    {
        let w = if width > 0 { width } else { self.display.width };
        let h = if height > 0 { height } else { self.display.height };
        if w == 0 || h == 0 {
            return Err(GpuError::InvalidResource);
        }
        Ok((w, h))
    }

    /// Start a buffer swap: take the front and back buffers out of the
    /// state, handing back `(new front, new back)` = `(old back, old front)`.
    /// `InvalidResource` when either is missing (a front taken before the
    /// back was found missing stays taken).
    pub fn swap_begin(&mut self) -> (r: Result<(GpuBufferHandle, GpuBufferHandle), GpuError>)
        ensures
            final(self).buffers == old(self).buffers,
            final(self).display == old(self).display,
            final(self).double_buffering == old(self).double_buffering,
            final(self).channel == old(self).channel,
            final(self).front_buffer is None,
            old(self).front_buffer is None ==> final(self).back_buffer == old(self).back_buffer,
            old(self).front_buffer is Some ==> final(self).back_buffer is None,
            r is Ok <==> (old(self).front_buffer is Some && old(self).back_buffer is Some),
            r is Err ==> r == Err::<(GpuBufferHandle, GpuBufferHandle), GpuError>(GpuError::InvalidResource),
            r matches Ok((nf, nb)) ==> Some(nf) == old(self).back_buffer && Some(nb) == old(self).front_buffer,
    {
        let front = match self.front_buffer.take() {
            Some(f) => f,
            None => {
                return Err(GpuError::InvalidResource);
            },
        };
        let back = match self.back_buffer.take() {
            Some(b) => b,
            None => {
                return Err(GpuError::InvalidResource);
            },
        };
        Ok((back, front))
    }

    /// Finish a swap started by `swap_begin` once the device has been told
    /// (`outcome`): on success the new front and back take their places; on
    /// failure the old arrangement is restored. The outcome is returned.
    pub fn swap_finish(
        &mut self,
        new_front: GpuBufferHandle,
        new_back: GpuBufferHandle,
        outcome: Result<(), GpuError>,
    ) -> (r: Result<(), GpuError>)
        ensures
            r == outcome,
            final(self).buffers == old(self).buffers,
            final(self).display == old(self).display,
            final(self).double_buffering == old(self).double_buffering,
            final(self).channel == old(self).channel,
            outcome is Ok ==> final(self).front_buffer == Some(new_front) && final(self).back_buffer == Some(new_back),
            outcome is Err ==> final(self).front_buffer == Some(new_back) && final(self).back_buffer == Some(new_front),
    {
        match outcome {
            Ok(()) => {
                self.front_buffer = Some(new_front);
                self.back_buffer = Some(new_back);
            },
            Err(_) => {
                self.front_buffer = Some(new_back);
                self.back_buffer = Some(new_front);
            },
        }
        outcome
    }

    /// Install the front and back buffers of double buffering.
    pub fn enable_double_buffering(&mut self, front: GpuBufferHandle, back: GpuBufferHandle)
        ensures
            final(self).buffers == old(self).buffers,
            final(self).display == old(self).display,
            final(self).channel == old(self).channel,
            final(self).front_buffer == Some(front),
            final(self).back_buffer == Some(back),
            final(self).double_buffering,
    {
        self.front_buffer = Some(front);
        self.back_buffer = Some(back);
        self.double_buffering = true;
    }
}

/// Whether a swap request can be served: double buffering must be on
/// (`DeviceNotFound` otherwise).
pub fn check_swap_allowed(state: &GpuServiceState) -> (r: Result<(), GpuError>)
    ensures
        r is Ok <==> state.double_buffering,
        r is Err ==> r == Err::<(), GpuError>(GpuError::DeviceNotFound),
{
    if !state.double_buffering {
        return Err(GpuError::DeviceNotFound);
    }
    Ok(())
}

/// The rectangle a present of buffer `handle` transfers: the damage
/// rectangle when it is non-empty (`InvalidResource` when it reaches past
/// the buffer, sums saturating), the whole buffer otherwise.
pub fn present_rect(handle: &GpuBufferHandle, damage_x: u32, damage_y: u32, damage_w: u32, damage_h: u32) -> (r: Result<VirtioGpuRect, GpuError>)
    ensures
        (damage_w == 0 || damage_h == 0) ==> r == Ok::<VirtioGpuRect, GpuError>(
            VirtioGpuRect { x: 0, y: 0, width: handle.width, height: handle.height },
        ),
        (damage_w > 0 && damage_h > 0) ==> {
            let over = (if damage_x + damage_w > u32::MAX { u32::MAX as int } else { damage_x + damage_w }) > handle.width
                || (if damage_y + damage_h > u32::MAX { u32::MAX as int } else { damage_y + damage_h }) > handle.height;
            &&& over ==> r == Err::<VirtioGpuRect, GpuError>(GpuError::InvalidResource)
            &&& !over ==> r == Ok::<VirtioGpuRect, GpuError>(
                VirtioGpuRect { x: damage_x, y: damage_y, width: damage_w, height: damage_h },
            )
        },
{
    if damage_w > 0 && damage_h > 0 {
        if damage_x.saturating_add(damage_w) > handle.width || damage_y.saturating_add(damage_h) > handle.height {
            return Err(GpuError::InvalidResource);
        }
        Ok(VirtioGpuRect { x: damage_x, y: damage_y, width: damage_w, height: damage_h })
    } else {
        Ok(VirtioGpuRect { x: 0, y: 0, width: handle.width, height: handle.height })
    }
}

} // verus!
