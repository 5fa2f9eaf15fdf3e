//! Split-virtqueue memory layout (VirtIO 1.x legacy layout).
use vstd::prelude::*;

verus! {

/// Queue size the drivers use.
pub const QUEUE_SIZE: u16 = 128;
/// Polling budget of a device wait.
pub const POLL_TIMEOUT: u32 = 10_000_000;
/// The layout's page size.
pub const VIRT_PAGE_SIZE: usize = 4096;

/// `x` rounded up to a multiple of the page size.
pub open spec fn page_align_up(x: int) -> int {
    ((x + 4095) / 4096) * 4096
}

fn align_up(x: usize) -> (r: usize)
    requires
        x + 4095 <= usize::MAX,
    ensures
        r == page_align_up(x as int),
{
    let y = x + (VIRT_PAGE_SIZE - 1);
    let r = y & !(VIRT_PAGE_SIZE - 1);
    assert(y & !4095usize == (y / 4096) * 4096) by (bit_vector);
    r
}

/// Offset of the available ring: after `queue_size` 16-byte descriptors.
pub fn avail_offset(queue_size: usize) -> (o: usize)
    requires
        queue_size * 16 <= usize::MAX,
    ensures
        o == queue_size * 16,
{
    queue_size * 16
}

proof fn lemma_align_up_bounds(x: int)
    requires
        x >= 0,
    ensures
        x <= page_align_up(x) <= x + 4095,
{
    assert(x <= ((x + 4095) / 4096) * 4096 <= x + 4095) by (nonlinear_arith)
        requires
            x >= 0,
    ;
}

/// Offset of the used ring: after the available ring (flags, index,
/// `queue_size` entries, used-event), rounded up to a page.
pub fn used_offset(queue_size: usize) -> (o: usize)
    requires
        queue_size * 18 + 4101 <= usize::MAX,
    ensures
        o == page_align_up(queue_size * 16 + 4 + queue_size * 2 + 2),
{
    let avail_end = avail_offset(queue_size) + 4 + queue_size * 2 + 2;
    align_up(avail_end)
}

/// Bytes of the whole queue: after the used ring (flags, index,
/// `queue_size` 8-byte elements, avail-event), rounded up to a page.
pub fn virtqueue_size(queue_size: usize) -> (s: usize)
    requires
        page_align_up(queue_size * 18 + 6) + queue_size * 8 + 4101 <= usize::MAX,
    ensures
        s == page_align_up(page_align_up(queue_size * 16 + 4 + queue_size * 2 + 2) + 4 + queue_size * 8 + 2),
{
    proof {
        lemma_align_up_bounds(queue_size * 18 + 6);
    }
    let used_end = used_offset(queue_size) + 4 + queue_size * 8 + 2;
    align_up(used_end)
}


/// Descriptor flag: the chain continues at `next`.
pub const VIRTQ_DESC_F_NEXT: u16 = 1;
/// Descriptor flag: the device writes this buffer.
pub const VIRTQ_DESC_F_WRITE: u16 = 2;

/// A split-virtqueue descriptor.
#[derive(Debug, Clone, Copy, PartialEq, Eq, Structural)]
pub struct VirtqDesc {
    pub addr: u64,
    pub len: u32,
    pub flags: u16,
    pub next: u16,
}

/// Byte offset, in the available ring, of the slot for the entry with index
/// `avail_idx`: after the flags and index words, slot `avail_idx` modulo
/// the queue size.
pub fn avail_ring_slot(avail_idx: u16, queue_size: u16) -> (r: usize)
    requires
        queue_size > 0,
    ensures
        r == 4 + (avail_idx % queue_size) * 2,
{
    4 + ((avail_idx % queue_size) as usize) * 2
}

/// The used-ring index a submission completes at: one past the last seen
/// (wrapping).
pub fn expected_used_idx(last_used_idx: u16) -> (r: u16)
    ensures
        r == (if last_used_idx == u16::MAX { 0 } else { last_used_idx + 1 }),
{
    last_used_idx.wrapping_add(1)
}

/// What one look at the used ring found.
#[derive(Debug, Clone, Copy, PartialEq, Eq, Structural)]
pub enum PollStep {
    /// The device finished the request.
    Complete,
    /// Not yet; look again.
    Pending,
    /// The polling budget ran out.
    TimedOut,
}

/// One poll of the used ring: complete when its index reached `expected`;
/// otherwise one unit of the remaining budget is spent, and the wait times
/// out when none is left.
pub fn poll_used(used_idx: u16, expected: u16, remaining: &mut u32) -> (r: PollStep)
    requires
        *old(remaining) > 0,
    ensures
        used_idx == expected ==> r == PollStep::Complete && *final(remaining) == *old(remaining),
        used_idx != expected ==> *final(remaining) == *old(remaining) - 1,
        used_idx != expected && *final(remaining) == 0 ==> r == PollStep::TimedOut,
        used_idx != expected && *final(remaining) > 0 ==> r == PollStep::Pending,
{
    if used_idx == expected {
        return PollStep::Complete;
    }
    *remaining = *remaining - 1;
    if *remaining == 0 {
        PollStep::TimedOut
    } else {
        PollStep::Pending
    }
}

} // verus!
