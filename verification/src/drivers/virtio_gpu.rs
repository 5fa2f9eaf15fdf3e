//! VirtIO-GPU 2D protocol checks: reading the control header of a device
//! response and picking the display mode from a display-info response.
use vstd::prelude::*;

use super::virtio_common::{VirtqDesc, VIRTQ_DESC_F_NEXT, VIRTQ_DESC_F_WRITE, VIRT_PAGE_SIZE};

verus! {

/// Errors of the GPU driver and service.
#[derive(Debug, Clone, Copy, PartialEq, Eq, Structural)]
pub enum GpuError {
    /// No GPU device, or the operation needs a mode that is not set up.
    DeviceNotFound,
    /// The device answered with an error, or the request was malformed.
    CommandFailed,
    /// No such resource, or a rectangle outside it.
    InvalidResource,
    /// No memory or no free buffer slot.
    OutOfMemory,
    /// The device did not answer in time.
    Timeout,
}

/// Response type: success without data.
pub const VIRTIO_GPU_RESP_OK_NODATA: u32 = 0x1100;
/// Response type: success with display information.
pub const VIRTIO_GPU_RESP_OK_DISPLAY_INFO: u32 = 0x1101;
/// Scanouts a display-info response describes.
pub const VIRTIO_GPU_MAX_SCANOUTS: usize = 16;
/// Size of the control header that starts every message.
pub const CTRL_HDR_SIZE: usize = 24;
/// Size of one scanout record (rectangle, enabled, flags).
pub const DISPLAY_ONE_SIZE: usize = 24;
/// Size of a display-info response.
pub const RESP_DISPLAY_INFO_SIZE: usize = 408;
/// Display used when no scanout is enabled.
pub const FALLBACK_WIDTH: u32 = 1024;
/// Display used when no scanout is enabled.
pub const FALLBACK_HEIGHT: u32 = 768;

/// The little-endian `u32` at byte `off` of `b`.
pub open spec fn le_u32(b: Seq<u8>, off: int) -> int {
    b[off] + 256 * b[off + 1] + 65536 * b[off + 2] + 16777216 * b[off + 3]
}

/// Read the little-endian `u32` at byte `off`.
pub fn read_le_u32(b: &[u8], off: usize) -> (r: u32)
    requires
        off + 4 <= b@.len(),
    ensures
        r == le_u32(b@, off as int),
{
    (b[off] as u32) + (b[off + 1] as u32) * 256 + (b[off + 2] as u32) * 65536 + (b[off + 3] as u32) * 16777216
}

/// Whether a response to a control command reports success: its type (the
/// first little-endian word) is `OK_NODATA` or `OK_DISPLAY_INFO`;
/// `CommandFailed` otherwise, or when it is shorter than a word.
pub fn check_response(resp: &[u8]) -> (r: Result<(), GpuError>)
    ensures
        r is Ok <==> (resp@.len() >= 4 && (le_u32(resp@, 0) == VIRTIO_GPU_RESP_OK_NODATA || le_u32(resp@, 0)
            == VIRTIO_GPU_RESP_OK_DISPLAY_INFO)),
        r is Err ==> r == Err::<(), GpuError>(GpuError::CommandFailed),
{
    if resp.len() < 4 {
        return Err(GpuError::CommandFailed);
    }
    let type_ = read_le_u32(resp, 0);
    if type_ == VIRTIO_GPU_RESP_OK_NODATA || type_ == VIRTIO_GPU_RESP_OK_DISPLAY_INFO {
        Ok(())
    } else {
        Err(GpuError::CommandFailed)
    }
}

/// Pixel layouts the driver uses.
#[derive(Debug, Clone, Copy, PartialEq, Eq, Structural)]
pub enum GpuPixelFormat {
    /// Blue, green, red, alpha; one byte each.
    B8G8R8A8,
}

impl GpuPixelFormat {
    /// Bytes per pixel.
    pub fn bytes_per_pixel(self) -> (r: u32)
        ensures
            r == 4,
    {
        match self {
            GpuPixelFormat::B8G8R8A8 => 4,
        }
    }
}

/// The display mode in use.
#[derive(Debug, Clone, Copy, PartialEq, Eq, Structural)]
pub struct DisplayInfo {
    pub width: u32,
    pub height: u32,
    pub format: GpuPixelFormat,
    pub scanout_id: u32,
}

/// Byte offset of scanout `i`'s record in a display-info response.
pub open spec fn scanout_off(i: int) -> int {
    CTRL_HDR_SIZE + DISPLAY_ONE_SIZE * i
}

/// Scanout `i` is enabled and has a non-empty rectangle (fields at 8 and
/// 12 of its record are width and height, 16 is `enabled`).
pub open spec fn scanout_usable(b: Seq<u8>, i: int) -> bool {
    &&& le_u32(b, scanout_off(i) + 16) != 0
    &&& le_u32(b, scanout_off(i) + 8) > 0
    &&& le_u32(b, scanout_off(i) + 12) > 0
}

/// The display mode that a display-info response describes: the first
/// usable scanout, or 1024x768 on scanout 0 when there is none.
pub fn display_info_from_response(resp: &[u8]) -> (d: DisplayInfo)
    requires
        resp@.len() >= RESP_DISPLAY_INFO_SIZE,
    ensures
        d.format == GpuPixelFormat::B8G8R8A8,
        (forall|i: int| 0 <= i < VIRTIO_GPU_MAX_SCANOUTS ==> !#[trigger] scanout_usable(resp@, i)) ==> d == (DisplayInfo {
            width: FALLBACK_WIDTH,
            height: FALLBACK_HEIGHT,
            format: GpuPixelFormat::B8G8R8A8,
            scanout_id: 0,
        }),
        (exists|i: int| 0 <= i < VIRTIO_GPU_MAX_SCANOUTS && #[trigger] scanout_usable(resp@, i)) ==> {
            let k = d.scanout_id as int;
            &&& 0 <= k < VIRTIO_GPU_MAX_SCANOUTS
            &&& scanout_usable(resp@, k)
            &&& forall|j: int| 0 <= j < k ==> !#[trigger] scanout_usable(resp@, j)
            &&& d.width == le_u32(resp@, scanout_off(k) + 8)
            &&& d.height == le_u32(resp@, scanout_off(k) + 12)
        },
{
    let mut i: usize = 0;
    while i < VIRTIO_GPU_MAX_SCANOUTS
        invariant
            i <= VIRTIO_GPU_MAX_SCANOUTS,
            resp@.len() >= RESP_DISPLAY_INFO_SIZE,
            forall|j: int| 0 <= j < i ==> !#[trigger] scanout_usable(resp@, j),
        decreases VIRTIO_GPU_MAX_SCANOUTS - i,
    {
        let off = CTRL_HDR_SIZE + DISPLAY_ONE_SIZE * i;
        let width = read_le_u32(resp, off + 8);
        let height = read_le_u32(resp, off + 12);
        let enabled = read_le_u32(resp, off + 16);
        if enabled != 0 && width > 0 && height > 0 {
            assert(scanout_usable(resp@, i as int));
            return DisplayInfo { width, height, format: GpuPixelFormat::B8G8R8A8, scanout_id: i as u32 };
        }
        i = i + 1;
    }
    DisplayInfo { width: FALLBACK_WIDTH, height: FALLBACK_HEIGHT, format: GpuPixelFormat::B8G8R8A8, scanout_id: 0 }
}


/// Offset in the command page where the response area starts.
pub const RESP_OFFSET: usize = 2048;

/// The descriptor chain of a control command: the command at the start of
/// the command page (device-readable), then the response area at
/// `RESP_OFFSET` (device-writable).
pub fn command_chain(cmd_phys: u64, cmd_len: usize, resp_len: usize) -> (r: [VirtqDesc; 2])
    requires
        cmd_len <= RESP_OFFSET,
        resp_len <= VIRT_PAGE_SIZE - RESP_OFFSET,
        cmd_phys + RESP_OFFSET <= u64::MAX,
    ensures
        r[0] == (VirtqDesc { addr: cmd_phys, len: cmd_len as u32, flags: VIRTQ_DESC_F_NEXT, next: 1 }),
        r[1] == (VirtqDesc { addr: (cmd_phys + RESP_OFFSET) as u64, len: resp_len as u32, flags: VIRTQ_DESC_F_WRITE, next: 0 }),
{
    [
        VirtqDesc { addr: cmd_phys, len: cmd_len as u32, flags: VIRTQ_DESC_F_NEXT, next: 1 },
        VirtqDesc { addr: cmd_phys + RESP_OFFSET as u64, len: resp_len as u32, flags: VIRTQ_DESC_F_WRITE, next: 0 },
    ]
}

/// The descriptor chain of a control command followed by a data block: the
/// command, the block right after it (both device-readable), then the
/// response area (device-writable).
pub fn command_chain_with_extra(cmd_phys: u64, cmd_len: usize, extra_len: usize, resp_len: usize) -> (r: [VirtqDesc; 3])
    requires
        cmd_len + extra_len <= RESP_OFFSET,
        resp_len <= VIRT_PAGE_SIZE - RESP_OFFSET,
        cmd_phys + RESP_OFFSET <= u64::MAX,
    ensures
        r[0] == (VirtqDesc { addr: cmd_phys, len: cmd_len as u32, flags: VIRTQ_DESC_F_NEXT, next: 1 }),
        r[1] == (VirtqDesc { addr: (cmd_phys + cmd_len) as u64, len: extra_len as u32, flags: VIRTQ_DESC_F_NEXT, next: 2 }),
        r[2] == (VirtqDesc { addr: (cmd_phys + RESP_OFFSET) as u64, len: resp_len as u32, flags: VIRTQ_DESC_F_WRITE, next: 0 }),
{
    [
        VirtqDesc { addr: cmd_phys, len: cmd_len as u32, flags: VIRTQ_DESC_F_NEXT, next: 1 },
        VirtqDesc { addr: cmd_phys + cmd_len as u64, len: extra_len as u32, flags: VIRTQ_DESC_F_NEXT, next: 2 },
        VirtqDesc { addr: cmd_phys + RESP_OFFSET as u64, len: resp_len as u32, flags: VIRTQ_DESC_F_WRITE, next: 0 },
    ]
}

} // verus!
