//! VirtIO block requests: the three-descriptor chain of a sector read or
//! write and the meaning of the status byte the device writes back.
use vstd::prelude::*;

use super::virtio_common::{VirtqDesc, VIRTQ_DESC_F_NEXT, VIRTQ_DESC_F_WRITE};

verus! {

/// Request type: read a sector.
pub const VIRTIO_BLK_T_IN: u32 = 0;
/// Request type: write a sector.
pub const VIRTIO_BLK_T_OUT: u32 = 1;
/// Sector size.
pub const SECTOR_SIZE: u32 = 512;
/// Offset of the data buffer in the request page (after the header).
pub const DATA_OFFSET: u64 = 16;
/// Offset of the status byte in the request page (after the data).
pub const STATUS_OFFSET: u64 = 528;

/// Errors of block I/O.
#[derive(Debug, Clone, Copy, PartialEq, Eq, Structural)]
pub enum StorageError {
    /// The device did not complete the request.
    VirtioError,
    /// The device reported a failed request.
    IoError,
}

/// The descriptor chain of a request in the page at `req_phys`: the 16-byte
/// header (device-readable), the 512-byte data buffer (device-writable for
/// a read), and the status byte (device-writable).
pub fn request_chain(req_type: u32, req_phys: u64) -> (r: [VirtqDesc; 3])
    requires
        req_phys + STATUS_OFFSET <= u64::MAX,
    ensures
        r[0] == (VirtqDesc { addr: req_phys, len: 16, flags: VIRTQ_DESC_F_NEXT, next: 1 }),
        r[1] == (VirtqDesc {
            addr: (req_phys + DATA_OFFSET) as u64,
            len: SECTOR_SIZE,
            flags: if req_type == VIRTIO_BLK_T_IN { VIRTQ_DESC_F_NEXT | VIRTQ_DESC_F_WRITE } else { VIRTQ_DESC_F_NEXT },
            next: 2,
        }),
        r[2] == (VirtqDesc { addr: (req_phys + STATUS_OFFSET) as u64, len: 1, flags: VIRTQ_DESC_F_WRITE, next: 0 }),
{
    let data_flags = if req_type == VIRTIO_BLK_T_IN { VIRTQ_DESC_F_NEXT | VIRTQ_DESC_F_WRITE } else { VIRTQ_DESC_F_NEXT };
    [
        VirtqDesc { addr: req_phys, len: 16, flags: VIRTQ_DESC_F_NEXT, next: 1 },
        VirtqDesc { addr: req_phys + DATA_OFFSET, len: SECTOR_SIZE, flags: data_flags, next: 2 },
        VirtqDesc { addr: req_phys + STATUS_OFFSET, len: 1, flags: VIRTQ_DESC_F_WRITE, next: 0 },
    ]
}

/// The outcome a completed request's status byte reports: 0 is success,
/// anything else an I/O error.
pub fn status_result(status: u8) -> (r: Result<(), StorageError>)
    ensures
        status == 0 <==> r is Ok,
        status != 0 ==> r == Err::<(), StorageError>(StorageError::IoError),
{
    if status != 0 {
        return Err(StorageError::IoError);
    }
    Ok(())
}

} // verus!
