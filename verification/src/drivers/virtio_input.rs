//! VirtIO-input event queue bookkeeping and config-space decoding.
//!
//! The device writes 8-byte events into buffers the driver pre-filled on the
//! event queue; the driver walks the used ring, checks each descriptor id the
//! device hands back, and recycles the buffer. The MMIO reads and writes are
//! the caller's; this module decides where to read and what the words mean.
use vstd::prelude::*;

use super::virtio_common::QUEUE_SIZE;

verus! {

/// Why a VirtIO-input device could not be brought up.
#[derive(Debug, Clone, Copy, PartialEq, Eq, Structural)]
pub enum InputError {
    /// Device probe failed (wrong magic, version, or device ID).
    ProbeError,
    /// Device initialization failed.
    InitFailed,
    /// Virtqueue setup failed.
    QueueError,
    /// DMA memory allocation failed.
    OutOfMemory,
}

/// The size the driver gives a queue whose device maximum is `max`: its own
/// `QUEUE_SIZE`, capped at the maximum; `None` when the device offers no
/// such queue (maximum 0).
pub open spec fn queue_size_for(max: u32) -> Option<u16> {
    if max == 0 {
        None
    } else if max < QUEUE_SIZE {
        Some(max as u16)
    } else {
        Some(QUEUE_SIZE)
    }
}

/// The event queue's size for a device maximum of `queue_num_max`;
/// `QueueError` when the device has no event queue (maximum 0), which fails
/// the device's bring-up.
pub fn event_queue_size(queue_num_max: u32) -> (r: Result<u16, InputError>)
    ensures
        queue_num_max == 0 <==> r == Err::<u16, InputError>(InputError::QueueError),
        r matches Ok(n) ==> queue_size_for(queue_num_max) == Some(n),
{
    match status_queue_size(queue_num_max) {
        Some(n) => Ok(n),
        None => Err(InputError::QueueError),
    }
}

/// The status queue's size for a device maximum of `queue_num_max`; `None`
/// when the device has none, which the driver tolerates.
pub fn status_queue_size(queue_num_max: u32) -> (r: Option<u16>)
    ensures
        r == queue_size_for(queue_num_max),
{
    if queue_num_max == 0 {
        None
    } else if queue_num_max < QUEUE_SIZE as u32 {
        Some(queue_num_max as u16)
    } else {
        Some(QUEUE_SIZE)
    }
}

/// Whether a device reports absolute axes: the size of its `EV_ABS` event
/// bitmap in config space is not zero. Only then are the axis limits read.
pub fn reports_abs_axes(ev_abs_size: u8) -> (b: bool)
    ensures
        b == (ev_abs_size > 0),
{
    ev_abs_size > 0
}

/// Devices tracked at once (keyboard, tablet, ...).
pub const MAX_INPUT_DEVICES: usize = 4;

/// Size of one event buffer.
pub const INPUT_EVENT_SIZE: usize = 8;

/// Axis maximum used when no tablet reports one (QEMU's virtio-tablet).
pub const DEFAULT_ABS_MAX: u32 = 32767;

/// What the driver keeps of a device for coordinate conversion.
#[derive(Debug, Clone, Copy, PartialEq, Eq, Structural)]
pub struct InputDeviceInfo {
    /// The device has absolute axes (a tablet).
    pub has_abs: bool,
    pub abs_max_x: u32,
    pub abs_max_y: u32,
}

/// Absolute-axis parameters from config space.
#[derive(Debug, Clone, Copy, PartialEq, Eq, Structural)]
pub struct InputAbsInfo {
    pub min: u32,
    pub max: u32,
    pub fuzz: u32,
    pub flat: u32,
    pub res: u32,
}

/// The driver's position in the event queue's used ring.
#[derive(Debug, Clone, Copy, PartialEq, Eq, Structural)]
pub struct EventQueue {
    /// Used-ring index of the next entry to consume.
    pub last_used_idx: u16,
    /// Negotiated queue size (descriptor count).
    pub queue_size: u16,
}

impl EventQueue {
    /// Where the next used element is, given the device's used index:
    /// `None` when the driver has caught up; otherwise the byte offset of
    /// the element in the used ring (after the 4-byte header, 8 bytes per
    /// element, slot `last_used_idx` modulo the queue size).
    pub fn pending_elem_offset(&self, used_idx: u16) -> (r: Option<usize>)
        requires
            self.queue_size > 0,
        ensures
            r is None <==> used_idx == self.last_used_idx,
            r matches Some(o) ==> o == 4 + (self.last_used_idx % self.queue_size) * 8,
    {
        if self.last_used_idx == used_idx {
            return None;
        }
        Some(4 + ((self.last_used_idx % self.queue_size) as usize) * 8)
    }

    /// Consume the used element that named descriptor `desc_id`: the used
    /// index moves on (wrapping) in any case; the result is the byte offset
    /// of the event buffer to read, or `None` when the id is out of range
    /// (a device bug: the element is skipped and nothing is recycled).
    pub fn consume(&mut self, desc_id: u32) -> (r: Option<usize>)
        ensures
            final(self).queue_size == old(self).queue_size,
            final(self).last_used_idx == (old(self).last_used_idx + 1) % 0x10000,
            r == (if desc_id < old(self).queue_size {
                Some((desc_id * INPUT_EVENT_SIZE) as usize)
            } else {
                None::<usize>
            }),
    {
        self.last_used_idx = self.last_used_idx.wrapping_add(1);
        if desc_id >= self.queue_size as u32 {
            return None;
        }
        Some((desc_id as usize) * INPUT_EVENT_SIZE)
    }
}

/// The axis maxima of device `device_idx`, when it exists and is a tablet.
pub fn get_abs_info(devices: &[Option<InputDeviceInfo>], device_idx: usize) -> (r: Option<(u32, u32)>)
    requires
        device_idx < devices@.len(),
    ensures
        r == (match devices@[device_idx as int] {
            Some(d) => if d.has_abs { Some((d.abs_max_x, d.abs_max_y)) } else { None },
            None => None,
        }),
{
    match &devices[device_idx] {
        Some(d) => if d.has_abs { Some((d.abs_max_x, d.abs_max_y)) } else { None },
        None => None,
    }
}

/// The axis maxima of the first tablet among the first `n` devices.
pub open spec fn first_tablet(devices: Seq<Option<InputDeviceInfo>>, n: int) -> Option<(u32, u32)>
    decreases n,
{
    if n <= 0 {
        None
    } else {
        match first_tablet(devices, n - 1) {
            Some(m) => Some(m),
            None => match devices[n - 1] {
                Some(d) => if d.has_abs { Some((d.abs_max_x, d.abs_max_y)) } else { None },
                None => None,
            },
        }
    }
}

fn first_tablet_maxima(devices: &[Option<InputDeviceInfo>]) -> (r: Option<(u32, u32)>)
    ensures
        r == first_tablet(devices@, devices@.len() as int),
{
    let mut i: usize = 0;
    while i < devices.len()
        invariant
            i <= devices@.len(),
            first_tablet(devices@, i as int) is None,
        decreases devices@.len() - i,
    {
        let found = get_abs_info(devices, i);
        if let Some(m) = found {
            assert(first_tablet(devices@, i + 1) == Some(m));
            proof { lemma_first_tablet_stable(devices@, i + 1, devices@.len() as int); }
            return Some(m);
        }
        i = i + 1;
    }
    None
}

proof fn lemma_first_tablet_stable(devices: Seq<Option<InputDeviceInfo>>, i: int, n: int)
    requires
        0 <= i <= n,
        first_tablet(devices, i) is Some,
    ensures
        first_tablet(devices, n) == first_tablet(devices, i),
    decreases n - i,
{
    if i < n {
        lemma_first_tablet_stable(devices, i, n - 1);
    }
}

/// The X maximum of the first tablet, or 32767 when there is none.
pub fn get_abs_max_x(devices: &[Option<InputDeviceInfo>]) -> (r: u32)
    ensures
        r == (match first_tablet(devices@, devices@.len() as int) {
            Some(m) => m.0,
            None => DEFAULT_ABS_MAX,
        }),
{
    match first_tablet_maxima(devices) {
        Some(m) => m.0,
        None => DEFAULT_ABS_MAX,
    }
}

/// The Y maximum of the first tablet, or 32767 when there is none.
pub fn get_abs_max_y(devices: &[Option<InputDeviceInfo>]) -> (r: u32)
    ensures
        r == (match first_tablet(devices@, devices@.len() as int) {
            Some(m) => m.1,
            None => DEFAULT_ABS_MAX,
        }),
{
    match first_tablet_maxima(devices) {
        Some(m) => m.1,
        None => DEFAULT_ABS_MAX,
    }
}

/// Config query: the device's name.
pub const CFG_ID_NAME: u8 = 0x01;
/// Config query: an absolute axis's parameters.
pub const CFG_ABS_INFO: u8 = 0x12;

/// The word written to the config select register: `select` in byte 0,
/// `subsel` in byte 1.
pub fn config_select_word(select: u8, subsel: u8) -> (w: u32)
    ensures
        w == subsel * 256 + select,
{
    let s = subsel as u32;
    let l = select as u32;
    assert((s << 8u32) | l == s * 256 + l) by (bit_vector)
        requires
            s < 256,
            l < 256,
    ;
    (s << 8u32) | l
}

/// The `size` byte (byte 2) of the config select word read back.
pub fn config_size(word: u32) -> (s: u8)
    ensures
        s == (word / 0x10000) % 256,
{
    assert((word >> 16u32) & 0xffu32 == (word / 0x10000) % 256) by (bit_vector);
    ((word >> 16u32) & 0xff) as u8
}

/// Byte `j` (little-endian) of `w`.
pub open spec fn le_byte(w: u32, j: int) -> u8 {
    if j == 0 {
        (w % 0x100) as u8
    } else if j == 1 {
        ((w / 0x100) % 0x100) as u8
    } else if j == 2 {
        ((w / 0x1_0000) % 0x100) as u8
    } else {
        ((w / 0x100_0000) % 0x100) as u8
    }
}

fn byte_of(w: u32, j: usize) -> (b: u8)
    requires
        j < 4,
    ensures
        b == le_byte(w, j as int),
{
    if j == 0 {
        assert(w & 0xffu32 == w % 0x100) by (bit_vector);
        (w & 0xff) as u8
    } else if j == 1 {
        assert((w >> 8u32) & 0xffu32 == (w / 0x100) % 0x100) by (bit_vector);
        ((w >> 8u32) & 0xff) as u8
    } else if j == 2 {
        assert((w >> 16u32) & 0xffu32 == (w / 0x1_0000) % 0x100) by (bit_vector);
        ((w >> 16u32) & 0xff) as u8
    } else {
        assert((w >> 24u32) & 0xffu32 == (w / 0x100_0000) % 0x100) by (bit_vector);
        ((w >> 24u32) & 0xff) as u8
    }
}

/// The device name from the config data words: `size` bytes (at most 64),
/// little-endian within each word; the rest of the 64-byte buffer is zero.
/// Returns the buffer and the name's length.
pub fn name_from_config(size: u8, words: &[u32]) -> (r: ([u8; 64], u8))
    requires
        words@.len() * 4 >= (if size < 64 { size as int } else { 64 }),
    ensures
        r.1 == (if size < 64 { size } else { 64 }),
        forall|i: int| 0 <= i < r.1 ==> #[trigger] r.0@[i] == le_byte(words@[i / 4], i % 4),
        forall|i: int| r.1 <= i < 64 ==> #[trigger] r.0@[i] == 0,
{
    let copy_len: usize = if size < 64 { size as usize } else { 64 };
    let mut name = [0u8; 64];
    let mut i: usize = 0;
    while i < copy_len
        invariant
            copy_len <= 64,
            copy_len == (if size < 64 { size as int } else { 64 }),
            words@.len() * 4 >= copy_len,
            i <= copy_len,
            forall|k: int| 0 <= k < i ==> #[trigger] name@[k] == le_byte(words@[k / 4], k % 4),
            forall|k: int| i <= k < 64 ==> #[trigger] name@[k] == 0,
        decreases copy_len - i,
    {
        let b = byte_of(words[i / 4], i % 4);
        name[i] = b;
        i = i + 1;
    }
    (name, copy_len as u8)
}

/// The axis parameters from the five config data words, or all zero when
/// the device reported fewer than 20 bytes.
pub fn abs_info_from_config(size: u8, words: [u32; 5]) -> (a: InputAbsInfo)
    ensures
        a == (if size < 20 {
            InputAbsInfo { min: 0, max: 0, fuzz: 0, flat: 0, res: 0 }
        } else {
            InputAbsInfo { min: words@[0], max: words@[1], fuzz: words@[2], flat: words@[3], res: words@[4] }
        }),
{
    if size < 20 {
        return InputAbsInfo { min: 0, max: 0, fuzz: 0, flat: 0, res: 0 };
    }
    InputAbsInfo { min: words[0], max: words[1], fuzz: words[2], flat: words[3], res: words[4] }
}

} // verus!
