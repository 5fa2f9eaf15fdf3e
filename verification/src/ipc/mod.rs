//! IPC: channels with a message ring and synchronous call/reply, word
//! notifications, select, timeouts and shared memory.
use vstd::prelude::*;

pub use crate::task::MAX_THREADS;

pub mod ring;
pub mod timeout;
pub mod notify;
pub mod channel;
pub mod select;
pub mod shmem;
pub mod ops;
pub mod direct;

use crate::ids::ThreadId;
use channel::ChannelTable;
use notify::NotificationTable;
use select::SelectTable;
use shmem::SharedRegionTable;
use timeout::TimeoutTable;

verus! {

/// Maximum IPC message payload in bytes.
pub const MAX_MESSAGE_SIZE: usize = 256;
/// Messages a channel ring holds.
pub const RING_CAPACITY: usize = 16;
/// Channel table size.
pub const MAX_CHANNELS: usize = 64;
/// Default IPC timeout: 5 s of 1 kHz ticks.
pub const DEFAULT_TIMEOUT_TICKS: u64 = 5000;

/// IPC error codes.
#[derive(Debug, Clone, Copy, PartialEq, Eq, Structural)]
pub enum IpcError {
    /// Operation not permitted (missing capability, no current thread).
    Eperm,
    /// Resource temporarily unavailable (ring full, slot busy, nothing to receive).
    Eagain,
    /// Out of memory.
    Enomem,
    /// Permission denied.
    Eacces,
    /// Already exists.
    Eexist,
    /// Invalid argument.
    Einval,
    /// No space (message too large, table full).
    Enospc,
    /// Broken pipe (channel destroyed or endpoint dead).
    Epipe,
    /// Protocol error (reply without a pending call).
    Eproto,
    /// Timed out.
    Etimedout,
    /// Canceled.
    Ecanceled,
}

impl IpcError {
    /// The negative errno value reported to callers.
    pub open spec fn spec_code(self) -> int {
        match self {
            IpcError::Eperm => -1,
            IpcError::Eagain => -11,
            IpcError::Enomem => -12,
            IpcError::Eacces => -13,
            IpcError::Eexist => -17,
            IpcError::Einval => -22,
            IpcError::Enospc => -28,
            IpcError::Epipe => -32,
            IpcError::Eproto => -71,
            IpcError::Etimedout => -110,
            IpcError::Ecanceled => -125,
        }
    }

    /// The negative errno value reported to callers.
    pub fn code(self) -> (r: i64)
        ensures
            r == self.spec_code(),
    {
        match self {
            IpcError::Eperm => -1,
            IpcError::Eagain => -11,
            IpcError::Enomem => -12,
            IpcError::Eacces => -13,
            IpcError::Eexist => -17,
            IpcError::Einval => -22,
            IpcError::Enospc => -28,
            IpcError::Epipe => -32,
            IpcError::Eproto => -71,
            IpcError::Etimedout => -110,
            IpcError::Ecanceled => -125,
        }
    }
}

/// Where a blocked caller wants its reply: the capacity of its reply
/// buffer and, once the reply came, the bytes written and the reply bytes
/// themselves (the first `bytes_written` of `data`), which the caller's
/// finishing half copies into its buffer.
#[derive(Debug, Clone, Copy)]
pub struct ReplySlot {
    pub buf_len: usize,
    pub bytes_written: usize,
    pub data: [u8; 256],
}

/// Slot `s2` is slot `s` after a reply with bytes `reply`: as many bytes as
/// the reply and the buffer both hold are written, and they are the reply's.
pub open spec fn replied(s: ReplySlot, reply: Seq<u8>, s2: ReplySlot) -> bool {
    let n = if reply.len() < s.buf_len { reply.len() as int } else { s.buf_len as int };
    &&& s2.buf_len == s.buf_len
    &&& s2.bytes_written == n
    &&& s2.data@.subrange(0, n) == reply.subrange(0, n)
}

/// A caller's buffer went from `before` to `after`, `r` bytes long, taking
/// the reply in slot `s`: as many of the written bytes as fit are copied
/// to the front, the rest of the buffer is kept.
pub open spec fn took_reply(s: ReplySlot, before: Seq<u8>, after: Seq<u8>, r: int) -> bool {
    &&& r == (if s.bytes_written < before.len() { s.bytes_written as int } else { before.len() as int })
    &&& after.len() == before.len()
    &&& after.subrange(0, r) == s.data@.subrange(0, r)
    &&& after.subrange(r, after.len() as int) == before.subrange(r, before.len() as int)
}

/// All IPC state: channels, notifications, select registrations, timeouts
/// and wakeup errors, reply slots, and shared-memory regions.
pub struct KernelIpc {
    pub channels: ChannelTable,
    pub notifications: NotificationTable,
    pub selects: SelectTable,
    pub timeouts: TimeoutTable,
    pub reply_slots: Vec<Option<ReplySlot>>,
    pub regions: SharedRegionTable,
}

impl KernelIpc {
    pub open spec fn wf(&self) -> bool {
        &&& self.channels.wf()
        &&& self.notifications.wf()
        &&& self.selects.wf()
        &&& self.timeouts.wf()
        &&& self.reply_slots@.len() == MAX_THREADS
        &&& forall|i: int| 0 <= i < MAX_THREADS ==> (#[trigger] self.reply_slots@[i] matches Some(s) ==> s.bytes_written
            <= MAX_MESSAGE_SIZE)
        &&& self.regions.wf()
    }

    /// Empty tables.
    pub fn new() -> (k: KernelIpc)
        ensures
            k.wf(),
            forall|i: int| 0 <= i < MAX_CHANNELS ==> k.channels.slots@[i] is None,
            forall|i: int| 0 <= i < MAX_THREADS ==> k.reply_slots@[i] is None,
    {
        let mut reply_slots: Vec<Option<ReplySlot>> = Vec::new();
        let mut i: usize = 0;
        while i < MAX_THREADS
            invariant
                i <= MAX_THREADS,
                reply_slots@.len() == i,
                forall|j: int| 0 <= j < i ==> reply_slots@[j] is None,
            decreases MAX_THREADS - i,
        {
            reply_slots.push(None);
            i = i + 1;
        }
        KernelIpc {
            channels: ChannelTable::new(),
            notifications: NotificationTable::new(),
            selects: SelectTable::new(),
            timeouts: TimeoutTable::new(),
            reply_slots,
            regions: SharedRegionTable::new(),
        }
    }
}

} // verus!
