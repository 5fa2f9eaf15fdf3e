//! Fixed-capacity FIFO ring of IPC messages.
use vstd::prelude::*;

use crate::ids::ThreadId;
use super::{MAX_MESSAGE_SIZE, RING_CAPACITY};

verus! {

/// One IPC message: sender plus `len` payload bytes.
#[derive(Debug, Clone, Copy)]
pub struct RawMessage {
    pub sender: ThreadId,
    pub len: usize,
    pub data: [u8; 256],
}

impl RawMessage {
    /// The payload bytes.
    pub open spec fn payload(&self) -> Seq<u8> {
        self.data@.subrange(0, self.len as int)
    }

    /// `len` fits the payload array.
    pub open spec fn wf(&self) -> bool {
        self.len <= MAX_MESSAGE_SIZE
    }

    /// The empty message.
    pub fn empty() -> (m: RawMessage)
        ensures
            m.wf(),
            m.len == 0,
            m.sender == ThreadId(0),
            forall|i: int| 0 <= i < 256 ==> m.data@[i] == 0,
    {
        RawMessage { sender: ThreadId(0), len: 0, data: [0u8; 256] }
    }

    /// A message from `sender` carrying `payload`.
    pub fn new(sender: ThreadId, payload: &[u8]) -> (m: RawMessage)
        requires
            payload@.len() <= MAX_MESSAGE_SIZE,
        ensures
            m.wf(),
            m.sender == sender,
            m.len == payload@.len(),
            m.payload() == payload@,
    {
        let mut data = [0u8; 256];
        let mut i: usize = 0;
        while i < payload.len()
            invariant
                payload@.len() <= 256,
                i <= payload@.len(),
                data@.len() == 256,
                forall|j: int| 0 <= j < i ==> data@[j] == payload@[j],
            decreases payload@.len() - i,
        {
            data[i] = payload[i];
            i = i + 1;
        }
        let m = RawMessage { sender, len: payload.len(), data };
        assert(m.payload() =~= payload@);
        m
    }
}

/// Fixed-capacity FIFO ring of messages.
pub struct MessageRing {
    entries: Vec<RawMessage>,
    head: usize,
    tail: usize,
    len: usize,
}

impl View for MessageRing {
    type V = Seq<RawMessage>;

    /// Queued messages, oldest first.
    closed spec fn view(&self) -> Seq<RawMessage> {
        Seq::new(self.len as nat, |i: int| self.entries@[(self.head + i) % (RING_CAPACITY as int)])
    }
}

impl MessageRing {
    pub closed spec fn wf(&self) -> bool {
        &&& self.entries@.len() == RING_CAPACITY
        &&& self.head < RING_CAPACITY
        &&& self.tail < RING_CAPACITY
        &&& self.len <= RING_CAPACITY
        &&& self.tail == (self.head + self.len) % (RING_CAPACITY as int)
        &&& forall|i: int| 0 <= i < RING_CAPACITY ==> (#[trigger] self.entries@[i]).wf()
    }

    /// An empty ring.
    pub fn new() -> (r: MessageRing)
        ensures
            r.wf(),
            r@ == Seq::<RawMessage>::empty(),
    {
        let mut entries: Vec<RawMessage> = Vec::new();
        let mut i: usize = 0;
        while i < RING_CAPACITY
            invariant
                i <= RING_CAPACITY,
                entries@.len() == i,
                forall|j: int| 0 <= j < i ==> (#[trigger] entries@[j]).wf(),
            decreases RING_CAPACITY - i,
        {
            entries.push(RawMessage::empty());
            i = i + 1;
        }
        let r = MessageRing { entries, head: 0, tail: 0, len: 0 };
        assert(r@ =~= Seq::<RawMessage>::empty());
        r
    }

    /// Append `msg`; `false` (ring unchanged) when the ring is full.
    pub fn push(&mut self, msg: RawMessage) -> (ok: bool)
        requires
            old(self).wf(),
            msg.wf(),
        ensures
            final(self).wf(),
            ok == (old(self)@.len() < RING_CAPACITY),
            ok ==> final(self)@ == old(self)@.push(msg),
            !ok ==> *final(self) == *old(self),
    {
        if self.len >= RING_CAPACITY {
            return false;
        }
        let ghost old_view = self@;
        self.entries.set(self.tail, msg);
        self.tail = (self.tail + 1) % RING_CAPACITY;
        self.len = self.len + 1;
        proof {
            assert forall|i: int| 0 <= i < self.len implies self@[i] == old_view.push(msg)[i] by {
                if i < self.len - 1 {
                    assert((self.head + i) % 16 != (self.head + (self.len - 1)) % 16);
                }
            }
            assert(self@ =~= old_view.push(msg));
        }
        true
    }

    /// Remove and return the oldest message; `None` when empty.
    pub fn pop(&mut self) -> (r: Option<RawMessage>)
        requires
            old(self).wf(),
        ensures
            final(self).wf(),
            old(self)@.len() == 0 ==> r is None && *final(self) == *old(self),
            old(self)@.len() > 0 ==> r == Some(old(self)@[0]) && final(self)@ == old(self)@.drop_first(),
            r matches Some(m) ==> m.wf(),
    {
        if self.len == 0 {
            return None;
        }
        let msg = self.entries[self.head];
        let ghost old_view = self@;
        self.head = (self.head + 1) % RING_CAPACITY;
        self.len = self.len - 1;
        proof {
            assert forall|i: int| 0 <= i < self.len implies self@[i] == old_view.drop_first()[i] by {
                assert((self.head + i) % 16 == (old(self).head + (i + 1)) % 16);
            }
            assert(self@ =~= old_view.drop_first());
        }
        Some(msg)
    }

    /// True when no message is queued.
    pub fn is_empty(&self) -> (r: bool)
        requires
            self.wf(),
        ensures
            r == (self@.len() == 0),
    {
        self.len == 0
    }

    /// Number of queued messages.
    pub fn len(&self) -> (r: usize)
        requires
            self.wf(),
        ensures
            r == self@.len(),
    {
        self.len
    }
}

} // verus!
