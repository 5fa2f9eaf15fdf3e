//! The channel table: two-endpoint channels with a request ring, one waiting
//! receiver and one pending caller each. These are the state changes of the
//! channel operations; blocking and waking threads is the scheduler's part.
use vstd::prelude::*;

use crate::ids::{CapabilityTokenId, ChannelId, ThreadId};
use super::ring::{MessageRing, RawMessage};
use super::{IpcError, MAX_CHANNELS, MAX_THREADS};

verus! {

/// State of one channel endpoint.
#[derive(Debug, Clone, Copy, PartialEq, Eq, Structural)]
pub enum EndpointState {
    Active,
    Dead,
}

/// A bidirectional channel. Endpoint A belongs to the creator, endpoint B to
/// the peer. The ring holds requests and asynchronous sends.
pub struct Channel {
    pub id: ChannelId,
    pub state_a: EndpointState,
    pub state_b: EndpointState,
    pub owner_a: ThreadId,
    pub owner_b: Option<ThreadId>,
    pub ring: MessageRing,
    /// Thread blocked receiving on this channel.
    pub waiting_receiver: Option<ThreadId>,
    /// Thread blocked in a call, waiting for the reply.
    pub pending_caller: Option<ThreadId>,
    /// Token that authorized the creation; revoking it destroys the channel.
    pub creation_cap: Option<CapabilityTokenId>,
}

/// `t` is absent or names a slot of the thread table.
pub open spec fn tid_ok(t: Option<ThreadId>) -> bool {
    t matches Some(x) ==> (x.0 as int) < MAX_THREADS
}

impl Channel {
    /// The ring is well formed and recorded threads are real thread slots.
    pub open spec fn wf(&self) -> bool {
        &&& self.ring.wf()
        &&& tid_ok(self.waiting_receiver)
        &&& tid_ok(self.pending_caller)
    }

    /// True when either endpoint is dead.
    pub open spec fn is_dead(&self) -> bool {
        self.state_a == EndpointState::Dead || self.state_b == EndpointState::Dead
    }

    /// A fresh channel: both endpoints active, nothing queued or waiting.
    pub fn new(id: ChannelId, owner_a: ThreadId) -> (c: Channel)
        ensures
            c.id == id,
            c.state_a == EndpointState::Active,
            c.state_b == EndpointState::Active,
            c.owner_a == owner_a,
            c.owner_b is None,
            c.ring.wf(),
            c.ring@.len() == 0,
            c.waiting_receiver is None,
            c.pending_caller is None,
            c.creation_cap is None,
    {
        Channel {
            id,
            state_a: EndpointState::Active,
            state_b: EndpointState::Active,
            owner_a,
            owner_b: None,
            ring: MessageRing::new(),
            waiting_receiver: None,
            pending_caller: None,
            creation_cap: None,
        }
    }
}

/// What a receive found.
pub enum RecvOutcome {
    /// The oldest queued message.
    Message(RawMessage),
    /// Nothing queued: the thread is now the channel's waiting receiver.
    Blocked,
}

/// Copy the payload of `msg` into `buf`, as much as fits; the number of bytes
/// copied.
pub fn deliver(msg: &RawMessage, buf: &mut [u8]) -> (n: usize)
    requires
        msg.wf(),
    ensures
        n == if msg.len < old(buf)@.len() { msg.len as int } else { old(buf)@.len() as int },
        final(buf)@.len() == old(buf)@.len(),
        final(buf)@.subrange(0, n as int) == msg.payload().subrange(0, n as int),
        final(buf)@.subrange(n as int, final(buf)@.len() as int) == old(buf)@.subrange(n as int, old(buf)@.len() as int),
{
    let n = if msg.len < buf.len() { msg.len } else { buf.len() };
    let mut i: usize = 0;
    while i < n
        invariant
            n <= buf@.len(),
            n <= msg.len <= 256,
            i <= n,
            buf@.len() == old(buf)@.len(),
            forall|j: int| 0 <= j < i ==> buf@[j] == msg.data@[j],
            forall|j: int| n <= j < buf@.len() ==> buf@[j] == old(buf)@[j],
        decreases n - i,
    {
        buf[i] = msg.data[i];
        i = i + 1;
    }
    proof {
        assert(buf@.subrange(0, n as int) =~= msg.payload().subrange(0, n as int));
        assert(buf@.subrange(n as int, buf@.len() as int) =~= old(buf)@.subrange(n as int, old(buf)@.len() as int));
    }
    n
}

/// The channel table.
pub struct ChannelTable {
    pub slots: Vec<Option<Channel>>,
}

/// The slots of `a` and `b` agree except at `k`.
pub open spec fn same_except(a: Seq<Option<Channel>>, b: Seq<Option<Channel>>, k: int) -> bool {
    &&& a.len() == b.len()
    &&& forall|j: int| 0 <= j < a.len() && j != k ==> #[trigger] a[j] == b[j]
}

/// The ids of the channels among the first `n` slots that were created
/// under `token`, in slot order.
pub open spec fn created_under_prefix(slots: Seq<Option<Channel>>, token: CapabilityTokenId, n: int) -> Seq<ChannelId>
    decreases n,
{
    if n <= 0 {
        Seq::empty()
    } else {
        let rest = created_under_prefix(slots, token, n - 1);
        if slots[n - 1] matches Some(ch) && ch.creation_cap == Some(token) {
            rest.push(ChannelId((n - 1) as u32))
        } else {
            rest
        }
    }
}

impl ChannelTable {
    pub open spec fn wf(&self) -> bool {
        &&& self.slots@.len() == MAX_CHANNELS
        &&& forall|i: int| 0 <= i < MAX_CHANNELS ==> (#[trigger] self.slots@[i] matches Some(c) ==> c.wf() && c.id.0 == i)
    }

    /// The channel `c`, if it exists.
    pub open spec fn chan(&self, c: ChannelId) -> Option<Channel> {
        self.slots@[c.0 as int]
    }

    /// An empty table.
    pub fn new() -> (t: ChannelTable)
        ensures
            t.wf(),
            forall|i: int| 0 <= i < MAX_CHANNELS ==> t.slots@[i] is None,
    {
        let mut slots: Vec<Option<Channel>> = Vec::new();
        let mut i: usize = 0;
        while i < MAX_CHANNELS
            invariant
                i <= MAX_CHANNELS,
                slots@.len() == i,
                forall|j: int| 0 <= j < i ==> slots@[j] is None,
            decreases MAX_CHANNELS - i,
        {
            slots.push(None);
            i = i + 1;
        }
        ChannelTable { slots }
    }

    /// Take channel `c` out of its slot (the slot becomes empty).
    fn take(&mut self, c: ChannelId) -> (ch: Option<Channel>)
        requires
            old(self).wf(),
            (c.0 as int) < MAX_CHANNELS,
        ensures
            ch == old(self).chan(c),
            final(self).slots@ == old(self).slots@.update(c.0 as int, None),
            final(self).wf(),
            ch matches Some(x) ==> x.wf() && x.id == c,
    {
        let mut taken: Option<Channel> = None;
        self.slots.set_and_swap(c.0 as usize, &mut taken);
        proof {
            assert(old(self).slots@[c.0 as int] matches Some(x) ==> x.wf() && x.id.0 == c.0);
            assert forall|j: int| 0 <= j < MAX_CHANNELS && j != c.0 implies self.slots@[j] == old(self).slots@[j] by {}
        }
        taken
    }

    /// Put channel `ch` into the slot of `c`.
    fn put(&mut self, c: ChannelId, ch: Channel)
        requires
            old(self).wf(),
            (c.0 as int) < MAX_CHANNELS,
            ch.wf(),
            ch.id == c,
        ensures
            final(self).slots@ == old(self).slots@.update(c.0 as int, Some(ch)),
            final(self).wf(),
    {
        let mut put = Some(ch);
        self.slots.set_and_swap(c.0 as usize, &mut put);
        proof {
            assert forall|j: int| 0 <= j < MAX_CHANNELS && j != c.0 implies self.slots@[j] == old(self).slots@[j] by {}
        }
    }

    /// Create a channel owned by `owner` in the first free slot, recording
    /// the token that authorized it; `Enospc` when the table is full.
    pub fn create(&mut self, owner: ThreadId, creation_cap: Option<CapabilityTokenId>) -> (r: Result<ChannelId, IpcError>)
        requires
            old(self).wf(),
        ensures
            final(self).wf(),
            (forall|i: int| 0 <= i < MAX_CHANNELS ==> old(self).slots@[i] is Some) <==> r is Err,
            r is Err ==> r == Err::<ChannelId, IpcError>(IpcError::Enospc) && final(self).slots@ == old(self).slots@,
            r matches Ok(id) ==> {
                &&& (id.0 as int) < MAX_CHANNELS
                &&& old(self).slots@[id.0 as int] is None
                &&& forall|j: int| 0 <= j < id.0 ==> old(self).slots@[j] is Some
                &&& same_except(final(self).slots@, old(self).slots@, id.0 as int)
                &&& final(self).chan(id) matches Some(c) && c.id == id && c.owner_a == owner && c.owner_b is None
                    && c.state_a == EndpointState::Active && c.state_b == EndpointState::Active
                    && c.ring@.len() == 0 && c.waiting_receiver is None && c.pending_caller is None
                    && c.creation_cap == creation_cap
            },
    {
        let mut i: usize = 0;
        while i < MAX_CHANNELS
            invariant
                i <= MAX_CHANNELS,
                self.wf(),
                self.slots@ == old(self).slots@,
                forall|j: int| 0 <= j < i ==> self.slots@[j] is Some,
            decreases MAX_CHANNELS - i,
        {
            if self.slots[i].is_none() {
                let id = ChannelId(i as u32);
                let mut ch = Channel::new(id, owner);
                ch.creation_cap = creation_cap;
                self.put(id, ch);
                return Ok(id);
            }
            i = i + 1;
        }
        Err(IpcError::Enospc)
    }

    /// Assign the peer endpoint of `c` to `peer`; `Epipe` for a missing channel.
    pub fn set_peer(&mut self, c: ChannelId, peer: ThreadId) -> (r: Result<(), IpcError>)
        requires
            old(self).wf(),
            (c.0 as int) < MAX_CHANNELS,
        ensures
            final(self).wf(),
            old(self).chan(c) is None ==> r == Err::<(), IpcError>(IpcError::Epipe) && final(self).slots@ == old(self).slots@,
            old(self).chan(c) matches Some(ch) ==> r is Ok
                && final(self).slots@ == old(self).slots@.update(c.0 as int, Some(Channel { owner_b: Some(peer), ..ch })),
    {
        match self.take(c) {
            None => {
                proof {
                    assert(self.slots@ =~= old(self).slots@);
                }
                Err(IpcError::Epipe)
            },
            Some(mut ch) => {
                ch.owner_b = Some(peer);
                self.put(c, ch);
                Ok(())
            },
        }
    }

    /// Remove channel `c`. Returns its waiting receiver and pending caller,
    /// which must be woken with `Epipe`; `Epipe` itself for a missing channel.
    pub fn destroy(&mut self, c: ChannelId) -> (r: Result<(Option<ThreadId>, Option<ThreadId>), IpcError>)
        requires
            old(self).wf(),
            (c.0 as int) < MAX_CHANNELS,
        ensures
            final(self).wf(),
            final(self).slots@ == old(self).slots@.update(c.0 as int, None),
            old(self).chan(c) is None ==> r == Err::<(Option<ThreadId>, Option<ThreadId>), IpcError>(IpcError::Epipe),
            old(self).chan(c) matches Some(ch) ==> r == Ok::<(Option<ThreadId>, Option<ThreadId>), IpcError>(
                (ch.waiting_receiver, ch.pending_caller),
            ),
            r matches Ok((a, b)) ==> tid_ok(a) && tid_ok(b),
    {
        match self.take(c) {
            None => Err(IpcError::Epipe),
            Some(ch) => Ok((ch.waiting_receiver, ch.pending_caller)),
        }
    }

    /// Asynchronous send of `msg` on `c`: queue it and hand back the waiting
    /// receiver (no longer waiting), which the caller wakes. `Epipe` for a
    /// missing or dead channel, `Eagain` when the ring is full.
    pub fn send(&mut self, c: ChannelId, msg: RawMessage) -> (r: Result<Option<ThreadId>, IpcError>)
        requires
            old(self).wf(),
            (c.0 as int) < MAX_CHANNELS,
            msg.wf(),
        ensures
            final(self).wf(),
            r matches Ok(t) ==> tid_ok(t),
            r is Err ==> final(self).slots@ == old(self).slots@,
            old(self).chan(c) is None ==> r == Err::<Option<ThreadId>, IpcError>(IpcError::Epipe),
            old(self).chan(c) matches Some(ch) ==> {
                &&& ch.is_dead() ==> r == Err::<Option<ThreadId>, IpcError>(IpcError::Epipe)
                &&& (!ch.is_dead() && ch.ring@.len() >= super::RING_CAPACITY) ==> r == Err::<
                    Option<ThreadId>,
                    IpcError,
                >(IpcError::Eagain)
                &&& (!ch.is_dead() && ch.ring@.len() < super::RING_CAPACITY) ==> {
                    &&& r == Ok::<Option<ThreadId>, IpcError>(ch.waiting_receiver)
                    &&& final(self).chan(c) matches Some(d)
                    &&& d.ring@ == ch.ring@.push(msg)
                    &&& d == Channel { ring: d.ring, waiting_receiver: None, ..ch }
                    &&& same_except(final(self).slots@, old(self).slots@, c.0 as int)
                }
            },
    {
        match self.take(c) {
            None => {
                proof {
                    assert(self.slots@ =~= old(self).slots@);
                }
                Err(IpcError::Epipe)
            },
            Some(mut ch) => {
                if ch.state_a == EndpointState::Dead || ch.state_b == EndpointState::Dead {
                    self.put(c, ch);
                    proof {
                        assert(self.slots@ =~= old(self).slots@);
                    }
                    return Err(IpcError::Epipe);
                }
                if !ch.ring.push(msg) {
                    self.put(c, ch);
                    proof {
                        assert(self.slots@ =~= old(self).slots@);
                    }
                    return Err(IpcError::Eagain);
                }
                let recv = ch.waiting_receiver;
                ch.waiting_receiver = None;
                self.put(c, ch);
                Ok(recv)
            },
        }
    }
    /// The request half of a synchronous call by `caller` on `c`: queue `msg`,
    /// make `caller` the pending caller, and hand back the waiting receiver
    /// (no longer waiting). `Epipe` for a missing or dead channel, `Eagain`
    /// when another call is pending, `Enospc` when the ring is full.
    pub fn call_enqueue(&mut self, c: ChannelId, caller: ThreadId, msg: RawMessage) -> (r: Result<Option<ThreadId>, IpcError>)
        requires
            old(self).wf(),
            (caller.0 as int) < MAX_THREADS,
            (c.0 as int) < MAX_CHANNELS,
            msg.wf(),
        ensures
            final(self).wf(),
            r matches Ok(t) ==> tid_ok(t),
            r is Err ==> final(self).slots@ == old(self).slots@,
            old(self).chan(c) is None ==> r == Err::<Option<ThreadId>, IpcError>(IpcError::Epipe),
            old(self).chan(c) matches Some(ch) ==> {
                &&& ch.is_dead() ==> r == Err::<Option<ThreadId>, IpcError>(IpcError::Epipe)
                &&& (!ch.is_dead() && ch.pending_caller is Some) ==> r == Err::<Option<ThreadId>, IpcError>(IpcError::Eagain)
                &&& (!ch.is_dead() && ch.pending_caller is None && ch.ring@.len() >= super::RING_CAPACITY) ==> r == Err::<
                    Option<ThreadId>,
                    IpcError,
                >(IpcError::Enospc)
                &&& (!ch.is_dead() && ch.pending_caller is None && ch.ring@.len() < super::RING_CAPACITY) ==> {
                    &&& r == Ok::<Option<ThreadId>, IpcError>(ch.waiting_receiver)
                    &&& final(self).chan(c) matches Some(d)
                    &&& d.ring@ == ch.ring@.push(msg)
                    &&& d == Channel { ring: d.ring, waiting_receiver: None, pending_caller: Some(caller), ..ch }
                    &&& same_except(final(self).slots@, old(self).slots@, c.0 as int)
                }
            },
    {
        match self.take(c) {
            None => {
                proof {
                    assert(self.slots@ =~= old(self).slots@);
                }
                Err(IpcError::Epipe)
            },
            Some(mut ch) => {
                if ch.state_a == EndpointState::Dead || ch.state_b == EndpointState::Dead {
                    self.put(c, ch);
                    proof {
                        assert(self.slots@ =~= old(self).slots@);
                    }
                    return Err(IpcError::Epipe);
                }
                if ch.pending_caller.is_some() {
                    self.put(c, ch);
                    proof {
                        assert(self.slots@ =~= old(self).slots@);
                    }
                    return Err(IpcError::Eagain);
                }
                if !ch.ring.push(msg) {
                    self.put(c, ch);
                    proof {
                        assert(self.slots@ =~= old(self).slots@);
                    }
                    return Err(IpcError::Enospc);
                }
                ch.pending_caller = Some(caller);
                let recv = ch.waiting_receiver;
                ch.waiting_receiver = None;
                self.put(c, ch);
                Ok(recv)
            },
        }
    }

    /// The first half of a receive by `receiver` on `c`: the oldest queued
    /// message if there is one; otherwise, for a blocking receive, `receiver`
    /// becomes the waiting receiver. `Epipe` for a missing or dead channel;
    /// `Eagain` for an empty non-blocking poll (`timeout_ticks == 0`) or when
    /// another receiver is already waiting.
    pub fn recv_poll(&mut self, c: ChannelId, receiver: ThreadId, timeout_ticks: u64) -> (r: Result<RecvOutcome, IpcError>)
        requires
            old(self).wf(),
            (receiver.0 as int) < MAX_THREADS,
            (c.0 as int) < MAX_CHANNELS,
        ensures
            final(self).wf(),
            r is Err ==> final(self).slots@ == old(self).slots@,
            old(self).chan(c) is None ==> (r matches Err(e) && e == IpcError::Epipe),
            old(self).chan(c) matches Some(ch) ==> {
                &&& ch.is_dead() ==> (r matches Err(e) && e == IpcError::Epipe)
                &&& (!ch.is_dead() && ch.ring@.len() > 0) ==> {
                    &&& r matches Ok(RecvOutcome::Message(m)) && m == ch.ring@[0] && m.wf()
                    &&& final(self).chan(c) matches Some(d)
                    &&& d.ring@ == ch.ring@.drop_first()
                    &&& d == Channel { ring: d.ring, ..ch }
                    &&& same_except(final(self).slots@, old(self).slots@, c.0 as int)
                }
                &&& (!ch.is_dead() && ch.ring@.len() == 0 && (timeout_ticks == 0 || ch.waiting_receiver is Some)) ==> (r matches Err(e)
                    && e == IpcError::Eagain)
                &&& (!ch.is_dead() && ch.ring@.len() == 0 && timeout_ticks != 0 && ch.waiting_receiver is None) ==> {
                    &&& r matches Ok(RecvOutcome::Blocked)
                    &&& final(self).slots@ == old(self).slots@.update(
                        c.0 as int,
                        Some(Channel { waiting_receiver: Some(receiver), ..ch }),
                    )
                }
            },
    {
        match self.take(c) {
            None => {
                proof {
                    assert(self.slots@ =~= old(self).slots@);
                }
                Err(IpcError::Epipe)
            },
            Some(mut ch) => {
                if ch.state_a == EndpointState::Dead || ch.state_b == EndpointState::Dead {
                    self.put(c, ch);
                    proof {
                        assert(self.slots@ =~= old(self).slots@);
                    }
                    return Err(IpcError::Epipe);
                }
                match ch.ring.pop() {
                    Some(m) => {
                        self.put(c, ch);
                        return Ok(RecvOutcome::Message(m));
                    },
                    None => {},
                }
                if timeout_ticks == 0 || ch.waiting_receiver.is_some() {
                    self.put(c, ch);
                    proof {
                        assert(self.slots@ =~= old(self).slots@);
                    }
                    return Err(IpcError::Eagain);
                }
                ch.waiting_receiver = Some(receiver);
                self.put(c, ch);
                Ok(RecvOutcome::Blocked)
            },
        }
    }

    /// The second half of a blocking receive, after a normal wakeup: the
    /// oldest queued message; `Epipe` for a missing channel, `Eagain` when
    /// nothing is queued.
    pub fn recv_retry(&mut self, c: ChannelId) -> (r: Result<RawMessage, IpcError>)
        requires
            old(self).wf(),
            (c.0 as int) < MAX_CHANNELS,
        ensures
            final(self).wf(),
            r is Err ==> final(self).slots@ == old(self).slots@,
            old(self).chan(c) is None ==> r == Err::<RawMessage, IpcError>(IpcError::Epipe),
            old(self).chan(c) matches Some(ch) ==> {
                &&& ch.ring@.len() == 0 ==> r == Err::<RawMessage, IpcError>(IpcError::Eagain)
                &&& ch.ring@.len() > 0 ==> {
                    &&& r == Ok::<RawMessage, IpcError>(ch.ring@[0]) && ch.ring@[0].wf()
                    &&& final(self).chan(c) matches Some(d)
                    &&& d.ring@ == ch.ring@.drop_first()
                    &&& d == Channel { ring: d.ring, ..ch }
                    &&& same_except(final(self).slots@, old(self).slots@, c.0 as int)
                }
            },
    {
        match self.take(c) {
            None => {
                proof {
                    assert(self.slots@ =~= old(self).slots@);
                }
                Err(IpcError::Epipe)
            },
            Some(mut ch) => {
                let ghost ch0 = ch;
                match ch.ring.pop() {
                    Some(m) => {
                        self.put(c, ch);
                        Ok(m)
                    },
                    None => {
                        proof {
                            assert(ch.ring@ == ch0.ring@);
                        }
                        self.put(c, ch);
                        proof {
                            assert(self.slots@[c.0 as int]->Some_0.ring@ == ch0.ring@);
                        }
                        Err(IpcError::Eagain)
                    },
                }
            },
        }
    }

    /// After a wakeup: if `tid` is still recorded as the waiting receiver of
    /// `c`, clear it.
    pub fn clear_waiting_receiver(&mut self, c: ChannelId, tid: ThreadId)
        requires
            old(self).wf(),
            (c.0 as int) < MAX_CHANNELS,
        ensures
            final(self).wf(),
            old(self).chan(c) matches Some(ch) ==> (ch.waiting_receiver == Some(tid) ==> final(self).slots@ == old(self).slots@.update(c.0 as int, Some(Channel { waiting_receiver: None, ..ch }))),
            (old(self).chan(c) is None || old(self).chan(c)->Some_0.waiting_receiver != Some(tid)) ==> final(self).slots@ == old(self).slots@,
    {
        match self.take(c) {
            None => {
                proof {
                    assert(self.slots@ =~= old(self).slots@);
                }
            },
            Some(mut ch) => {
                if ch.waiting_receiver == Some(tid) {
                    ch.waiting_receiver = None;
                    self.put(c, ch);
                } else {
                    self.put(c, ch);
                    proof {
                        assert(self.slots@ =~= old(self).slots@);
                    }
                }
            },
        }
    }

    /// After a failed call: if `tid` is still the pending caller of `c`,
    /// clear it.
    pub fn clear_pending_caller(&mut self, c: ChannelId, tid: ThreadId)
        requires
            old(self).wf(),
            (c.0 as int) < MAX_CHANNELS,
        ensures
            final(self).wf(),
            old(self).chan(c) matches Some(ch) ==> (ch.pending_caller == Some(tid) ==> final(self).slots@ == old(self).slots@.update(
                c.0 as int,
                Some(Channel { pending_caller: None, ..ch }),
            )),
            (old(self).chan(c) is None || old(self).chan(c)->Some_0.pending_caller != Some(tid)) ==> final(self).slots@ == old(self).slots@,
    {
        match self.take(c) {
            None => {
                proof {
                    assert(self.slots@ =~= old(self).slots@);
                }
            },
            Some(mut ch) => {
                if ch.pending_caller == Some(tid) {
                    ch.pending_caller = None;
                    self.put(c, ch);
                } else {
                    self.put(c, ch);
                    proof {
                        assert(self.slots@ =~= old(self).slots@);
                    }
                }
            },
        }
    }

    /// Take the pending caller of `c` (it is no longer pending). `Epipe` for
    /// a missing channel; `Ok(None)` when no call is pending.
    pub fn take_pending_caller(&mut self, c: ChannelId) -> (r: Result<Option<ThreadId>, IpcError>)
        requires
            old(self).wf(),
            (c.0 as int) < MAX_CHANNELS,
        ensures
            final(self).wf(),
            old(self).chan(c) is None ==> r == Err::<Option<ThreadId>, IpcError>(IpcError::Epipe)
                && final(self).slots@ == old(self).slots@,
            old(self).chan(c) matches Some(ch) ==> r == Ok::<Option<ThreadId>, IpcError>(ch.pending_caller)
                && final(self).slots@ == old(self).slots@.update(c.0 as int, Some(Channel { pending_caller: None, ..ch })),
            r matches Ok(t) ==> tid_ok(t),
    {
        match self.take(c) {
            None => {
                proof {
                    assert(self.slots@ =~= old(self).slots@);
                }
                Err(IpcError::Epipe)
            },
            Some(mut ch) => {
                let p = ch.pending_caller;
                ch.pending_caller = None;
                self.put(c, ch);
                Ok(p)
            },
        }
    }

    /// True when `c` exists and has a queued message.
    pub fn has_message(&self, c: ChannelId) -> (b: bool)
        requires
            self.wf(),
            (c.0 as int) < MAX_CHANNELS,
        ensures
            b == (self.chan(c) matches Some(ch) && ch.ring@.len() > 0),
    {
        match &self.slots[c.0 as usize] {
            Some(ch) => ch.ring.len() > 0,
            None => false,
        }
    }

    /// Make `tid` the waiting receiver of `c` if `c` exists and has none.
    pub fn register_receiver(&mut self, c: ChannelId, tid: ThreadId)
        requires
            old(self).wf(),
            (tid.0 as int) < MAX_THREADS,
            (c.0 as int) < MAX_CHANNELS,
        ensures
            final(self).wf(),
            old(self).chan(c) matches Some(ch) ==> (ch.waiting_receiver is None ==> final(self).slots@ == old(self).slots@.update(
                c.0 as int,
                Some(Channel { waiting_receiver: Some(tid), ..ch }),
            )),
            (old(self).chan(c) is None || old(self).chan(c)->Some_0.waiting_receiver is Some) ==> final(self).slots@ == old(self).slots@,
    {
        match self.take(c) {
            None => {
                proof {
                    assert(self.slots@ =~= old(self).slots@);
                }
            },
            Some(mut ch) => {
                if ch.waiting_receiver.is_none() {
                    ch.waiting_receiver = Some(tid);
                    self.put(c, ch);
                } else {
                    self.put(c, ch);
                    proof {
                        assert(self.slots@ =~= old(self).slots@);
                    }
                }
            },
        }
    }

    /// The channels created under token `token`, in slot order.
    pub fn created_under(&self, token: CapabilityTokenId) -> (ids: Vec<ChannelId>)
        requires
            self.wf(),
        ensures
            ids@ == created_under_prefix(self.slots@, token, MAX_CHANNELS as int),
    {
        let mut ids: Vec<ChannelId> = Vec::new();
        let mut i: usize = 0;
        while i < MAX_CHANNELS
            invariant
                i <= MAX_CHANNELS,
                self.wf(),
                ids@ == created_under_prefix(self.slots@, token, i as int),
            decreases MAX_CHANNELS - i,
        {
            match &self.slots[i] {
                Some(ch) => {
                    if ch.creation_cap == Some(token) {
                        ids.push(ChannelId(i as u32));
                    }
                },
                None => {},
            }
            i = i + 1;
        }
        ids
    }
}

} // verus!
