//! Capabilities: per-process token tables, the checks the IPC operations make
//! (fail-closed), grants, and revocation with its cascade to child tokens.
use vstd::prelude::*;

use crate::ids::{CapabilityTokenId, ChannelId, ProcessId};
use crate::ipc::IpcError;

verus! {

/// Process table size.
pub const MAX_PROCESSES: usize = 64;
/// Tokens one process holds.
pub const MAX_CAPS_PER_PROCESS: usize = 256;

/// What a token permits.
#[derive(Debug, Clone, Copy, PartialEq, Eq, Structural)]
pub enum Capability {
    ChannelCreate,
    ChannelAccess(ChannelId),
    DebugPrint,
    SpawnAgent,
    SharedMemoryCreate,
    SharedMemoryAccess(u32),
}

/// Slot index of a token in its process's table.
#[derive(Debug, Clone, Copy, PartialEq, Eq, Structural)]
pub struct CapabilityHandle(pub u32);

/// A capability token.
#[derive(Debug, Clone, Copy, PartialEq, Eq, Structural)]
pub struct CapabilityToken {
    pub id: CapabilityTokenId,
    pub capability: Capability,
    pub holder: ProcessId,
    pub delegatable: bool,
    pub revoked: bool,
    pub parent_token: Option<CapabilityTokenId>,
    pub usage_count: u64,
    pub created_at_tick: u64,
    pub expires_at_tick: Option<u64>,
}

/// A token is in force at tick `now` when it is not revoked and has not
/// expired (it expires at its expiry tick).
pub open spec fn token_valid(t: CapabilityToken, now: u64) -> bool {
    &&& !t.revoked
    &&& (t.expires_at_tick matches Some(e) ==> now < e)
}

/// Slot `o` holds a token in force at `now` that permits exactly `cap`.
pub open spec fn authorizes(o: Option<CapabilityToken>, cap: Capability, now: u64) -> bool {
    o matches Some(t) && t.capability == cap && token_valid(t, now)
}

/// Index of the first slot at or after `i` authorizing `cap`; `-1` if none.
pub open spec fn first_authorizing(ts: Seq<Option<CapabilityToken>>, cap: Capability, now: u64, i: int) -> int
    decreases ts.len() - i,
{
    if i < 0 || i >= ts.len() {
        -1
    } else if authorizes(ts[i], cap, now) {
        i
    } else {
        first_authorizing(ts, cap, now, i + 1)
    }
}

/// Index of the first empty slot at or after `i`; `-1` if none.
pub open spec fn first_free(ts: Seq<Option<CapabilityToken>>, i: int) -> int
    decreases ts.len() - i,
{
    if i < 0 || i >= ts.len() {
        -1
    } else if ts[i] is None {
        i
    } else {
        first_free(ts, i + 1)
    }
}

/// Slot `o` after revoking token `id`: the token itself and its direct
/// children are marked revoked.
pub open spec fn revoked_by(o: Option<CapabilityToken>, id: CapabilityTokenId) -> Option<CapabilityToken> {
    match o {
        Some(t) => if t.id == id || t.parent_token == Some(id) {
            Some(CapabilityToken { revoked: true, ..t })
        } else {
            o
        },
        None => None,
    }
}

proof fn lemma_first_authorizing(ts: Seq<Option<CapabilityToken>>, cap: Capability, now: u64, i: int)
    requires
        0 <= i,
    ensures
        first_authorizing(ts, cap, now, i) < ts.len(),
        first_authorizing(ts, cap, now, i) >= 0 ==> i <= first_authorizing(ts, cap, now, i) && authorizes(
            ts[first_authorizing(ts, cap, now, i)],
            cap,
            now,
        ),
        first_authorizing(ts, cap, now, i) < 0 ==> forall|j: int| i <= j < ts.len() ==> !authorizes(#[trigger] ts[j], cap, now),
    decreases ts.len() - i,
{
    if i < ts.len() && !authorizes(ts[i], cap, now) {
        lemma_first_authorizing(ts, cap, now, i + 1);
    }
}

/// A process's capability tokens, by slot.
pub struct CapabilityTable {
    pub tokens: Vec<Option<CapabilityToken>>,
}

impl CapabilityTable {
    pub open spec fn wf(&self) -> bool {
        self.tokens@.len() == MAX_CAPS_PER_PROCESS
    }

    /// Some token in force at `now` permits `cap`.
    pub open spec fn permits(&self, cap: Capability, now: u64) -> bool {
        exists|i: int| 0 <= i < self.tokens@.len() && #[trigger] authorizes(self.tokens@[i], cap, now)
    }

    /// An empty table.
    pub fn new() -> (t: CapabilityTable)
        ensures
            t.wf(),
            forall|i: int| 0 <= i < MAX_CAPS_PER_PROCESS ==> t.tokens@[i] is None,
    {
        let mut tokens: Vec<Option<CapabilityToken>> = Vec::new();
        let mut i: usize = 0;
        while i < MAX_CAPS_PER_PROCESS
            invariant
                i <= MAX_CAPS_PER_PROCESS,
                tokens@.len() == i,
                forall|j: int| 0 <= j < i ==> tokens@[j] is None,
            decreases MAX_CAPS_PER_PROCESS - i,
        {
            tokens.push(None);
            i = i + 1;
        }
        CapabilityTable { tokens }
    }

    /// Store `token` in the first empty slot; its handle, or `Enospc` when
    /// the table is full.
    pub fn grant(&mut self, token: CapabilityToken) -> (r: Result<CapabilityHandle, IpcError>)
        requires
            old(self).wf(),
        ensures
            final(self).wf(),
            first_free(old(self).tokens@, 0) < 0 ==> r == Err::<CapabilityHandle, IpcError>(IpcError::Enospc)
                && final(self).tokens@ == old(self).tokens@,
            first_free(old(self).tokens@, 0) >= 0 ==> {
                let k = first_free(old(self).tokens@, 0);
                &&& r == Ok::<CapabilityHandle, IpcError>(CapabilityHandle(k as u32))
                &&& final(self).tokens@ == old(self).tokens@.update(k, Some(token))
            },
    {
        let mut i: usize = 0;
        while i < MAX_CAPS_PER_PROCESS
            invariant
                i <= MAX_CAPS_PER_PROCESS,
                self.tokens@ == old(self).tokens@,
                self.wf(),
                first_free(self.tokens@, 0) == first_free(self.tokens@, i as int),
            decreases MAX_CAPS_PER_PROCESS - i,
        {
            if self.tokens[i].is_none() {
                self.tokens.set(i, Some(token));
                return Ok(CapabilityHandle(i as u32));
            }
            i = i + 1;
        }
        Err(IpcError::Enospc)
    }

    /// The live (not revoked) token behind `handle`.
    pub fn get(&self, handle: CapabilityHandle) -> (r: Option<CapabilityToken>)
        requires
            self.wf(),
        ensures
            r == if (handle.0 as int) < MAX_CAPS_PER_PROCESS && (self.tokens@[handle.0 as int] matches Some(t)
                && !t.revoked) {
                self.tokens@[handle.0 as int]
            } else {
                None
            },
    {
        if handle.0 as usize >= MAX_CAPS_PER_PROCESS {
            return None;
        }
        match self.tokens[handle.0 as usize] {
            Some(t) => if !t.revoked { Some(t) } else { None },
            None => None,
        }
    }

    /// The id of the first token in force at `now` that permits `cap`.
    pub fn find_authorizing_token(&self, cap: &Capability, now: u64) -> (r: Option<CapabilityTokenId>)
        requires
            self.wf(),
        ensures
            r is Some <==> self.permits(*cap, now),
            r matches Some(id) ==> id == self.tokens@[first_authorizing(self.tokens@, *cap, now, 0)]->Some_0.id,
            first_authorizing(self.tokens@, *cap, now, 0) >= 0 <==> r is Some,
    {
        let mut i: usize = 0;
        while i < MAX_CAPS_PER_PROCESS
            invariant
                i <= MAX_CAPS_PER_PROCESS,
                self.wf(),
                first_authorizing(self.tokens@, *cap, now, 0) == first_authorizing(self.tokens@, *cap, now, i as int),
            decreases MAX_CAPS_PER_PROCESS - i,
        {
            match self.tokens[i] {
                Some(t) => {
                    let valid = !t.revoked && match t.expires_at_tick {
                        Some(e) => now < e,
                        None => true,
                    };
                    if t.capability == *cap && valid {
                        proof {
                            assert(authorizes(self.tokens@[i as int], *cap, now));
                        }
                        return Some(t.id);
                    }
                },
                None => {},
            }
            i = i + 1;
        }
        proof {
            lemma_first_authorizing(self.tokens@, *cap, now, 0);
        }
        None
    }

    /// Whether a token in force at `now` permits `cap`.
    pub fn has_capability(&self, cap: &Capability, now: u64) -> (b: bool)
        requires
            self.wf(),
        ensures
            b == self.permits(*cap, now),
    {
        let r = self.find_authorizing_token(cap, now);
        proof {
            lemma_first_authorizing(self.tokens@, *cap, now, 0);
        }
        r.is_some()
    }

    /// Revoke token `id` and, with it, its direct children.
    pub fn revoke(&mut self, id: CapabilityTokenId)
        requires
            old(self).wf(),
        ensures
            final(self).wf(),
            forall|i: int| 0 <= i < MAX_CAPS_PER_PROCESS ==> #[trigger] final(self).tokens@[i] == revoked_by(old(self).tokens@[i], id),
    {
        let mut i: usize = 0;
        while i < MAX_CAPS_PER_PROCESS
            invariant
                i <= MAX_CAPS_PER_PROCESS,
                self.wf(),
                old(self).wf(),
                forall|j: int| 0 <= j < i ==> #[trigger] self.tokens@[j] == revoked_by(old(self).tokens@[j], id),
                forall|j: int| i <= j < MAX_CAPS_PER_PROCESS ==> #[trigger] self.tokens@[j] == old(self).tokens@[j],
            decreases MAX_CAPS_PER_PROCESS - i,
        {
            match self.tokens[i] {
                Some(t) => {
                    if t.id == id || t.parent_token == Some(id) {
                        self.tokens.set(i, Some(CapabilityToken { revoked: true, ..t }));
                    }
                },
                None => {},
            }
            i = i + 1;
        }
    }
}

/// A process as the capability logic sees it.
pub struct ProcessControl {
    pub pid: ProcessId,
    pub cap_table: CapabilityTable,
}

/// Errors of the capability-kit interface.
#[derive(Debug, Clone, Copy, PartialEq, Eq, Structural)]
pub enum CapabilityError {
    NotGranted { requested: Capability },
    TableFull,
    InvalidHandle { handle: CapabilityHandle },
}

/// The tokens of `ts` among the first `n` slots that are in force at `now`,
/// in slot order.
pub open spec fn active_prefix(ts: Seq<Option<CapabilityToken>>, now: u64, n: int) -> Seq<CapabilityToken>
    decreases n,
{
    if n <= 0 {
        Seq::empty()
    } else {
        let rest = active_prefix(ts, now, n - 1);
        if ts[n - 1] matches Some(t) && token_valid(t, now) {
            rest.push(ts[n - 1]->Some_0)
        } else {
            rest
        }
    }
}

/// Index of the first live slot at or after `i` holding token `id`; `-1` if none.
pub open spec fn first_live_with_id(ts: Seq<Option<CapabilityToken>>, id: CapabilityTokenId, i: int) -> int
    decreases ts.len() - i,
{
    if i < 0 || i >= ts.len() {
        -1
    } else if ts[i] matches Some(t) && t.id == id && !t.revoked {
        i
    } else {
        first_live_with_id(ts, id, i + 1)
    }
}

proof fn lemma_first_live_with_id(ts: Seq<Option<CapabilityToken>>, id: CapabilityTokenId, i: int, k: int)
    requires
        0 <= i <= k < ts.len(),
        ts[k] matches Some(t) && t.id == id && !t.revoked,
    ensures
        i <= first_live_with_id(ts, id, i) <= k,
        ts[first_live_with_id(ts, id, i)] matches Some(t) && t.id == id && !t.revoked,
    decreases k - i,
{
    if !(ts[i] matches Some(t) && t.id == id && !t.revoked) {
        lemma_first_live_with_id(ts, id, i + 1, k);
    }
}

/// The process table with the token-id counter.
pub struct KernelCapabilitySystem {
    pub procs: Vec<Option<ProcessControl>>,
    pub next_token_id: u64,
}

impl KernelCapabilitySystem {
    pub open spec fn wf(&self) -> bool {
        &&& self.procs@.len() == MAX_PROCESSES
        &&& forall|i: int| 0 <= i < MAX_PROCESSES ==> (#[trigger] self.procs@[i] matches Some(p) ==> p.cap_table.wf() && p.pid.0 == i)
    }

    /// The tokens of process `pid` (empty when there is no such process).
    pub open spec fn tokens_of(&self, pid: ProcessId) -> Seq<Option<CapabilityToken>> {
        if (pid.0 as int) < self.procs@.len() && self.procs@[pid.0 as int] is Some {
            self.procs@[pid.0 as int]->Some_0.cap_table.tokens@
        } else {
            Seq::empty()
        }
    }

    /// Process `pid` exists.
    pub open spec fn has_process(&self, pid: ProcessId) -> bool {
        (pid.0 as int) < self.procs@.len() && self.procs@[pid.0 as int] is Some
    }

    /// Process `pid` exists and a token in force at `now` permits `cap`.
    pub open spec fn process_permits(&self, pid: ProcessId, cap: Capability, now: u64) -> bool {
        self.has_process(pid) && first_authorizing(self.tokens_of(pid), cap, now, 0) >= 0
    }

    /// The token that authorizes `cap` for `pid` at `now` (first in slot order).
    pub open spec fn authorizing_token(&self, pid: ProcessId, cap: Capability, now: u64) -> CapabilityTokenId {
        self.tokens_of(pid)[first_authorizing(self.tokens_of(pid), cap, now, 0)]->Some_0.id
    }

    /// No processes; token ids start at 1 (0 is never handed out).
    pub fn new() -> (s: KernelCapabilitySystem)
        ensures
            s.wf(),
            s.next_token_id == 1,
            forall|i: int| 0 <= i < MAX_PROCESSES ==> s.procs@[i] is None,
    {
        let mut procs: Vec<Option<ProcessControl>> = Vec::new();
        let mut i: usize = 0;
        while i < MAX_PROCESSES
            invariant
                i <= MAX_PROCESSES,
                procs@.len() == i,
                forall|j: int| 0 <= j < i ==> procs@[j] is None,
            decreases MAX_PROCESSES - i,
        {
            procs.push(None);
            i = i + 1;
        }
        KernelCapabilitySystem { procs, next_token_id: 1 }
    }

    /// Install process `pid` with an empty capability table (replacing any
    /// process in that slot).
    pub fn add_process(&mut self, pid: ProcessId)
        requires
            old(self).wf(),
            (pid.0 as int) < MAX_PROCESSES,
        ensures
            final(self).wf(),
            final(self).next_token_id == old(self).next_token_id,
            forall|j: int| 0 <= j < MAX_PROCESSES && j != pid.0 ==> final(self).procs@[j] == old(self).procs@[j],
            final(self).has_process(pid),
            forall|i: int| 0 <= i < MAX_CAPS_PER_PROCESS ==> final(self).tokens_of(pid)[i] is None,
            final(self).tokens_of(pid).len() == MAX_CAPS_PER_PROCESS,
    {
        let mut slot = Some(ProcessControl { pid, cap_table: CapabilityTable::new() });
        self.procs.set_and_swap(pid.0 as usize, &mut slot);
        proof {
            assert forall|j: int| 0 <= j < MAX_PROCESSES implies (#[trigger] self.procs@[j] matches Some(p) ==> p.cap_table.wf() && p.pid.0 == j) by {
                if j != pid.0 {
                    assert(self.procs@[j] == old(self).procs@[j]);
                }
            }
        }
    }

    /// A fresh token id: the counter's value, which then advances (wrapping).
    pub fn new_token_id(&mut self) -> (id: CapabilityTokenId)
        ensures
            id.0 == old(self).next_token_id,
            final(self).next_token_id == (if old(self).next_token_id == u64::MAX { 0 } else { old(self).next_token_id + 1 }),
            final(self).procs@ == old(self).procs@,
    {
        let id = self.next_token_id;
        self.next_token_id = self.next_token_id.wrapping_add(1);
        CapabilityTokenId(id)
    }

    /// The id of the token authorizing `cap` for `pid` at `now`.
    fn find_token(&self, pid: ProcessId, cap: Capability, now: u64) -> (r: Result<CapabilityTokenId, IpcError>)
        requires
            self.wf(),
        ensures
            (pid.0 as int) >= MAX_PROCESSES ==> r == Err::<CapabilityTokenId, IpcError>(IpcError::Einval),
            (pid.0 as int) < MAX_PROCESSES ==> {
                &&& r is Ok <==> self.process_permits(pid, cap, now)
                &&& r matches Ok(id) ==> id == self.authorizing_token(pid, cap, now)
                &&& r is Err ==> r == Err::<CapabilityTokenId, IpcError>(IpcError::Eperm)
            },
    {
        if pid.0 as usize >= MAX_PROCESSES {
            return Err(IpcError::Einval);
        }
        match &self.procs[pid.0 as usize] {
            Some(p) => match p.cap_table.find_authorizing_token(&cap, now) {
                Some(id) => Ok(id),
                None => Err(IpcError::Eperm),
            },
            None => Err(IpcError::Eperm),
        }
    }

    /// Store a new token for `cap` in `pid`'s table and return its handle.
    /// `Einval` for an out-of-range pid, `Eperm` for a missing process,
    /// `Enospc` when its table is full.
    pub fn grant_token(&mut self, pid: ProcessId, cap: Capability, delegatable: bool, now: u64) -> (r: Result<CapabilityHandle, IpcError>)
        requires
            old(self).wf(),
        ensures
            final(self).wf(),
            (pid.0 as int) >= MAX_PROCESSES ==> r == Err::<CapabilityHandle, IpcError>(IpcError::Einval) && (final(self).procs@ == old(self).procs@ && final(self).next_token_id == old(self).next_token_id),
            ((pid.0 as int) < MAX_PROCESSES && !old(self).has_process(pid)) ==> r == Err::<CapabilityHandle, IpcError>(IpcError::Eperm)
                && (final(self).procs@ == old(self).procs@ && final(self).next_token_id == old(self).next_token_id),
            old(self).has_process(pid) ==> {
                let token = CapabilityToken {
                    id: CapabilityTokenId(old(self).next_token_id),
                    capability: cap,
                    holder: pid,
                    delegatable,
                    revoked: false,
                    parent_token: None,
                    usage_count: 0,
                    created_at_tick: now,
                    expires_at_tick: None,
                };
                let k = first_free(old(self).tokens_of(pid), 0);
                &&& final(self).next_token_id == (if old(self).next_token_id == u64::MAX { 0 } else { old(self).next_token_id + 1 })
                &&& forall|j: int| 0 <= j < MAX_PROCESSES && j != pid.0 ==> final(self).procs@[j] == old(self).procs@[j]
                &&& final(self).has_process(pid)
                &&& k < 0 ==> r == Err::<CapabilityHandle, IpcError>(IpcError::Enospc) && final(self).tokens_of(pid) == old(self).tokens_of(pid)
                &&& k >= 0 ==> r == Ok::<CapabilityHandle, IpcError>(CapabilityHandle(k as u32))
                    && final(self).tokens_of(pid) == old(self).tokens_of(pid).update(k, Some(token))
            },
    {
        if pid.0 as usize >= MAX_PROCESSES {
            return Err(IpcError::Einval);
        }
        let idx = pid.0 as usize;
        let mut slot: Option<ProcessControl> = None;
        self.procs.set_and_swap(idx, &mut slot);
        proof {
            assert(old(self).procs@[idx as int] matches Some(p) ==> p.cap_table.wf() && p.pid.0 == idx);
        }
        match slot {
            None => {
                proof {
                    assert(self.procs@ =~= old(self).procs@);
                }
                Err(IpcError::Eperm)
            },
            Some(mut p) => {
                let id = self.new_token_id();
                let token = CapabilityToken {
                    id,
                    capability: cap,
                    holder: pid,
                    delegatable,
                    revoked: false,
                    parent_token: None,
                    usage_count: 0,
                    created_at_tick: now,
                    expires_at_tick: None,
                };
                let r = p.cap_table.grant(token);
                let mut put = Some(p);
                self.procs.set_and_swap(idx, &mut put);
                proof {
                    assert forall|j: int| 0 <= j < MAX_PROCESSES && j != idx implies self.procs@[j] == old(self).procs@[j] by {}
                }
                r
            },
        }
    }

    /// Revoke token `id` (and its direct children) in `pid`'s table; nothing
    /// for an out-of-range pid or a missing process.
    pub fn revoke_token(&mut self, pid: ProcessId, id: CapabilityTokenId)
        requires
            old(self).wf(),
        ensures
            final(self).wf(),
            final(self).next_token_id == old(self).next_token_id,
            forall|j: int| 0 <= j < MAX_PROCESSES && j != pid.0 ==> final(self).procs@[j] == old(self).procs@[j],
            !old(self).has_process(pid) ==> final(self).procs@ == old(self).procs@,
            old(self).has_process(pid) ==> final(self).has_process(pid)
                && final(self).tokens_of(pid).len() == old(self).tokens_of(pid).len()
                && forall|i: int| 0 <= i < old(self).tokens_of(pid).len() ==> #[trigger] final(self).tokens_of(pid)[i] == revoked_by(
                    old(self).tokens_of(pid)[i],
                    id,
                ),
    {
        if pid.0 as usize >= MAX_PROCESSES {
            return;
        }
        let idx = pid.0 as usize;
        let mut slot: Option<ProcessControl> = None;
        self.procs.set_and_swap(idx, &mut slot);
        proof {
            assert(old(self).procs@[idx as int] matches Some(p) ==> p.cap_table.wf() && p.pid.0 == idx);
        }
        match slot {
            None => {
                proof {
                    assert(self.procs@ =~= old(self).procs@);
                }
            },
            Some(mut p) => {
                p.cap_table.revoke(id);
                let mut put = Some(p);
                self.procs.set_and_swap(idx, &mut put);
                proof {
                    assert forall|j: int| 0 <= j < MAX_PROCESSES && j != idx implies self.procs@[j] == old(self).procs@[j] by {}
                }
            },
        }
    }

    /// Capability-kit check: the handle of a live token of `holder` that
    /// authorizes `action` at `now`; `NotGranted` when none does.
    pub fn check(&self, holder: ProcessId, action: &Capability, now: u64) -> (r: Result<CapabilityHandle, CapabilityError>)
        requires
            self.wf(),
        ensures
            r is Ok <==> self.process_permits(holder, *action, now),
            r is Err ==> r == Err::<CapabilityHandle, CapabilityError>(CapabilityError::NotGranted { requested: *action }),
            r matches Ok(h) ==> h.0 == first_live_with_id(
                self.tokens_of(holder),
                self.authorizing_token(holder, *action, now),
                0,
            ),
    {
        let id = match self.find_token(holder, *action, now) {
            Ok(id) => id,
            Err(_) => {
                return Err(CapabilityError::NotGranted { requested: *action });
            },
        };
        let p = match &self.procs[holder.0 as usize] {
            Some(p) => p,
            None => {
                return Err(CapabilityError::NotGranted { requested: *action });
            },
        };
        let ghost ts = p.cap_table.tokens@;
        proof {
            lemma_first_authorizing(ts, *action, now, 0);
            let k = first_authorizing(ts, *action, now, 0);
            lemma_first_live_with_id(ts, id, 0, k);
        }
        let mut i: usize = 0;
        while i < MAX_CAPS_PER_PROCESS
            invariant
                i <= MAX_CAPS_PER_PROCESS,
                p.cap_table.wf(),
                ts == p.cap_table.tokens@,
                ts == self.tokens_of(holder),
                id == self.authorizing_token(holder, *action, now),
                self.process_permits(holder, *action, now),
                0 <= first_live_with_id(ts, id, 0) < MAX_CAPS_PER_PROCESS,
                first_live_with_id(ts, id, 0) == first_live_with_id(ts, id, i as int),
            decreases MAX_CAPS_PER_PROCESS - i,
        {
            match p.cap_table.tokens[i] {
                Some(t) => {
                    if t.id == id && !t.revoked {
                        return Ok(CapabilityHandle(i as u32));
                    }
                },
                None => {},
            }
            i = i + 1;
        }
        Err(CapabilityError::NotGranted { requested: *action })
    }

    /// Capability-kit grant: a delegatable token for `cap` in `holder`'s
    /// table. `TableFull` for a missing process or a full table.
    pub fn grant(&mut self, holder: ProcessId, cap: Capability, granted_by: ProcessId, now: u64) -> (r: Result<CapabilityHandle, CapabilityError>)
        requires
            old(self).wf(),
        ensures
            final(self).wf(),
            !old(self).has_process(holder) ==> r == Err::<CapabilityHandle, CapabilityError>(CapabilityError::TableFull)
                && (final(self).procs@ == old(self).procs@ && final(self).next_token_id == old(self).next_token_id),
            old(self).has_process(holder) ==> {
                let token = CapabilityToken {
                    id: CapabilityTokenId(old(self).next_token_id),
                    capability: cap,
                    holder,
                    delegatable: true,
                    revoked: false,
                    parent_token: None,
                    usage_count: 0,
                    created_at_tick: now,
                    expires_at_tick: None,
                };
                let k = first_free(old(self).tokens_of(holder), 0);
                &&& forall|j: int| 0 <= j < MAX_PROCESSES && j != holder.0 ==> final(self).procs@[j] == old(self).procs@[j]
                &&& k < 0 ==> r == Err::<CapabilityHandle, CapabilityError>(CapabilityError::TableFull)
                    && final(self).tokens_of(holder) == old(self).tokens_of(holder)
                &&& k >= 0 ==> r == Ok::<CapabilityHandle, CapabilityError>(CapabilityHandle(k as u32))
                    && final(self).tokens_of(holder) == old(self).tokens_of(holder).update(k, Some(token))
            },
    {
        match self.grant_token(holder, cap, true, now) {
            Ok(h) => Ok(h),
            Err(_) => Err(CapabilityError::TableFull),
        }
    }

    /// Capability-kit listing: the tokens of `holder` in force at `now`, in
    /// slot order (empty for a missing process).
    pub fn list_active(&self, holder: ProcessId, now: u64) -> (v: Vec<CapabilityToken>)
        requires
            self.wf(),
        ensures
            v@ == active_prefix(self.tokens_of(holder), now, self.tokens_of(holder).len() as int),
    {
        let mut v: Vec<CapabilityToken> = Vec::new();
        if holder.0 as usize >= MAX_PROCESSES {
            return v;
        }
        let p = match &self.procs[holder.0 as usize] {
            Some(p) => p,
            None => {
                return v;
            },
        };
        let mut i: usize = 0;
        while i < MAX_CAPS_PER_PROCESS
            invariant
                i <= MAX_CAPS_PER_PROCESS,
                p.cap_table.wf(),
                v@ == active_prefix(p.cap_table.tokens@, now, i as int),
            decreases MAX_CAPS_PER_PROCESS - i,
        {
            match p.cap_table.tokens[i] {
                Some(t) => {
                    let expired = match t.expires_at_tick {
                        Some(e) => now >= e,
                        None => false,
                    };
                    if !t.revoked && !expired {
                        v.push(t);
                    }
                },
                None => {},
            }
            i = i + 1;
        }
        v
    }
}

/// Require `ChannelCreate`: the authorizing token's id (recorded on the new
/// channel). `Einval` for an out-of-range pid, `Eperm` otherwise (fail-closed).
pub fn check_channel_create(caps: &KernelCapabilitySystem, pid: ProcessId, now: u64) -> (r: Result<CapabilityTokenId, IpcError>)
    requires
        caps.wf(),
    ensures
        (pid.0 as int) >= MAX_PROCESSES ==> r == Err::<CapabilityTokenId, IpcError>(IpcError::Einval),
        (pid.0 as int) < MAX_PROCESSES ==> {
            &&& r is Ok <==> caps.process_permits(pid, Capability::ChannelCreate, now)
            &&& r matches Ok(id) ==> id == caps.authorizing_token(pid, Capability::ChannelCreate, now)
            &&& r is Err ==> r == Err::<CapabilityTokenId, IpcError>(IpcError::Eperm)
        },
{
    caps.find_token(pid, Capability::ChannelCreate, now)
}

/// Require `ChannelAccess(channel)`. `Einval` for an out-of-range pid,
/// `Eperm` otherwise (fail-closed).
pub fn check_channel_access(caps: &KernelCapabilitySystem, pid: ProcessId, channel: ChannelId, now: u64) -> (r: Result<(), IpcError>)
    requires
        caps.wf(),
    ensures
        (pid.0 as int) >= MAX_PROCESSES ==> r == Err::<(), IpcError>(IpcError::Einval),
        (pid.0 as int) < MAX_PROCESSES ==> {
            &&& r is Ok <==> caps.process_permits(pid, Capability::ChannelAccess(channel), now)
            &&& r is Err ==> r == Err::<(), IpcError>(IpcError::Eperm)
        },
{
    match caps.find_token(pid, Capability::ChannelAccess(channel), now) {
        Ok(_) => Ok(()),
        Err(e) => Err(e),
    }
}

/// Require `SharedMemoryCreate`: the authorizing token's id. `Einval` for an
/// out-of-range pid, `Eperm` otherwise (fail-closed).
pub fn check_shared_memory_create(caps: &KernelCapabilitySystem, pid: ProcessId, now: u64) -> (r: Result<CapabilityTokenId, IpcError>)
    requires
        caps.wf(),
    ensures
        (pid.0 as int) >= MAX_PROCESSES ==> r == Err::<CapabilityTokenId, IpcError>(IpcError::Einval),
        (pid.0 as int) < MAX_PROCESSES ==> {
            &&& r is Ok <==> caps.process_permits(pid, Capability::SharedMemoryCreate, now)
            &&& r matches Ok(id) ==> id == caps.authorizing_token(pid, Capability::SharedMemoryCreate, now)
            &&& r is Err ==> r == Err::<CapabilityTokenId, IpcError>(IpcError::Eperm)
        },
{
    caps.find_token(pid, Capability::SharedMemoryCreate, now)
}

/// Require `SharedMemoryAccess(region_id)`. `Einval` for an out-of-range
/// pid, `Eperm` otherwise (fail-closed).
pub fn check_shared_memory_access(caps: &KernelCapabilitySystem, pid: ProcessId, region_id: u32, now: u64) -> (r: Result<(), IpcError>)
    requires
        caps.wf(),
    ensures
        (pid.0 as int) >= MAX_PROCESSES ==> r == Err::<(), IpcError>(IpcError::Einval),
        (pid.0 as int) < MAX_PROCESSES ==> {
            &&& r is Ok <==> caps.process_permits(pid, Capability::SharedMemoryAccess(region_id), now)
            &&& r is Err ==> r == Err::<(), IpcError>(IpcError::Eperm)
        },
{
    match caps.find_token(pid, Capability::SharedMemoryAccess(region_id), now) {
        Ok(_) => Ok(()),
        Err(e) => Err(e),
    }
}

/// Grant `cap` to process `pid` as a new root token (no parent, no expiry).
/// `Einval` for an out-of-range pid, `Eperm` for a missing process, `Enospc`
/// for a full table.
pub fn grant_to_process(caps: &mut KernelCapabilitySystem, pid: ProcessId, cap: Capability, delegatable: bool, now: u64) -> (r: Result<CapabilityHandle, IpcError>)
    requires
        old(caps).wf(),
    ensures
        final(caps).wf(),
        (pid.0 as int) >= MAX_PROCESSES ==> r == Err::<CapabilityHandle, IpcError>(IpcError::Einval) && (final(caps).procs@ == old(caps).procs@ && final(caps).next_token_id == old(caps).next_token_id),
        ((pid.0 as int) < MAX_PROCESSES && !old(caps).has_process(pid)) ==> r == Err::<CapabilityHandle, IpcError>(IpcError::Eperm)
            && (final(caps).procs@ == old(caps).procs@ && final(caps).next_token_id == old(caps).next_token_id),
        old(caps).has_process(pid) ==> {
            let token = CapabilityToken {
                id: CapabilityTokenId(old(caps).next_token_id),
                capability: cap,
                holder: pid,
                delegatable,
                revoked: false,
                parent_token: None,
                usage_count: 0,
                created_at_tick: now,
                expires_at_tick: None,
            };
            let k = first_free(old(caps).tokens_of(pid), 0);
            &&& forall|j: int| 0 <= j < MAX_PROCESSES && j != pid.0 ==> final(caps).procs@[j] == old(caps).procs@[j]
            &&& final(caps).has_process(pid)
            &&& k < 0 ==> r == Err::<CapabilityHandle, IpcError>(IpcError::Enospc) && final(caps).tokens_of(pid) == old(caps).tokens_of(pid)
            &&& k >= 0 ==> r == Ok::<CapabilityHandle, IpcError>(CapabilityHandle(k as u32))
                && final(caps).tokens_of(pid) == old(caps).tokens_of(pid).update(k, Some(token))
        },
{
    caps.grant_token(pid, cap, delegatable, now)
}

} // verus!
