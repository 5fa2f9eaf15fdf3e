//! Properties of the library that span operations, stated over the same
//! models the operations' contracts use, and proved.
use vstd::prelude::*;

use crate::ids::SurfaceId;
use crate::ipc::RING_CAPACITY;
use crate::ipc::ring::RawMessage;
use crate::ipc::notify::{scan_woken, scan_word, stored_results, Waiter};
use crate::ipc::timeout::{is_expired, TimeoutEntry};
use crate::ipc::shmem::{count_mapped, find_mapping, SharedMapping, VmFlags};
use crate::ids::{ProcessId, ThreadId};
use crate::cap::{authorizes, first_authorizing, revoked_by, Capability, CapabilityToken};
use crate::ids::CapabilityTokenId;
use crate::compositor::focus::{alt_tab_spec, not_id, touched};
use crate::compositor::surface::SurfaceTableView;
use crate::compositor::shell::workspace::{same_snapshot, workspace_toggled, WorkspaceSnapshot, WorkspaceState};
use crate::ids::COMPOSITOR_PID;
use crate::compositor::window::{cascade_offset, i32_of_u64};
use crate::compositor::text::{drawn_text, title_glyph};
use crate::compositor::shell::taskbar::{same_taskbar, TaskbarSnapshot};
use crate::input::{modifiers_after, modifier_flag};
use crate::bench::{is_sorted, p99_index};
use crate::boot_phase::{phase_number, EarlyBootPhase};
use crate::ipc::direct::{
    sched_after_call, sched_after_reply, sched_wf, switch_possible, threads_after_call, SchedParams,
};
use crate::task::{ThreadRecord, MAX_THREADS};
use crate::ipc::{replied, took_reply, ReplySlot};
use crate::ipc::notify::scan_hits;
use crate::compositor::input_route::{coalesce_prefix, coalesce_spec};
use crate::input::InputEvent;
use crate::compositor::surface::{Surface, SurfaceLayer};
use crate::dtb::{facts_give, timer_ppi_of, DeviceTree, DtbFacts};

verus! {

// ---------------------------------------------------------------------------
// IPC message ring
// ---------------------------------------------------------------------------

/// `ms` pushed one after another onto a ring holding `q`.
pub open spec fn pushed_all(q: Seq<RawMessage>, ms: Seq<RawMessage>) -> Seq<RawMessage>
    decreases ms.len(),
{
    if ms.len() == 0 {
        q
    } else {
        pushed_all(q.push(ms[0]), ms.drop_first())
    }
}

proof fn lemma_pushed_all(q: Seq<RawMessage>, ms: Seq<RawMessage>)
    ensures
        pushed_all(q, ms) == q + ms,
    decreases ms.len(),
{
    if ms.len() > 0 {
        lemma_pushed_all(q.push(ms[0]), ms.drop_first());
        assert(q.push(ms[0]) + ms.drop_first() =~= q + ms);
    }
}

/// `k` messages pushed onto an empty ring come out in order: the ring then
/// holds exactly them, and after `i` pops the next pop yields the `i`-th.
pub proof fn law_ring_fifo_many(ms: Seq<RawMessage>)
    requires
        ms.len() <= RING_CAPACITY,
    ensures
        pushed_all(Seq::empty(), ms) == ms,
        forall|i: int| 0 <= i < ms.len() ==> #[trigger] ms.skip(i)[0] == ms[i] && ms.skip(i).drop_first() == ms.skip(i + 1),
{
    lemma_pushed_all(Seq::empty(), ms);
    assert(Seq::<RawMessage>::empty() + ms =~= ms);
    assert forall|i: int| 0 <= i < ms.len() implies #[trigger] ms.skip(i)[0] == ms[i] && ms.skip(i).drop_first() == ms.skip(i + 1) by {
        assert(ms.skip(i).drop_first() =~= ms.skip(i + 1));
    }
}

/// Messages leave a ring in the order they were sent: after pushing `m`
/// onto a ring holding `q`, the next pop yields the oldest message (the head
/// of `q`, or `m` itself when `q` was empty), and what stays behind is the
/// rest of `q` followed by `m`.
pub proof fn law_ring_fifo(q: Seq<RawMessage>, m: RawMessage)
    requires
        q.len() < RING_CAPACITY,
    ensures
        q.push(m)[0] == (if q.len() == 0 { m } else { q[0] }),
        q.len() > 0 ==> q.push(m).drop_first() == q.drop_first().push(m),
        q.len() == 0 ==> q.push(m).drop_first().len() == 0,
{
    if q.len() > 0 {
        assert(q.push(m).drop_first() =~= q.drop_first().push(m));
    }
}

// ---------------------------------------------------------------------------
// Window z-order
// ---------------------------------------------------------------------------

/// Raising a listed window puts it on top and keeps every window listed:
/// the list keeps its length and its members, and `id` is the last entry.
pub proof fn law_raise_to_top(s: Seq<SurfaceId>, id: SurfaceId)
    requires
        s.contains(id),
    ensures
        s.remove_value(id).push(id).len() == s.len(),
        s.remove_value(id).push(id).last() == id,
        forall|x: SurfaceId| s.remove_value(id).push(id).contains(x) <==> s.contains(x),
{
    s.index_of_first_ensures(id);
    let k = s.index_of_first(id)->0;
    s.remove_ensures(k);
    let r = s.remove_value(id);
    assert forall|x: SurfaceId| r.push(id).contains(x) <==> s.contains(x) by {
        if s.contains(x) {
            let j = choose|j: int| 0 <= j < s.len() && s[j] == x;
            if x != id {
                if j < k {
                    assert(r[j] == x);
                } else {
                    assert(j != k);
                    assert(r[j - 1] == x);
                }
                assert(r.push(id)[if j < k { j } else { j - 1 }] == x);
            } else {
                assert(r.push(id)[r.len() as int] == x);
            }
        }
        if r.push(id).contains(x) {
            let j = choose|j: int| 0 <= j < r.push(id).len() && r.push(id)[j] == x;
            if j < r.len() {
                if j < k {
                    assert(s[j] == x);
                } else {
                    assert(s[j + 1] == x);
                }
            } else {
                assert(s[k] == x);
            }
        }
    }
}

/// Adding a window that was not listed and removing it again restores the
/// list.
pub proof fn law_push_then_remove(s: Seq<SurfaceId>, id: SurfaceId)
    requires
        !s.contains(id),
    ensures
        s.push(id).remove_value(id) == s,
{
    s.push(id).index_of_first_ensures(id);
    assert(s.push(id)[s.len() as int] == id);
    let k = s.push(id).index_of_first(id)->0;
    assert(k == s.len()) by {
        if k < s.len() {
            assert(s[k] == id);
        }
    }
    s.push(id).remove_ensures(k);
    assert(s.push(id).remove_value(id) =~= s);
}

/// Surface ids are never handed out twice while in use: the id the table
/// assigns next belongs to no live surface.
pub proof fn law_new_surface_id_fresh(v: SurfaceTableView)
    requires
        v.wf(),
    ensures
        !v.contains(SurfaceId(v.next_surface_id)),
{
    if v.contains(SurfaceId(v.next_surface_id)) {
        let i = choose|i: int| v.holds(i, SurfaceId(v.next_surface_id));
        assert(v.slots[i] is Some);
    }
}

// ---------------------------------------------------------------------------
// Focus
// ---------------------------------------------------------------------------

/// Alt+Tab goes back: after focusing `a` and then `b`, the switch target
/// (with `b` focused) is `a`.
pub proof fn law_alt_tab_returns_previous(h: Seq<SurfaceId>, a: SurfaceId, b: SurfaceId)
    requires
        a != b,
    ensures
        alt_tab_spec(touched(touched(h, a), b), Some(b)) == Some(a),
{
    let h1 = touched(h, a);
    let t1 = seq![a] + h.filter(not_id(a));
    assert(t1[0] == a);
    assert(h1[0] == a) by {
        if t1.len() > crate::ids::MAX_SURFACES {
            assert(h1 == t1.take(crate::ids::MAX_SURFACES as int));
        }
    }
    assert(h1.len() >= 1);
    let f = h1.filter(not_id(b));
    assert(f.len() >= 1 && f[0] == a) by {
        let p = not_id(b);
        assert(p(h1[0]));
        broadcast use vstd::seq_lib::group_filter_ensures;
        assert(f.contains(a)) by {
            assert(h1.contains(a));
        }
        reveal_with_fuel(Seq::filter, 2);
        assert(h1 =~= seq![h1[0]] + h1.drop_first());
        Seq::filter_distributes_over_add(seq![h1[0]], h1.drop_first(), p);
        assert(seq![h1[0]].filter(p) =~= seq![a]) by {
            reveal_with_fuel(Seq::filter, 2);
            assert(seq![h1[0]].drop_last() =~= Seq::<SurfaceId>::empty());
        }
    }
    let t2 = seq![b] + f;
    assert(t2[0] == b && t2[1] == a);
    let h2 = touched(h1, b);
    assert(h2[0] == b && h2[1] == a && h2.len() >= 2) by {
        if t2.len() > crate::ids::MAX_SURFACES {
            assert(h2 == t2.take(crate::ids::MAX_SURFACES as int));
        }
    }
}

/// A destroyed surface leaves the focus history.
pub proof fn law_destroyed_leaves_history(h: Seq<SurfaceId>, id: SurfaceId)
    ensures
        !h.filter(not_id(id)).contains(id),
{
    broadcast use vstd::seq_lib::group_filter_ensures;
    if h.filter(not_id(id)).contains(id) {
        let j = choose|j: int| 0 <= j < h.filter(not_id(id)).len() && h.filter(not_id(id))[j] == id;
        assert(not_id(id)(h.filter(not_id(id))[j]));
    }
}

// ---------------------------------------------------------------------------
// Capabilities
// ---------------------------------------------------------------------------

proof fn lemma_authorizing_found(ts: Seq<Option<CapabilityToken>>, cap: Capability, now: u64, i: int, k: int)
    requires
        0 <= i <= k < ts.len(),
        authorizes(ts[k], cap, now),
    ensures
        first_authorizing(ts, cap, now, i) >= 0,
    decreases k - i,
{
    if !authorizes(ts[i], cap, now) {
        lemma_authorizing_found(ts, cap, now, i + 1, k);
    }
}

proof fn lemma_none_authorizing(ts: Seq<Option<CapabilityToken>>, cap: Capability, now: u64, i: int)
    requires
        0 <= i,
        forall|j: int| i <= j < ts.len() ==> !authorizes(#[trigger] ts[j], cap, now),
    ensures
        first_authorizing(ts, cap, now, i) == -1,
    decreases ts.len() - i,
{
    if i < ts.len() {
        lemma_none_authorizing(ts, cap, now, i + 1);
    }
}

/// A granted capability authorizes: once a live token for `cap` (not
/// revoked, no expiry) is stored in any slot of a process's table, the
/// process holds `cap` at every tick.
pub proof fn law_grant_authorizes(ts: Seq<Option<CapabilityToken>>, k: int, t: CapabilityToken, cap: Capability, now: u64)
    requires
        0 <= k < ts.len(),
        t.capability == cap,
        !t.revoked,
        t.expires_at_tick is None,
    ensures
        first_authorizing(ts.update(k, Some(t)), cap, now, 0) >= 0,
{
    lemma_authorizing_found(ts.update(k, Some(t)), cap, now, 0, k);
}

/// Revocation takes effect: when every token that grants `cap` is token
/// `id` or one of its children, revoking `id` leaves the process without
/// `cap`.
pub proof fn law_revoke_denies(ts: Seq<Option<CapabilityToken>>, id: CapabilityTokenId, cap: Capability, now: u64)
    requires
        forall|i: int| 0 <= i < ts.len() && authorizes(#[trigger] ts[i], cap, now) ==> (ts[i]->Some_0.id == id
            || ts[i]->Some_0.parent_token == Some(id)),
    ensures
        first_authorizing(ts.map_values(|o: Option<CapabilityToken>| revoked_by(o, id)), cap, now, 0) == -1,
{
    let r = ts.map_values(|o: Option<CapabilityToken>| revoked_by(o, id));
    assert forall|j: int| 0 <= j < r.len() implies !authorizes(#[trigger] r[j], cap, now) by {
        assert(r[j] == revoked_by(ts[j], id));
    }
    lemma_none_authorizing(r, cap, now, 0);
}

// ---------------------------------------------------------------------------
// Notifications
// ---------------------------------------------------------------------------

/// A blocked waiter is woken by a signal that hits its mask: it is handed
/// exactly the matching bits of the word, those bits leave the word, and
/// they are what its wait returns.
pub proof fn law_signal_wakes_waiter(word: u64, bits: u64, tid: ThreadId, mask: u64, results: Seq<Option<u64>>)
    requires
        (word | bits) & mask != 0,
        (tid.0 as int) < results.len(),
    ensures
        ({
            let ws = seq![Some(Waiter { tid, mask })];
            let w0 = word | bits;
            &&& scan_woken(w0, ws, 1) == seq![(tid, w0 & mask)]
            &&& scan_word(w0, ws, 1) & mask == 0
            &&& stored_results(results, scan_woken(w0, ws, 1))[tid.0 as int] == Some(w0 & mask)
        }),
{
    let ws = seq![Some(Waiter { tid, mask })];
    let w0 = word | bits;
    assert(scan_word(w0, ws, 0) == w0);
    assert(scan_woken(w0, ws, 0) =~= Seq::<(ThreadId, u64)>::empty());
    assert(scan_woken(w0, ws, 1) =~= seq![(tid, w0 & mask)]);
    assert((w0 & !(w0 & mask)) & mask == 0) by (bit_vector);
    assert(scan_word(w0, ws, 1) == w0 & !(w0 & mask));
    let woken = scan_woken(w0, ws, 1);
    assert(woken.drop_last() =~= Seq::<(ThreadId, u64)>::empty());
    assert(woken.last() == (tid, w0 & mask));
    assert(stored_results(results, woken.drop_last()) == results);
    assert(stored_results(results, woken) == results.update(tid.0 as int, Some(w0 & mask)));
}

proof fn lemma_scan_no_waiters(w0: u64, ws: Seq<Option<Waiter>>, n: int)
    requires
        0 <= n <= ws.len(),
        forall|i: int| 0 <= i < ws.len() ==> ws[i] is None,
    ensures
        scan_word(w0, ws, n) == w0,
        scan_woken(w0, ws, n).len() == 0,
    decreases n,
{
    if n > 0 {
        lemma_scan_no_waiters(w0, ws, n - 1);
    }
}

/// A signal on a notification nobody waits on only sets bits; a wait that
/// follows, for a mask meeting the word, returns at once with the bits of
/// the mask, which leave the word: it is then `(w | bits) & !mask`.
pub proof fn law_signal_then_wait(w: u64, bits: u64, mask: u64, ws: Seq<Option<Waiter>>)
    requires
        forall|i: int| 0 <= i < ws.len() ==> ws[i] is None,
    ensures
        scan_word(w | bits, ws, ws.len() as int) == w | bits,
        scan_woken(w | bits, ws, ws.len() as int).len() == 0,
        ((w | bits) & !((w | bits) & mask)) == (w | bits) & !mask,
{
    lemma_scan_no_waiters(w | bits, ws, ws.len() as int);
    let x = w | bits;
    assert((x & !(x & mask)) == x & !mask) by (bit_vector);
}

/// A wait takes what it asked for and nothing else: the returned bits are
/// the word's bits in the mask; afterwards none of them remain set, and
/// every other bit of the word is kept.
pub proof fn law_wait_consumes_matched(word: u64, mask: u64)
    ensures
        (word & !(word & mask)) & mask == 0,
        (word & !(word & mask)) & !mask == word & !mask,
        (word & !(word & mask)) | (word & mask) == word,
{
    assert((word & !(word & mask)) & mask == 0) by (bit_vector);
    assert((word & !(word & mask)) & !mask == word & !mask) by (bit_vector);
    assert((word & !(word & mask)) | (word & mask) == word) by (bit_vector);
}

// ---------------------------------------------------------------------------
// Call and reply
// ---------------------------------------------------------------------------

/// A call gets back what the server replied: when the reply `reply` is
/// written into the caller's slot `s` (registered for a buffer of
/// `buf_len` bytes) and the caller then takes it into a buffer at least
/// that long, it receives `min(reply length, buf_len)` bytes, and they are
/// the first bytes of the reply.
pub proof fn law_call_receives_reply(
    s: ReplySlot,
    reply: Seq<u8>,
    s2: ReplySlot,
    before: Seq<u8>,
    after: Seq<u8>,
    r: int,
)
    requires
        replied(s, reply, s2),
        took_reply(s2, before, after, r),
        before.len() >= s.buf_len,
    ensures
        r == (if reply.len() < s.buf_len { reply.len() as int } else { s.buf_len as int }),
        after.subrange(0, r) == reply.subrange(0, r),
        after.subrange(r, after.len() as int) == before.subrange(r, before.len() as int),
{
}

// ---------------------------------------------------------------------------
// Direct switch and priority inheritance
// ---------------------------------------------------------------------------

/// A call that switches directly to a blocked server and the server's reply
/// switch back undo each other: the reply switch is possible (the caller is
/// blocked waiting for it), and afterwards the server is back at its own
/// class and priority with nothing inherited, and the caller's scheduling
/// parameters are exactly what they were, its time slice included.
pub proof fn law_reply_undoes_inheritance(
    threads: Seq<Option<ThreadRecord>>,
    sched: Seq<SchedParams>,
    caller: ThreadId,
    server: ThreadId,
)
    requires
        threads.len() == MAX_THREADS,
        sched_wf(sched),
        caller != server,
        switch_possible(threads, caller, server),
    ensures
        switch_possible(threads_after_call(threads, caller, server), server, caller),
        ({
            let back = sched_after_reply(sched_after_call(sched, caller, server), server, caller);
            &&& back[server.0 as int].effective_class == sched[server.0 as int].class
            &&& back[server.0 as int].effective_priority == sched[server.0 as int].priority
            &&& back[server.0 as int].inherited_class is None
            &&& back[server.0 as int].inherited_priority is None
            &&& back[server.0 as int].inherited_deadline is None
            &&& back[caller.0 as int] == sched[caller.0 as int]
        }),
{
    assert(caller.0 != server.0);
}

/// While a server handles a call it runs at least at the caller's class:
/// after the direct switch its effective class is the caller's when the
/// caller outranks the server's base class, and its own otherwise.
pub proof fn law_call_inherits_caller_class(sched: Seq<SchedParams>, caller: ThreadId, server: ThreadId)
    requires
        sched_wf(sched),
        caller != server,
        (caller.0 as int) < MAX_THREADS,
        (server.0 as int) < MAX_THREADS,
    ensures
        ({
            let after = sched_after_call(sched, caller, server)[server.0 as int];
            let c = sched[caller.0 as int];
            let s = sched[server.0 as int];
            &&& c.effective_class > s.class ==> after.effective_class == c.effective_class
                && after.effective_priority == c.effective_priority
            &&& c.effective_class <= s.class ==> after.effective_class == s.effective_class
                && after.effective_priority == s.effective_priority
            &&& after.inherited_class == Some(c.effective_class)
        }),
{
    assert(caller.0 != server.0);
}

// ---------------------------------------------------------------------------
// Timeouts
// ---------------------------------------------------------------------------

/// A deadline fires at its tick and not before, and only once: the entry
/// set for `tid` is expired exactly from `at` on, and once the expiry pass
/// has cleared the slot nothing fires for it again.
pub proof fn law_timeout_fires_once(at: u64, tid: ThreadId, error_code: i64, now: u64, later: u64)
    ensures
        is_expired(Some(TimeoutEntry { tid, wake_at_tick: at, error_code }), now) <==> now >= at,
        !is_expired(None, later),
{
}

/// A sleep of `ticks` started at `now` for thread `t` is expired by the sweep
/// at `later` exactly when `later >= now + ticks`, and the sweep then hands
/// the thread wakeup error 0, a normal wakeup.
pub proof fn law_sleeper_wakes_without_error(
    q: Seq<Option<TimeoutEntry>>,
    t: ThreadId,
    now: u64,
    ticks: u64,
    later: u64,
)
    requires
        (t.0 as int) < q.len(),
        now + ticks <= u64::MAX,
    ensures
        ({
            let q2 = q.update(t.0 as int, Some(TimeoutEntry { tid: t, wake_at_tick: (now + ticks) as u64, error_code: 0 }));
            &&& is_expired(q2[t.0 as int], later) <==> later >= now + ticks
            &&& q2[t.0 as int]->Some_0.error_code == 0
        }),
{
}

// ---------------------------------------------------------------------------
// Shared memory
// ---------------------------------------------------------------------------

proof fn lemma_count_drop(ms: Seq<Option<SharedMapping>>, k: int)
    requires
        0 <= k < ms.len(),
        ms[k] is Some,
    ensures
        count_mapped(ms.update(k, None)) + 1 == count_mapped(ms),
    decreases ms.len(),
{
    let u = ms.update(k, None);
    if k == ms.len() - 1 {
        assert(u.drop_last() =~= ms.drop_last());
    } else {
        assert(u.drop_last() =~= ms.drop_last().update(k, None));
        lemma_count_drop(ms.drop_last(), k);
    }
}

/// A region's count of mappings falls by one with each unmap: when the
/// mapping removed was the only one, nothing maps the region any more, so
/// its pages can be freed.
pub proof fn law_last_unmap_frees(ms: Seq<Option<SharedMapping>>, pid: ProcessId)
    requires
        find_mapping(ms, pid, 0) >= 0,
    ensures
        count_mapped(ms.update(find_mapping(ms, pid, 0), None)) + 1 == count_mapped(ms),
        count_mapped(ms) == 1 ==> count_mapped(ms.update(find_mapping(ms, pid, 0), None)) == 0,
{
    let k = find_mapping(ms, pid, 0);
    lemma_find_mapping_slot(ms, pid, 0);
    lemma_count_drop(ms, k);
}

proof fn lemma_find_mapping_slot(ms: Seq<Option<SharedMapping>>, pid: ProcessId, i: int)
    requires
        find_mapping(ms, pid, i) >= 0,
    ensures
        0 <= find_mapping(ms, pid, i) < ms.len(),
        ms[find_mapping(ms, pid, i)] is Some,
    decreases ms.len() - i,
{
    if i >= 0 && i < ms.len() && !(ms[i] matches Some(m) && m.pid == pid) {
        lemma_find_mapping_slot(ms, pid, i + 1);
    }
}

/// W^X holds for every mapping: flags a region admits (a subset of its
/// maximum flags, which are never writable and executable at once) are
/// never writable and executable at once either.
pub proof fn law_mapped_flags_not_wx(max: VmFlags, flags: VmFlags)
    requires
        max.spec_contains(flags),
        !max.spec_is_wx(),
    ensures
        !flags.spec_is_wx(),
{
    let m = max.0;
    let f = flags.0;
    assert(2u32 | 4u32 == 6u32) by (bit_vector);
    assert(m & f == f && m & 6u32 != 6u32 ==> f & 6u32 != 6u32) by (bit_vector);
}

// ---------------------------------------------------------------------------
// Window placement
// ---------------------------------------------------------------------------

/// The cascade offset of new windows repeats every eight windows, is a
/// multiple of 24 and stays within 0..=168.
pub proof fn law_cascade_repeats_every_eight(s: u64)
    requires
        s + 8 <= 89_478_485,
    ensures
        cascade_offset((s + 8) as u64) == cascade_offset(s),
        0 <= cascade_offset(s) <= 168,
        cascade_offset(s) % 24 == 0,
{
    assert(i32_of_u64(s) == s as int);
    assert(i32_of_u64((s + 8) as u64) == s + 8);
    let k = s as int;
    assert((k * 24 + 192) % 192 == (k * 24) % 192) by (nonlinear_arith)
        requires
            k >= 0,
    ;
    assert((k + 8) * 24 == k * 24 + 192) by (nonlinear_arith);
    assert((k * 24) % 192 == 24 * (k % 8)) by (nonlinear_arith)
        requires
            k >= 0,
    ;
    assert(0 <= k % 8 < 8);
    assert((24 * (k % 8)) % 24 == 0) by (nonlinear_arith);
}

// ---------------------------------------------------------------------------
// Title text
// ---------------------------------------------------------------------------

/// `text` with each byte of 0x80 or more replaced by `?`.
pub open spec fn question_marked(text: Seq<u8>) -> Seq<u8> {
    text.map_values(|b: u8| if b < 128 { b } else { 63u8 })
}

/// Drawing a title whose non-ASCII bytes are replaced by `?` gives the same
/// pixels as drawing the title itself: those bytes are drawn as `?`.
pub proof fn law_non_ascii_draws_as_question_mark(
    dst: Seq<u32>,
    w: int,
    h: int,
    x: int,
    y: int,
    max_x: int,
    text: Seq<u8>,
    fg: u32,
    bg: u32,
    n: int,
)
    requires
        n <= text.len(),
    ensures
        drawn_text(dst, w, h, x, y, max_x, text, fg, bg, n) == drawn_text(dst, w, h, x, y, max_x, question_marked(text), fg, bg, n),
    decreases n,
{
    if n > 0 {
        law_non_ascii_draws_as_question_mark(dst, w, h, x, y, max_x, text, fg, bg, n - 1);
        assert(title_glyph(text[n - 1]) == title_glyph(question_marked(text)[n - 1]));
    }
}

// ---------------------------------------------------------------------------
// Shell redraws
// ---------------------------------------------------------------------------

/// Toggling the workspace twice restores it: the panel's flag is back to
/// what it was and, where the compositor may change its surface, the
/// surface's `visible` flag matches it again (and the surface is marked
/// damaged).
pub proof fn law_toggle_twice_restores(
    w: WorkspaceState,
    ws1: Option<WorkspaceState>,
    ws2: Option<WorkspaceState>,
    t: SurfaceTableView,
    t1: SurfaceTableView,
    t2: SurfaceTableView,
    r1: Option<(SurfaceId, bool)>,
    r2: Option<(SurfaceId, bool)>,
)
    requires
        t.wf(),
        t1.wf(),
        t2.wf(),
        workspace_toggled(Some(w), ws1, t, t1, r1),
        workspace_toggled(ws1, ws2, t1, t2, r2),
    ensures
        ws2 matches Some(n) && n.visible == w.visible && n.surface_id == w.surface_id,
        t.refusal(w.surface_id, ProcessId(COMPOSITOR_PID)) is None ==> {
            &&& t2.contains(w.surface_id)
            &&& t2.get(w.surface_id).visible == w.visible
            &&& t2.get(w.surface_id).damaged
        },
{
    let id = w.surface_id;
    let c = ProcessId(COMPOSITOR_PID);
    if t.refusal(id, c) is None {
        let k = t.index_of(id);
        assert(t.holds(k, id));
        assert(t1.holds(k, id));
        assert(t1.index_of(id) == k) by {
            let k1 = t1.index_of(id);
            assert(t1.holds(k1, id));
        }
        assert(t1.refusal(id, c) is None);
        assert(t2.holds(k, id));
        assert(t2.index_of(id) == k) by {
            let k2 = t2.index_of(id);
            assert(t2.holds(k2, id));
        }
    }
}

/// A workspace snapshot equals itself, so taking the same snapshot again
/// after the first frame never redraws.
pub proof fn law_workspace_snapshot_stable(a: WorkspaceSnapshot)
    ensures
        same_snapshot(a, a),
{
}

/// A taskbar snapshot equals itself, so taking the same snapshot again
/// after the first frame never redraws.
pub proof fn law_taskbar_snapshot_stable(a: TaskbarSnapshot)
    ensures
        same_taskbar(a, a),
{
}

// ---------------------------------------------------------------------------
// Input
// ---------------------------------------------------------------------------

/// Pressing and then releasing a modifier key leaves its bit clear and every
/// other held modifier as it was; pressing sets the bit.
pub proof fn law_modifier_press_release(mods: u8, code: u16)
    requires
        modifier_flag(code) is Some,
    ensures
        ({
            let f = modifier_flag(code)->Some_0;
            &&& modifiers_after(mods, code, 1) & f == f
            &&& modifiers_after(modifiers_after(mods, code, 1), code, 0) == mods & !f
        }),
{
    let f = modifier_flag(code)->Some_0;
    assert((mods | f) & f == f) by (bit_vector);
    assert((mods | f) & !f == mods & !f) by (bit_vector);
}

// ---------------------------------------------------------------------------
// Benchmarks
// ---------------------------------------------------------------------------

/// The 99th percentile is one of the recorded samples, and at least
/// `p99_index + 1` of the samples are no larger than it.
pub proof fn law_p99_is_sample(sorted: Seq<u64>, samples: Seq<u64>)
    requires
        sorted.len() > 0,
        is_sorted(sorted),
        sorted.to_multiset() == samples.to_multiset(),
    ensures
        samples.contains(sorted[p99_index(sorted.len() as int)]),
        forall|i: int| 0 <= i <= p99_index(sorted.len() as int) ==> #[trigger] sorted[i] <= sorted[p99_index(sorted.len() as int)],
{
    let n = sorted.len() as int;
    let k = p99_index(n);
    assert(0 <= k < n);
    let x = sorted[k];
    assert(sorted.contains(x));
    vstd::seq_lib::to_multiset_contains(sorted, x);
    vstd::seq_lib::to_multiset_contains(samples, x);
}

// ---------------------------------------------------------------------------
// Boot phases
// ---------------------------------------------------------------------------

/// Boot phases are told apart by their numbers: two phases with the same
/// number are the same phase.
pub proof fn law_phase_number_injective(p: EarlyBootPhase, q: EarlyBootPhase)
    requires
        phase_number(p) == phase_number(q),
    ensures
        p == q,
{
}

// ---------------------------------------------------------------------------
// Alt+Tab, input coalescing, stacking order, timer interrupt, signals
// ---------------------------------------------------------------------------

/// The Alt+Tab target is the first history entry (most recent first) that
/// is not the keyboard focus: there is one exactly when some entry differs
/// from the focus, and with no keyboard focus it is the most recent entry.
pub proof fn law_alt_tab_first_other(h: Seq<SurfaceId>, current: Option<SurfaceId>)
    requires
        h.no_duplicates(),
    ensures
        alt_tab_spec(h, current) is None <==> (forall|i: int| 0 <= i < h.len() ==> Some(#[trigger] h[i]) == current),
        alt_tab_spec(h, current) matches Some(t) ==> exists|i: int|
            0 <= i < h.len() && #[trigger] h[i] == t && Some(t) != current && (forall|j: int| 0 <= j < i ==> Some(h[j]) == current),
        (current is None && h.len() > 0) ==> alt_tab_spec(h, current) == Some(h[0]),
{
    if h.len() > 0 {
        if Some(h[0]) != current {
            assert(h[0] == h[0]);
        } else if h.len() > 1 {
            assert(h[1] != h[0]);
            assert(Some(h[1]) != current);
            assert(forall|j: int| 0 <= j < 1 ==> Some(h[j]) == current);
        } else {
            assert forall|i: int| 0 <= i < h.len() implies Some(#[trigger] h[i]) == current by {
                assert(i == 0);
            }
        }
    }
}

proof fn lemma_coalesce_prefix_extends(s: Seq<InputEvent>, e: InputEvent, k: int)
    requires
        0 <= k <= s.len(),
    ensures
        coalesce_prefix(s.push(e), k) == coalesce_prefix(s, k),
    decreases k,
{
    if k > 0 {
        lemma_coalesce_prefix_extends(s, e, k - 1);
        assert(s.push(e)[k - 1] == s[k - 1]);
    }
}

/// Coalescing pointer motion, one event at a time: nothing comes of
/// nothing; a non-motion event (a key, a click or release) goes out after
/// everything before it, any pending motion included; a motion event
/// replaces a motion event that ended the input before it and is otherwise
/// added, so each run of motion contributes exactly its last position, in
/// place.
pub proof fn law_coalesce_steps(s: Seq<InputEvent>, e: InputEvent)
    ensures
        coalesce_spec(Seq::empty()) == Seq::<InputEvent>::empty(),
        !e.is_motion() ==> coalesce_spec(s.push(e)) == coalesce_spec(s).push(e),
        e.is_motion() ==> coalesce_spec(s.push(e)) == (if s.len() > 0 && s.last().is_motion() {
            coalesce_spec(s).drop_last()
        } else {
            coalesce_spec(s)
        }).push(e),
{
    let n = s.len() as int;
    let t = s.push(e);
    lemma_coalesce_prefix_extends(s, e, n);
    assert(t[n] == e);
    assert(coalesce_prefix(t, n) == coalesce_prefix(s, n));
    let (out, pending) = coalesce_prefix(s, n);
    if n > 0 {
        assert(s.last() == s[n - 1]);
        let (o2, p2) = coalesce_prefix(s, n - 1);
        if s[n - 1].is_motion() {
            assert(pending is Some);
        } else {
            assert(pending is None);
        }
    }
}

/// Layers stack in their declared order, bottom to top: background, normal
/// windows, always-on-top windows, panels, overlays; so in composition
/// order every surface of a higher layer comes after every surface of a
/// lower one, whatever their sequence numbers.
pub proof fn law_layers_stack_in_order(a: Surface, b: Surface)
    ensures
        SurfaceLayer::Background.spec_rank() < SurfaceLayer::Normal.spec_rank(),
        SurfaceLayer::Normal.spec_rank() < SurfaceLayer::TopLevel.spec_rank(),
        SurfaceLayer::TopLevel.spec_rank() < SurfaceLayer::Panel.spec_rank(),
        SurfaceLayer::Panel.spec_rank() < SurfaceLayer::Overlay.spec_rank(),
        (a.layer == SurfaceLayer::Normal && b.layer == SurfaceLayer::TopLevel) ==> a.layer.spec_rank() < b.layer.spec_rank(),
        a.layer.spec_rank() == b.layer.spec_rank() ==> a.layer == b.layer,
{
}

/// The timer interrupt is the second specifier of the timer node (the
/// non-secure physical timer): for a PPI `<1 n f>` there the record's
/// interrupt is `n + 16` (wrapping as the kernel's arithmetic does),
/// whatever the first (secure) specifier is.
pub proof fn law_timer_ppi_is_second_specifier(f: DtbFacts, dt: DeviceTree, irqs: Seq<Seq<u32>>, first: Seq<u32>, n: u32, flags: u32)
    requires
        irqs.len() >= 2,
        irqs[1] == seq![1u32, n, flags],
        f.timer_interrupts == Some(irqs),
        facts_give(f, &dt),
    ensures
        dt.timer_ppi == ((n as int + 16) % 0x1_0000_0000) as u32,
        timer_ppi_of(Some(irqs.update(0, first))) == dt.timer_ppi,
{
    assert(irqs.update(0, first)[1] == irqs[1]);
}

/// Without a timer node, with fewer than two specifiers, or when the second
/// is not a PPI (type cell other than 1, or no cells), the timer interrupt
/// is the default 30; a PPI second specifier with its number in the second
/// cell gives that number plus 16, whatever else the specifiers hold.
pub proof fn law_timer_ppi_cases(irqs: Seq<Seq<u32>>)
    ensures
        timer_ppi_of(None) == 30,
        irqs.len() < 2 ==> timer_ppi_of(Some(irqs)) == 30,
        (irqs.len() >= 2 && (irqs[1].len() == 0 || irqs[1][0] != 1)) ==> timer_ppi_of(Some(irqs)) == 30,
        (irqs.len() >= 2 && irqs[1].len() >= 2 && irqs[1][0] == 1) ==> timer_ppi_of(Some(irqs)) == ((irqs[1][1] as int
            + 16) % 0x1_0000_0000) as u32,
{
}

proof fn lemma_scan_word_shrinks(w0: u64, ws: Seq<Option<Waiter>>, i: int, n: int)
    requires
        0 <= i <= n <= ws.len(),
    ensures
        scan_word(w0, ws, n) & !scan_word(w0, ws, i) == 0,
    decreases n - i,
{
    let y = scan_word(w0, ws, i);
    if n == i {
        assert(y & !y == 0) by (bit_vector);
    } else {
        lemma_scan_word_shrinks(w0, ws, i, n - 1);
        let x = scan_word(w0, ws, n - 1);
        match ws[n - 1] {
            Some(wt) => {
                let m = wt.mask;
                assert(x & !y == 0 ==> (x & !(x & m)) & !y == 0) by (bit_vector);
            },
            None => {},
        }
    }
}

/// A signal serves every waiter whose mask meets the word as it stands when
/// the scan reaches it: afterwards no waiter left in its slot has any of its
/// bits set in the word; and the signal only ever clears bits of the word.
pub proof fn law_signal_leaves_no_matching_waiter(w0: u64, ws: Seq<Option<Waiter>>)
    ensures
        scan_word(w0, ws, ws.len() as int) & !w0 == 0,
        forall|i: int|
            0 <= i < ws.len() && #[trigger] ws[i] is Some && !scan_hits(w0, ws, i) ==> scan_word(w0, ws, ws.len() as int)
                & ws[i]->Some_0.mask == 0,
{
    assert forall|i: int|
        0 <= i < ws.len() && #[trigger] ws[i] is Some && !scan_hits(w0, ws, i) implies scan_word(w0, ws, ws.len() as int)
            & ws[i]->Some_0.mask == 0 by {
        if !scan_hits(w0, ws, i) && ws[i] is Some {
            let wt = ws[i]->Some_0;
            let m = wt.mask;
            let y = scan_word(w0, ws, i);
            let z = scan_word(w0, ws, ws.len() as int);
            lemma_scan_word_shrinks(w0, ws, i, ws.len() as int);
            assert(y & m == 0);
            assert(z & !y == 0 && y & m == 0 ==> z & m == 0) by (bit_vector);
        }
    }
    lemma_scan_word_shrinks(w0, ws, 0, ws.len() as int);
}

} // verus!
