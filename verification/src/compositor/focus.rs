//! Focus management: keyboard focus, pointer focus and the Alt+Tab history.
use vstd::prelude::*;

use crate::ids::{SurfaceId, MAX_SURFACES};

verus! {

/// The history with `id` moved to the front (most recent first), capped at
/// `MAX_SURFACES` entries.
pub open spec fn touched(s: Seq<SurfaceId>, id: SurfaceId) -> Seq<SurfaceId> {
    cap(seq![id] + s.filter(not_id(id)))
}

/// The predicate "differs from `id`".
pub open spec fn not_id(id: SurfaceId) -> spec_fn(SurfaceId) -> bool {
    |x: SurfaceId| x != id
}

/// The first `MAX_SURFACES` entries.
pub open spec fn cap(s: Seq<SurfaceId>) -> Seq<SurfaceId> {
    if s.len() > MAX_SURFACES { s.take(MAX_SURFACES as int) } else { s }
}

/// Most-recently-used order of surfaces that held keyboard focus.
pub struct FocusHistory {
    entries: Vec<SurfaceId>,
}

impl View for FocusHistory {
    type V = Seq<SurfaceId>;

    closed spec fn view(&self) -> Seq<SurfaceId> {
        self.entries@
    }
}

impl FocusHistory {
    /// At most `MAX_SURFACES` entries, none repeated.
    pub open spec fn wf(&self) -> bool {
        &&& self@.len() <= MAX_SURFACES
        &&& self@.no_duplicates()
    }

    /// An empty history.
    pub fn new() -> (h: FocusHistory)
        ensures
            h.wf(),
            h@ == Seq::<SurfaceId>::empty(),
    {
        FocusHistory { entries: Vec::new() }
    }

    /// Record that `id` gained focus: it moves to the front; when the history
    /// is full the least recent entry drops off.
    pub fn touch(&mut self, id: SurfaceId)
        requires
            old(self).wf(),
        ensures
            final(self).wf(),
            final(self)@ == touched(old(self)@, id),
    {
        let ghost s = self.entries@;
        let ghost p = not_id(id);
        let mut out: Vec<SurfaceId> = Vec::new();
        out.push(id);
        let mut i: usize = 0;
        while i < self.entries.len()
            invariant
                i <= s.len(),
                s == self.entries@,
                s.len() <= MAX_SURFACES,
                s.no_duplicates(),
                p == not_id(id),
                out@ == cap(seq![id] + s.take(i as int).filter(p)),
            decreases s.len() - i,
        {
            let e = self.entries[i];
            proof {
                reveal(Seq::filter);
                assert(s.take(i as int + 1).drop_last() =~= s.take(i as int));
                assert(s.take(i as int + 1).last() == e);
                s.take(i as int).lemma_filter_len(p);
            }
            if e != id && out.len() < MAX_SURFACES {
                out.push(e);
                proof {
                    assert(seq![id] + s.take(i as int + 1).filter(p) =~= (seq![id] + s.take(i as int).filter(p)).push(e));
                }
            } else if e != id {
                proof {
                    assert(seq![id] + s.take(i as int + 1).filter(p) =~= (seq![id] + s.take(i as int).filter(p)).push(e));
                    assert(cap((seq![id] + s.take(i as int).filter(p)).push(e)) =~= cap(seq![id] + s.take(i as int).filter(p)));
                }
            } else {
                proof {
                    assert(s.take(i as int + 1).filter(p) == s.take(i as int).filter(p));
                }
            }
            i = i + 1;
        }
        proof {
            assert(s.take(s.len() as int) =~= s);
            broadcast use vstd::seq_lib::group_filter_ensures;
            let t = seq![id] + s.filter(p);
            assert forall|a: int, b: int| 0 <= a < out@.len() && 0 <= b < out@.len() && a != b implies out@[a] != out@[b] by {
                assert(out@[a] == t[a] && out@[b] == t[b]);
                if a == 0 {
                    assert(p(s.filter(p)[b - 1]));
                } else if b == 0 {
                    assert(p(s.filter(p)[a - 1]));
                } else {
                    lemma_filter_no_dups(s, p);
                }
            }
        }
        self.entries = out;
    }

    /// Forget `id`.
    pub fn remove(&mut self, id: SurfaceId)
        requires
            old(self).wf(),
        ensures
            final(self).wf(),
            final(self)@ == old(self)@.filter(not_id(id)),
    {
        let ghost s = self.entries@;
        let ghost p = not_id(id);
        let mut out: Vec<SurfaceId> = Vec::new();
        let mut i: usize = 0;
        while i < self.entries.len()
            invariant
                i <= s.len(),
                s == self.entries@,
                p == not_id(id),
                out@ == s.take(i as int).filter(p),
            decreases s.len() - i,
        {
            let e = self.entries[i];
            proof {
                reveal(Seq::filter);
                assert(s.take(i as int + 1).drop_last() =~= s.take(i as int));
                assert(s.take(i as int + 1).last() == e);
            }
            if e != id {
                out.push(e);
            }
            i = i + 1;
        }
        proof {
            assert(s.take(s.len() as int) =~= s);
            s.lemma_filter_len(p);
            lemma_filter_no_dups(s, p);
        }
        self.entries = out;
    }

    /// Entries, most recent first.
    pub fn iter(&self) -> (r: Vec<SurfaceId>)
        ensures
            r@ == self@,
    {
        self.entries.clone()
    }
}

/// Filtering keeps a sequence free of duplicates.
proof fn lemma_filter_no_dups(s: Seq<SurfaceId>, p: spec_fn(SurfaceId) -> bool)
    requires
        s.no_duplicates(),
    ensures
        s.filter(p).no_duplicates(),
    decreases s.len(),
{
    reveal(Seq::filter);
    if s.len() > 0 {
        let d = s.drop_last();
        assert(d.no_duplicates());
        lemma_filter_no_dups(d, p);
        if p(s.last()) {
            if d.filter(p).contains(s.last()) {
                d.lemma_filter_contains_rev(p, s.last());
                let k = choose|k: int| 0 <= k < d.len() && d[k] == s.last();
                assert(s[k] == s[s.len() - 1]);
            }
        }
    }
}

/// The surfaces that need a focus-changed notification after a keyboard
/// focus change.
#[derive(Debug, Clone, Copy, PartialEq, Eq, Structural)]
pub struct FocusChange {
    /// The surface that lost keyboard focus, if any.
    pub lost: Option<SurfaceId>,
    /// The surface that gained keyboard focus, if any.
    pub gained: Option<SurfaceId>,
}

/// The most recent history entry other than `current` (at most one entry
/// can equal `current`, so only the first two need looking at).
pub open spec fn alt_tab_spec(h: Seq<SurfaceId>, current: Option<SurfaceId>) -> Option<SurfaceId> {
    if h.len() > 0 && Some(h[0]) != current {
        Some(h[0])
    } else if h.len() > 1 && Some(h[1]) != current {
        Some(h[1])
    } else {
        None
    }
}

/// Compositor focus state: keyboard focus, pointer focus, focus history.
pub struct FocusManager {
    keyboard_focus: Option<SurfaceId>,
    pointer_focus: Option<SurfaceId>,
    focus_history: FocusHistory,
}

/// Abstract focus state.
pub ghost struct FocusState {
    pub keyboard_focus: Option<SurfaceId>,
    pub pointer_focus: Option<SurfaceId>,
    pub history: Seq<SurfaceId>,
}

impl View for FocusManager {
    type V = FocusState;

    closed spec fn view(&self) -> FocusState {
        FocusState {
            keyboard_focus: self.keyboard_focus,
            pointer_focus: self.pointer_focus,
            history: self.focus_history@,
        }
    }
}

impl FocusManager {
    pub closed spec fn wf(&self) -> bool {
        self.focus_history.wf()
    }

    /// No focus, empty history.
    pub fn new() -> (m: FocusManager)
        ensures
            m.wf(),
            m@.keyboard_focus is None,
            m@.pointer_focus is None,
            m@.history == Seq::<SurfaceId>::empty(),
    {
        FocusManager { keyboard_focus: None, pointer_focus: None, focus_history: FocusHistory::new() }
    }

    /// Give keyboard focus to `id` (or clear it with `None`). A request for
    /// the surface that already has focus changes nothing. Otherwise the new
    /// surface moves to the front of the history and the change is reported.
    pub fn set_keyboard_focus(&mut self, id: Option<SurfaceId>) -> (c: FocusChange)
        requires
            old(self).wf(),
        ensures
            final(self).wf(),
            id == old(self)@.keyboard_focus ==> c == (FocusChange { lost: None, gained: None })
                && final(self)@ == old(self)@,
            id != old(self)@.keyboard_focus ==> {
                &&& c == (FocusChange { lost: old(self)@.keyboard_focus, gained: id })
                &&& final(self)@.keyboard_focus == id
                &&& final(self)@.pointer_focus == old(self)@.pointer_focus
                &&& final(self)@.history == match id {
                    Some(new) => touched(old(self)@.history, new),
                    None => old(self)@.history,
                }
            },
    {
        if id == self.keyboard_focus {
            return FocusChange { lost: None, gained: None };
        }
        let lost = self.keyboard_focus;
        self.keyboard_focus = id;
        match id {
            Some(new) => self.focus_history.touch(new),
            None => {},
        }
        FocusChange { lost, gained: id }
    }

    /// Update the pointer focus (internal; never notified).
    pub fn set_pointer_focus(&mut self, id: Option<SurfaceId>)
        requires
            old(self).wf(),
        ensures
            final(self).wf(),
            final(self)@ == (FocusState { pointer_focus: id, ..old(self)@ }),
    {
        self.pointer_focus = id;
    }

    /// The keyboard-focused surface.
    pub fn keyboard_focus(&self) -> (r: Option<SurfaceId>)
        ensures
            r == self@.keyboard_focus,
    {
        self.keyboard_focus
    }

    /// The surface under the pointer.
    pub fn pointer_focus(&self) -> (r: Option<SurfaceId>)
        ensures
            r == self@.pointer_focus,
    {
        self.pointer_focus
    }

    /// The focus history, most recent first.
    pub fn history(&self) -> (r: Vec<SurfaceId>)
        ensures
            r@ == self@.history,
    {
        self.focus_history.iter()
    }

    /// The next Alt+Tab target: the most recently used surface that does not
    /// have keyboard focus.
    pub fn alt_tab_target(&self) -> (r: Option<SurfaceId>)
        requires
            self.wf(),
        ensures
            r == alt_tab_spec(self@.history, self@.keyboard_focus),
    {
        let current = self.keyboard_focus;
        let h = self.focus_history.iter();
        let mut i: usize = 0;
        while i < h.len()
            invariant
                i <= h@.len(),
                h@ == self@.history,
                h@.no_duplicates(),
                current == self@.keyboard_focus,
                forall|j: int| 0 <= j < i ==> Some(h@[j]) == current,
            decreases h@.len() - i,
        {
            if Some(h[i]) != current {
                proof {
                    if i >= 2 {
                        assert(h@[0] == h@[1]);
                    }
                }
                return Some(h[i]);
            }
            i = i + 1;
        }
        proof {
            if h@.len() >= 2 {
                assert(h@[0] == h@[1]);
            }
        }
        None
    }

    /// Forget a destroyed surface: it leaves the history and both focus
    /// slots. When it had keyboard focus, the loss is reported.
    pub fn surface_destroyed(&mut self, id: SurfaceId) -> (c: FocusChange)
        requires
            old(self).wf(),
        ensures
            final(self).wf(),
            final(self)@.history == old(self)@.history.filter(not_id(id)),
            final(self)@.pointer_focus == (if old(self)@.pointer_focus == Some(id) { None } else { old(self)@.pointer_focus }),
            final(self)@.keyboard_focus == (if old(self)@.keyboard_focus == Some(id) { None } else { old(self)@.keyboard_focus }),
            c == (if old(self)@.keyboard_focus == Some(id) {
                FocusChange { lost: Some(id), gained: None }
            } else {
                FocusChange { lost: None, gained: None }
            }),
    {
        self.focus_history.remove(id);
        if self.pointer_focus == Some(id) {
            self.pointer_focus = None;
        }
        if self.keyboard_focus == Some(id) {
            self.keyboard_focus = None;
            return FocusChange { lost: Some(id), gained: None };
        }
        FocusChange { lost: None, gained: None }
    }
}

} // verus!
