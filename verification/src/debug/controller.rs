//! The debug controller: the debug sessions, their breakpoints and paused states.
//!
//! The channels that carry pause notifications and commands belong to whoever runs the
//! sessions; the controller keeps what is decided about them.

use vstd::prelude::*;
use crate::debug::types::{Breakpoint, DebugSession, DebugTarget, PausedState, first_bp};
use crate::maps::IdMap;
use crate::text::str_eq;

verus! {

/// Whether the session has an enabled breakpoint in `script`.
pub open spec fn watches_script(s: DebugSession, script: Seq<char>) -> bool {
    exists|i: int| 0 <= i < s.breakpoints@.len() && #[trigger] s.breakpoints@[i].source@ == script && s.breakpoints@[i].enabled
}

/// Whether the session has an enabled breakpoint in `script`.
fn has_enabled_breakpoint_in(s: &DebugSession, script: &str) -> (r: bool)
    ensures
        r == watches_script(*s, script@),
{
    let mut i: usize = 0;
    while i < s.breakpoints.len()
        invariant
            i <= s.breakpoints@.len(),
            forall|j: int| 0 <= j < i ==> !(#[trigger] s.breakpoints@[j].source@ == script@ && s.breakpoints@[j].enabled),
        decreases s.breakpoints@.len() - i,
    {
        let bp = &s.breakpoints[i];
        if str_eq(bp.source.as_str(), script) && bp.enabled {
            assert(s.breakpoints@[i as int].source@ == script@);
            return true;
        }
        i = i + 1;
    }
    false
}

/// The identifiers, among `keys`, of sessions of `m` that pass `keep`, in order.
pub open spec fn session_ids_where(keys: Seq<u128>, m: Map<u128, DebugSession>, keep: spec_fn(DebugSession) -> bool) -> Seq<u128>
    decreases keys.len(),
{
    if keys.len() == 0 {
        Seq::empty()
    } else {
        let r = session_ids_where(keys.drop_last(), m, keep);
        if keep(m[keys.last()]) { r.push(keys.last()) } else { r }
    }
}

/// Sessions watching `script`.
pub open spec fn watching(script: Seq<char>) -> spec_fn(DebugSession) -> bool {
    |s: DebugSession| watches_script(s, script)
}

/// Sessions watching `script` for `target`.
pub open spec fn watching_for(script: Seq<char>, target: DebugTarget) -> spec_fn(DebugSession) -> bool {
    |s: DebugSession| s.target == target && watches_script(s, script)
}

/// Central controller for all debug sessions.
pub struct DebugController {
    sessions: IdMap<DebugSession>,
}

impl DebugController {
    /// The sessions by identifier.
    pub closed spec fn sessions_view(&self) -> Map<u128, DebugSession> {
        self.sessions@
    }

    /// The session identifiers in the order the sessions started.
    pub closed spec fn session_order(&self) -> Seq<u128> {
        self.sessions.key_seq()
    }

    /// The controller is well formed.
    pub closed spec fn inv(&self) -> bool {
        self.sessions.wf()
    }

    proof fn lemma_order(&self)
        requires
            self.inv(),
        ensures
            self.session_order().len() == self.sessions_view().len(),
            forall|k: u128| #[trigger] self.session_order().contains(k) <==> self.sessions_view().contains_key(k),
    {
        self.sessions.lemma_dom();
    }

    /// A controller with no sessions.
    pub fn new() -> (r: Self)
        ensures
            r.inv(),
            r.sessions_view() == Map::<u128, DebugSession>::empty(),
    {
        DebugController { sessions: IdMap::new() }
    }

    /// Start a new debug session for `owner_id` on `target`; returns its identifier.
    pub fn start_session(&mut self, owner_id: u128, target: DebugTarget) -> (r: u128)
        requires
            old(self).inv(),
        ensures
            final(self).inv(),
            final(self).sessions_view().contains_key(r),
            final(self).sessions_view() == old(self).sessions_view().insert(r, final(self).sessions_view()[r]),
            final(self).sessions_view()[r].id == r,
            final(self).sessions_view()[r].owner_id == owner_id,
            final(self).sessions_view()[r].target == target,
            final(self).sessions_view()[r].active,
            final(self).sessions_view()[r].breakpoints@.len() == 0,
            final(self).sessions_view()[r].paused_at is None,
    {
        let session = DebugSession::new(owner_id, target);
        let id = session.id;
        self.sessions.insert(id, session);
        id
    }

    /// End a debug session.
    pub fn end_session(&mut self, session_id: u128)
        requires
            old(self).inv(),
        ensures
            final(self).inv(),
            final(self).sessions_view() == old(self).sessions_view().remove(session_id),
    {
        self.sessions.remove(session_id);
    }

    /// Get a session by identifier.
    pub fn get_session(&self, session_id: u128) -> (r: Option<&DebugSession>)
        requires
            self.inv(),
        ensures
            r is Some == self.sessions_view().contains_key(session_id),
            r matches Some(s) ==> *s == self.sessions_view()[session_id],
    {
        self.sessions.get(session_id)
    }

    /// The first session, in start order, owned by `owner_id`.
    pub fn get_session_by_owner(&self, owner_id: u128) -> (r: Option<&DebugSession>)
        requires
            self.inv(),
        ensures
            r is None ==> forall|k: u128| #[trigger] self.sessions_view().contains_key(k) ==> self.sessions_view()[k].owner_id != owner_id,
            r matches Some(s) ==> exists|i: int| 0 <= i < self.session_order().len()
                && *s == self.sessions_view()[#[trigger] self.session_order()[i]]
                && s.owner_id == owner_id
                && forall|j: int| 0 <= j < i ==> self.sessions_view()[#[trigger] self.session_order()[j]].owner_id != owner_id,
    {
        proof { self.lemma_order(); }
        let n = self.sessions.len();
        let mut i: usize = 0;
        while i < n
            invariant
                self.inv(),
                n == self.session_order().len(),
                i <= n,
                forall|j: int| 0 <= j < i ==> self.sessions_view()[#[trigger] self.session_order()[j]].owner_id != owner_id,
            decreases n - i,
        {
            let e = self.sessions.entry_at(i);
            if e.1.owner_id == owner_id {
                return Some(&e.1);
            }
            i = i + 1;
        }
        proof {
            assert forall|k: u128| #[trigger] self.sessions_view().contains_key(k) implies self.sessions_view()[k].owner_id != owner_id by {
                assert(self.session_order().contains(k));
                let j = choose|j: int| 0 <= j < self.session_order().len() && self.session_order()[j] == k;
            }
        }
        None
    }

    /// Whether an active session targets `target`.
    pub fn has_session_for_target(&self, target: &DebugTarget) -> (r: bool)
        requires
            self.inv(),
        ensures
            r == exists|k: u128| #[trigger] self.sessions_view().contains_key(k)
                && self.sessions_view()[k].target == *target && self.sessions_view()[k].active,
    {
        proof { self.lemma_order(); }
        let n = self.sessions.len();
        let mut i: usize = 0;
        while i < n
            invariant
                self.inv(),
                n == self.session_order().len(),
                i <= n,
                forall|j: int| 0 <= j < i ==> !(self.sessions_view()[#[trigger] self.session_order()[j]].target == *target
                    && self.sessions_view()[self.session_order()[j]].active),
            decreases n - i,
        {
            let e = self.sessions.entry_at(i);
            if e.1.target == *target && e.1.active {
                return true;
            }
            i = i + 1;
        }
        proof {
            assert forall|k: u128| #[trigger] self.sessions_view().contains_key(k) implies
                !(self.sessions_view()[k].target == *target && self.sessions_view()[k].active) by {
                assert(self.session_order().contains(k));
                let j = choose|j: int| 0 <= j < self.session_order().len() && self.session_order()[j] == k;
            }
        }
        false
    }

    /// Set a breakpoint in a session: it is added after the session's others. Returns its
    /// identifier, or `None` when the session does not exist.
    pub fn set_breakpoint(&mut self, session_id: u128, breakpoint: Breakpoint) -> (r: Option<u128>)
        requires
            old(self).inv(),
        ensures
            final(self).inv(),
            r is Some == old(self).sessions_view().contains_key(session_id),
            r matches Some(id) ==> id == breakpoint.id,
            r is Some ==> final(self).sessions_view() == old(self).sessions_view().insert(session_id,
                DebugSession { breakpoints: final(self).sessions_view()[session_id].breakpoints, ..old(self).sessions_view()[session_id] }),
            r is Some ==> final(self).sessions_view()[session_id].breakpoints@ == old(self).sessions_view()[session_id].breakpoints@.push(breakpoint),
            r is None ==> final(self).sessions_view() == old(self).sessions_view(),
    {
        let bp_id = breakpoint.id;
        let found = self.sessions.update(session_id, |s: DebugSession| -> (r: (DebugSession, ()))
            ensures
                r.0 == (DebugSession { breakpoints: r.0.breakpoints, ..s }),
                r.0.breakpoints@ == s.breakpoints@.push(breakpoint),
            {
                let mut s = s;
                s.add_breakpoint(breakpoint);
                (s, ())
            });
        match found {
            Some(_) => Some(bp_id),
            None => None,
        }
    }

    /// Remove a breakpoint from a session (see `DebugSession::remove_breakpoint`); false when
    /// the session or the breakpoint does not exist.
    pub fn remove_breakpoint(&mut self, session_id: u128, breakpoint_id: u128) -> (r: bool)
        requires
            old(self).inv(),
        ensures
            final(self).inv(),
            r == (old(self).sessions_view().contains_key(session_id)
                && first_bp(old(self).sessions_view()[session_id].breakpoints@, breakpoint_id) >= 0),
            old(self).sessions_view().contains_key(session_id) ==> final(self).sessions_view() == old(self).sessions_view().insert(session_id,
                DebugSession { breakpoints: final(self).sessions_view()[session_id].breakpoints, ..old(self).sessions_view()[session_id] }),
            r ==> final(self).sessions_view()[session_id].breakpoints@ == old(self).sessions_view()[session_id].breakpoints@.remove(
                first_bp(old(self).sessions_view()[session_id].breakpoints@, breakpoint_id)),
            !r ==> final(self).sessions_view() == old(self).sessions_view(),
    {
        let found = self.sessions.update(session_id, |s: DebugSession| -> (r: (DebugSession, bool))
            ensures
                r.0 == (DebugSession { breakpoints: r.0.breakpoints, ..s }),
                r.1 == (first_bp(s.breakpoints@, breakpoint_id) >= 0),
                r.1 ==> r.0.breakpoints@ == s.breakpoints@.remove(first_bp(s.breakpoints@, breakpoint_id)),
                !r.1 ==> r.0 == s,
            {
                let mut s = s;
                let removed = s.remove_breakpoint(breakpoint_id);
                (s, removed)
            });
        match found {
            Some(removed) => {
                if !removed {
                    assert(self.sessions@ =~= old(self).sessions@);
                }
                removed
            },
            None => false,
        }
    }

    /// Enable or disable a breakpoint of a session (see `DebugSession::set_breakpoint_enabled`);
    /// false when the session or the breakpoint does not exist.
    pub fn set_breakpoint_enabled(&mut self, session_id: u128, breakpoint_id: u128, enabled: bool) -> (r: bool)
        requires
            old(self).inv(),
        ensures
            final(self).inv(),
            r == (old(self).sessions_view().contains_key(session_id)
                && first_bp(old(self).sessions_view()[session_id].breakpoints@, breakpoint_id) >= 0),
            r ==> final(self).sessions_view() == old(self).sessions_view().insert(session_id,
                DebugSession { breakpoints: final(self).sessions_view()[session_id].breakpoints, ..old(self).sessions_view()[session_id] }),
            r ==> {
                let bps = old(self).sessions_view()[session_id].breakpoints@;
                let i = first_bp(bps, breakpoint_id);
                final(self).sessions_view()[session_id].breakpoints@ == bps.update(i, Breakpoint { enabled, ..bps[i] })
            },
            !r ==> final(self).sessions_view() == old(self).sessions_view(),
    {
        let found = self.sessions.update(session_id, |s: DebugSession| -> (r: (DebugSession, bool))
            ensures
                r.0 == (DebugSession { breakpoints: r.0.breakpoints, ..s }),
                r.1 == (first_bp(s.breakpoints@, breakpoint_id) >= 0),
                r.1 ==> r.0.breakpoints@ == s.breakpoints@.update(first_bp(s.breakpoints@, breakpoint_id),
                    Breakpoint { enabled, ..s.breakpoints@[first_bp(s.breakpoints@, breakpoint_id)] }),
                !r.1 ==> r.0 == s,
            {
                let mut s = s;
                let changed = s.set_breakpoint_enabled(breakpoint_id, enabled);
                (s, changed)
            });
        match found {
            Some(changed) => {
                if !changed {
                    assert(self.sessions@ =~= old(self).sessions@);
                }
                changed
            },
            None => false,
        }
    }

    /// Clones of a session's breakpoints; empty when the session does not exist.
    pub fn get_breakpoints(&self, session_id: u128) -> (r: Vec<Breakpoint>)
        requires
            self.inv(),
        ensures
            self.sessions_view().contains_key(session_id) ==> r@ == self.sessions_view()[session_id].breakpoints@,
            !self.sessions_view().contains_key(session_id) ==> r@.len() == 0,
    {
        match self.sessions.get(session_id) {
            Some(s) => {
                let mut r: Vec<Breakpoint> = Vec::new();
                let mut i: usize = 0;
                while i < s.breakpoints.len()
                    invariant
                        i <= s.breakpoints@.len(),
                        r@ == s.breakpoints@.take(i as int),
                    decreases s.breakpoints@.len() - i,
                {
                    r.push(s.breakpoints[i].clone());
                    assert(r@ =~= s.breakpoints@.take(i as int + 1));
                    i = i + 1;
                }
                assert(s.breakpoints@.take(s.breakpoints@.len() as int) =~= s.breakpoints@);
                r
            },
            None => Vec::new(),
        }
    }

    /// Record where a session is paused (`None`: running again); nothing happens when the
    /// session does not exist.
    pub fn set_paused(&mut self, session_id: u128, state: Option<PausedState>)
        requires
            old(self).inv(),
        ensures
            final(self).inv(),
            old(self).sessions_view().contains_key(session_id) ==> final(self).sessions_view() == old(self).sessions_view().insert(session_id,
                DebugSession { paused_at: state, ..old(self).sessions_view()[session_id] }),
            !old(self).sessions_view().contains_key(session_id) ==> final(self).sessions_view() == old(self).sessions_view(),
    {
        self.sessions.modify(session_id, |s: DebugSession| -> (r: DebugSession)
            ensures r == (DebugSession { paused_at: state, ..s }),
            { DebugSession { paused_at: state, ..s } });
    }

    /// Whether a session is paused; false when it does not exist.
    pub fn is_paused(&self, session_id: u128) -> (r: bool)
        requires
            self.inv(),
        ensures
            r == (self.sessions_view().contains_key(session_id) && self.sessions_view()[session_id].paused_at is Some),
    {
        match self.sessions.get(session_id) {
            Some(s) => s.is_paused(),
            None => false,
        }
    }

    /// Where a session is paused, if it exists and is paused.
    pub fn get_paused_state(&self, session_id: u128) -> (r: Option<&PausedState>)
        requires
            self.inv(),
        ensures
            !self.sessions_view().contains_key(session_id) ==> r is None,
            self.sessions_view().contains_key(session_id) ==> match self.sessions_view()[session_id].paused_at {
                Some(p) => r == Some(&p),
                None => r is None,
            },
    {
        match self.sessions.get(session_id) {
            Some(s) => match &s.paused_at {
                Some(p) => Some(p),
                None => None,
            },
            None => None,
        }
    }

    /// Every session with its target and whether it is paused, in start order.
    pub fn list_sessions(&self) -> (r: Vec<(u128, DebugTarget, bool)>)
        requires
            self.inv(),
        ensures
            r@.len() == self.session_order().len(),
            forall|i: int| 0 <= i < r@.len() ==> {
                let s = self.sessions_view()[self.session_order()[i]];
                #[trigger] r@[i] == (s.id, s.target, s.paused_at is Some)
            },
    {
        let n = self.sessions.len();
        let mut r: Vec<(u128, DebugTarget, bool)> = Vec::new();
        let mut i: usize = 0;
        while i < n
            invariant
                self.inv(),
                n == self.session_order().len(),
                i <= n,
                r@.len() == i,
                forall|j: int| 0 <= j < i ==> {
                    let s = self.sessions_view()[self.session_order()[j]];
                    #[trigger] r@[j] == (s.id, s.target, s.paused_at is Some)
                },
            decreases n - i,
        {
            let e = self.sessions.entry_at(i);
            r.push((e.1.id, e.1.target, e.1.is_paused()));
            i = i + 1;
        }
        r
    }

    /// Get session count.
    pub fn session_count(&self) -> (r: usize)
        requires
            self.inv(),
        ensures
            r == self.sessions_view().len(),
    {
        self.sessions.len()
    }

    /// The sessions with an enabled breakpoint in `script`, in start order.
    pub fn sessions_for_script(&self, script_path: &str) -> (r: Vec<u128>)
        requires
            self.inv(),
        ensures
            r@ == session_ids_where(self.session_order(), self.sessions_view(), watching(script_path@)),
    {
        self.sessions_where(script_path, None)
    }

    /// The sessions for `target` with an enabled breakpoint in `script`, in start order.
    pub fn sessions_for_script_with_target(&self, script_path: &str, target: &DebugTarget) -> (r: Vec<u128>)
        requires
            self.inv(),
        ensures
            r@ == session_ids_where(self.session_order(), self.sessions_view(), watching_for(script_path@, *target)),
    {
        self.sessions_where(script_path, Some(*target))
    }

    /// The sessions (for `target`, when given) with an enabled breakpoint in `script`.
    fn sessions_where(&self, script_path: &str, target: Option<DebugTarget>) -> (r: Vec<u128>)
        requires
            self.inv(),
        ensures
            target is None ==> r@ == session_ids_where(self.session_order(), self.sessions_view(), watching(script_path@)),
            target matches Some(t) ==> r@ == session_ids_where(self.session_order(), self.sessions_view(), watching_for(script_path@, t)),
    {
        let ghost keep = match target {
            Some(t) => watching_for(script_path@, t),
            None => watching(script_path@),
        };
        let n = self.sessions.len();
        let mut r: Vec<u128> = Vec::new();
        let mut i: usize = 0;
        while i < n
            invariant
                self.inv(),
                n == self.session_order().len(),
                i <= n,
                keep == match target {
                    Some(t) => watching_for(script_path@, t),
                    None => watching(script_path@),
                },
                r@ == session_ids_where(self.session_order().take(i as int), self.sessions_view(), keep),
            decreases n - i,
        {
            let e = self.sessions.entry_at(i);
            proof {
                assert(self.session_order().take(i as int + 1).drop_last() =~= self.session_order().take(i as int));
                assert(self.session_order().take(i as int + 1).last() == self.session_order()[i as int]);
            }
            let target_ok = match target {
                Some(t) => e.1.target == t,
                None => true,
            };
            if target_ok && has_enabled_breakpoint_in(&e.1, script_path) {
                r.push(e.0);
            }
            i = i + 1;
        }
        proof { assert(self.session_order().take(n as int) =~= self.session_order()); }
        r
    }

    /// Whether a session has an enabled breakpoint in `script`; false when it does not exist.
    pub fn has_breakpoints_for_script(&self, session_id: u128, script_path: &str) -> (r: bool)
        requires
            self.inv(),
        ensures
            r == (self.sessions_view().contains_key(session_id) && watches_script(self.sessions_view()[session_id], script_path@)),
    {
        match self.sessions.get(session_id) {
            Some(s) => has_enabled_breakpoint_in(s, script_path),
            None => false,
        }
    }
}

impl Default for DebugController {
    /// A controller with no sessions.
    fn default() -> (r: Self)
        ensures
            r.inv(),
            r.sessions_view() == Map::<u128, DebugSession>::empty(),
    {
        DebugController::new()
    }
}

} // verus!
