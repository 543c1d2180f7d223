//! Action registry.
//!
//! Scripts register handlers for named actions. Each action has at most one handler; the
//! registry also remembers which actions each script registered, so that all of a
//! script's handlers can be dropped at once.

use vstd::prelude::*;
use crate::ids::new_id;
use crate::maps::StrMap;
use crate::text::{owned, str_eq};

verus! {

/// A registered action handler.
#[derive(Debug)]
pub struct ActionHandler {
    /// Unique ID for this handler
    pub id: u128,
    /// Action name (e.g., "dock", "custom_trade")
    pub action: String,
    /// Script path that registered this handler
    pub script_path: String,
    /// Function name to call
    pub handler_function: String,
    /// Requirements that must be met
    pub requirements: Vec<ActionRequirement>,
    /// Whether this handler is enabled
    pub enabled: bool,
}

/// Requirements for executing an action.
#[derive(Debug, Clone, PartialEq)]
pub enum ActionRequirement {
    /// Player must be authenticated
    Authenticated,
    /// Player's ship must be in one of these statuses
    ShipStatus(Vec<String>),
    /// Player must be in the same sector as target
    SameSector,
    /// Player must be docked
    MustBeDocked,
    /// Player must not be docked
    MustBeUndocked,
    /// Player must not be in combat
    NotInCombat,
    /// Custom requirement (evaluated by script)
    Custom(String),
}

/// `b` is a copy of `a`: every field equal, requirements cloned one by one.
pub open spec fn handler_copy(a: ActionHandler, b: ActionHandler) -> bool {
    &&& b.id == a.id
    &&& b.action == a.action
    &&& b.script_path == a.script_path
    &&& b.handler_function == a.handler_function
    &&& b.enabled == a.enabled
    &&& b.requirements@.len() == a.requirements@.len()
    &&& forall|i: int| 0 <= i < a.requirements@.len() ==> cloned(a.requirements@[i], #[trigger] b.requirements@[i])
}

impl Clone for ActionHandler {
    fn clone(&self) -> (r: Self)
        ensures
            handler_copy(*self, r),
    {
        ActionHandler {
            id: self.id,
            action: self.action.clone(),
            script_path: self.script_path.clone(),
            handler_function: self.handler_function.clone(),
            requirements: self.requirements.clone(),
            enabled: self.enabled,
        }
    }
}

impl ActionHandler {
    /// An enabled handler with a fresh identifier and no requirements.
    pub fn new(action: &str, script_path: &str, handler_function: &str) -> (r: Self)
        ensures
            r.action@ == action@,
            r.script_path@ == script_path@,
            r.handler_function@ == handler_function@,
            r.requirements@.len() == 0,
            r.enabled,
    {
        ActionHandler {
            id: new_id(),
            action: owned(action),
            script_path: owned(script_path),
            handler_function: owned(handler_function),
            requirements: Vec::new(),
            enabled: true,
        }
    }

    /// Replace the requirements.
    pub fn with_requirements(self, requirements: Vec<ActionRequirement>) -> (r: Self)
        ensures
            r == (ActionHandler { requirements, ..self }),
    {
        ActionHandler { requirements, ..self }
    }

    /// Add a requirement.
    pub fn with_requirement(self, requirement: ActionRequirement) -> (r: Self)
        ensures
            r.requirements@ == self.requirements@.push(requirement),
            r.id == self.id,
            r.action == self.action,
            r.script_path == self.script_path,
            r.handler_function == self.handler_function,
            r.enabled == self.enabled,
    {
        let mut s = self;
        s.requirements.push(requirement);
        s
    }
}

/// The names in a list of strings.
pub open spec fn names(v: Vec<String>) -> Seq<Seq<char>> {
    v@.map_values(|s: String| s@)
}

/// `s` without any occurrence of `x`, order kept.
pub open spec fn without(s: Seq<Seq<char>>, x: Seq<char>) -> Seq<Seq<char>>
    decreases s.len(),
{
    if s.len() == 0 {
        Seq::empty()
    } else {
        let r = without(s.drop_last(), x);
        if s.last() == x { r } else { r.push(s.last()) }
    }
}

/// `m` without any of the keys in `ks`.
pub open spec fn remove_keys<V>(m: Map<Seq<char>, V>, ks: Seq<Seq<char>>) -> Map<Seq<char>, V>
    decreases ks.len(),
{
    if ks.len() == 0 {
        m
    } else {
        remove_keys(m, ks.drop_last()).remove(ks.last())
    }
}

/// The handlers registered under the listed actions that still exist, in list order.
pub open spec fn handlers_listed(m: Map<Seq<char>, ActionHandler>, ks: Seq<Seq<char>>) -> Seq<ActionHandler>
    decreases ks.len(),
{
    if ks.len() == 0 {
        Seq::empty()
    } else {
        let r = handlers_listed(m, ks.drop_last());
        if m.contains_key(ks.last()) { r.push(m[ks.last()]) } else { r }
    }
}

/// Registry of action handlers.
pub struct ActionRegistry {
    /// Action name -> handler
    handlers: StrMap<ActionHandler>,
    /// Script path -> action names it registered, in registration order
    by_script: StrMap<Vec<String>>,
}

impl ActionRegistry {
    /// The handlers, by action name.
    pub closed spec fn handlers(&self) -> Map<Seq<char>, ActionHandler> {
        self.handlers@
    }

    /// The actions each script registered, in registration order.
    pub closed spec fn by_script(&self) -> Map<Seq<char>, Seq<Seq<char>>> {
        Map::new(|s: Seq<char>| self.by_script@.contains_key(s), |s: Seq<char>| names(self.by_script@[s]))
    }

    /// The actions `script` registered (empty when none).
    pub open spec fn script_actions(&self, script: Seq<char>) -> Seq<Seq<char>> {
        if self.by_script().contains_key(script) { self.by_script()[script] } else { Seq::empty() }
    }

    /// The internal maps are well formed.
    pub closed spec fn wf(&self) -> bool {
        self.handlers.wf() && self.by_script.wf()
    }

    /// An empty registry.
    pub fn new() -> (r: Self)
        ensures
            r.wf(),
            r.handlers() == Map::<Seq<char>, ActionHandler>::empty(),
            r.by_script() == Map::<Seq<char>, Seq<Seq<char>>>::empty(),
    {
        let r = ActionRegistry { handlers: StrMap::new(), by_script: StrMap::new() };
        assert(r.by_script() =~= Map::<Seq<char>, Seq<Seq<char>>>::empty());
        r
    }

    /// Register a handler for its action, replacing (and returning) any handler the action
    /// had. The action is also listed under the handler's script.
    pub fn register(&mut self, handler: ActionHandler) -> (r: Option<ActionHandler>)
        requires
            old(self).wf(),
        ensures
            final(self).wf(),
            final(self).handlers() == old(self).handlers().insert(handler.action@, handler),
            final(self).by_script() == old(self).by_script().insert(handler.script_path@,
                old(self).script_actions(handler.script_path@).push(handler.action@)),
            r matches Some(h) ==> old(self).handlers().contains_key(handler.action@) && h == old(self).handlers()[handler.action@],
            r is None ==> !old(self).handlers().contains_key(handler.action@),
    {
        let action = handler.action.clone();
        let script_path = handler.script_path.clone();
        let mut list = match self.by_script.remove(script_path.as_str()) {
            Some(l) => l,
            None => Vec::new(),
        };
        let ghost before = names(list);
        proof {
            assert(before == old(self).script_actions(handler.script_path@));
        }
        let a2 = action.clone();
        list.push(a2);
        assert(names(list) =~= before.push(action@));
        self.by_script.insert(script_path, list);
        let r = self.handlers.insert(action, handler);
        proof {
            assert(self.by_script() =~= old(self).by_script().insert(handler.script_path@,
                old(self).script_actions(handler.script_path@).push(handler.action@)));
        }
        r
    }

    /// Remove the handler of an action, returning it. The action is also dropped from the
    /// list of the handler's script.
    pub fn unregister(&mut self, action: &str) -> (r: Option<ActionHandler>)
        requires
            old(self).wf(),
        ensures
            final(self).wf(),
            final(self).handlers() == old(self).handlers().remove(action@),
            r matches Some(h) ==> old(self).handlers().contains_key(action@) && h == old(self).handlers()[action@]
                && final(self).by_script() == (if old(self).by_script().contains_key(h.script_path@) {
                    old(self).by_script().insert(h.script_path@, without(old(self).by_script()[h.script_path@], action@))
                } else {
                    old(self).by_script()
                }),
            r is None ==> !old(self).handlers().contains_key(action@) && final(self).by_script() == old(self).by_script(),
    {
        let handler = self.handlers.remove(action);
        match handler {
            Some(h) => {
                match self.by_script.remove(h.script_path.as_str()) {
                    Some(list) => {
                        let kept = without_name(&list, action);
                        self.by_script.insert(h.script_path.clone(), kept);
                        proof {
                            assert(self.by_script() =~= old(self).by_script().insert(h.script_path@,
                                without(old(self).by_script()[h.script_path@], action@)));
                        }
                    },
                    None => {
                        proof { assert(self.by_script() =~= old(self).by_script()); }
                    },
                }
                Some(h)
            },
            None => None,
        }
    }

    /// Remove every handler whose action the script registered, and forget the script.
    pub fn unregister_for_script(&mut self, script_path: &str)
        requires
            old(self).wf(),
        ensures
            final(self).wf(),
            final(self).handlers() == remove_keys(old(self).handlers(), old(self).script_actions(script_path@)),
            final(self).by_script() == old(self).by_script().remove(script_path@),
    {
        let actions = match self.by_script.remove(script_path) {
            Some(l) => l,
            None => Vec::new(),
        };
        proof {
            assert(self.by_script() =~= old(self).by_script().remove(script_path@));
            assert(names(actions) =~= old(self).script_actions(script_path@));
        }
        let mut i: usize = 0;
        while i < actions.len()
            invariant
                self.wf(),
                i <= actions@.len(),
                self.handlers() == remove_keys(old(self).handlers(), names(actions).subrange(0, i as int)),
                self.by_script() == old(self).by_script().remove(script_path@),
            decreases actions@.len() - i,
        {
            assert(names(actions).subrange(0, i + 1).drop_last() =~= names(actions).subrange(0, i as int));
            self.handlers.remove(actions[i].as_str());
            i = i + 1;
        }
        assert(names(actions).subrange(0, i as int) =~= names(actions));
    }

    /// The handler registered for an action.
    pub fn handler(&self, action: &str) -> (r: Option<&ActionHandler>)
        requires
            self.wf(),
        ensures
            r is None <==> !self.handlers().contains_key(action@),
            r matches Some(h) ==> *h == self.handlers()[action@],
    {
        self.handlers.get(action)
    }

    /// The handler of an action (a copy).
    pub fn get(&self, action: &str) -> (r: Option<ActionHandler>)
        requires
            self.wf(),
        ensures
            r is None <==> !self.handlers().contains_key(action@),
            r matches Some(h) ==> handler_copy(self.handlers()[action@], h),
    {
        match self.handlers.get(action) {
            Some(h) => Some(h.clone()),
            None => None,
        }
    }

    /// Whether an action has a handler.
    pub fn is_registered(&self, action: &str) -> (r: bool)
        requires
            self.wf(),
        ensures
            r == self.handlers().contains_key(action@),
    {
        self.handlers.contains_key(action)
    }

    /// Enable or disable the handler of an action (no effect when there is none).
    pub fn set_enabled(&mut self, action: &str, enabled: bool)
        requires
            old(self).wf(),
        ensures
            final(self).wf(),
            final(self).by_script() == old(self).by_script(),
            final(self).handlers().dom() == old(self).handlers().dom(),
            forall|a: Seq<char>| a != action@ && #[trigger] old(self).handlers().contains_key(a)
                ==> final(self).handlers()[a] == old(self).handlers()[a],
            old(self).handlers().contains_key(action@) ==> final(self).handlers()[action@]
                == (ActionHandler { enabled, ..old(self).handlers()[action@] }),
    {
        match self.handlers.remove(action) {
            Some(h) => {
                let updated = ActionHandler { enabled, ..h };
                self.handlers.insert(owned(action), updated);
                proof {
                    assert(self.handlers().dom() =~= old(self).handlers().dom());
                }
            },
            None => {
                proof { assert(self.handlers() =~= old(self).handlers()); }
            },
        }
    }

    /// Number of registered handlers.
    pub fn count(&self) -> (r: usize)
        requires
            self.wf(),
        ensures
            r == self.handlers().len(),
    {
        self.handlers.len()
    }

    /// All action names with a handler, each once.
    pub fn list_actions(&self) -> (r: Vec<String>)
        requires
            self.wf(),
        ensures
            names(r).to_set() == self.handlers().dom(),
            names(r).no_duplicates(),
            r@.len() == self.handlers().len(),
    {
        let r = self.handlers.keys();
        proof { self.handlers.lemma_dom(); }
        r
    }

    /// The actions with a handler, in the order kept internally.
    pub closed spec fn action_order(&self) -> Seq<Seq<char>> {
        self.handlers.key_seq()
    }

    /// Copies of all handlers, one per action, in `action_order`.
    pub fn list_all(&self) -> (r: Vec<ActionHandler>)
        requires
            self.wf(),
        ensures
            r@.len() == self.handlers().len(),
            self.action_order().len() == self.handlers().len(),
            self.action_order().to_set() == self.handlers().dom(),
            forall|i: int| 0 <= i < r@.len() ==> handler_copy(self.handlers()[self.action_order()[i]], #[trigger] r@[i]),
    {
        proof { self.handlers.lemma_dom(); }
        let n = self.handlers.len();
        let mut r: Vec<ActionHandler> = Vec::new();
        let mut i: usize = 0;
        while i < n
            invariant
                self.wf(),
                n == self.handlers.key_seq().len(),
                i <= n,
                r@.len() == i,
                forall|j: int| 0 <= j < i ==> handler_copy(self.handlers()[self.action_order()[j]], #[trigger] r@[j]),
            decreases n - i,
        {
            let e = self.handlers.entry_at(i);
            let h = e.1.clone();
            r.push(h);
            i = i + 1;
        }
        proof { self.handlers.lemma_dom(); }
        r
    }

    /// Copies of the handlers of the actions the script registered, in registration order
    /// (actions whose handler is gone are skipped).
    pub fn list_for_script(&self, script_path: &str) -> (r: Vec<ActionHandler>)
        requires
            self.wf(),
        ensures
            r@.len() == handlers_listed(self.handlers(), self.script_actions(script_path@)).len(),
            forall|i: int| 0 <= i < r@.len() ==> handler_copy(
                handlers_listed(self.handlers(), self.script_actions(script_path@))[i], #[trigger] r@[i]),
    {
        let empty: Vec<String> = Vec::new();
        let actions: &Vec<String> = match self.by_script.get(script_path) {
            Some(l) => l,
            None => &empty,
        };
        assert(names(*actions) =~= self.script_actions(script_path@));
        let mut r: Vec<ActionHandler> = Vec::new();
        let mut i: usize = 0;
        while i < actions.len()
            invariant
                self.wf(),
                i <= actions@.len(),
                r@.len() == handlers_listed(self.handlers(), names(*actions).subrange(0, i as int)).len(),
                forall|j: int| 0 <= j < r@.len() ==> handler_copy(
                    handlers_listed(self.handlers(), names(*actions).subrange(0, i as int))[j], #[trigger] r@[j]),
            decreases actions@.len() - i,
        {
            assert(names(*actions).subrange(0, i + 1).drop_last() =~= names(*actions).subrange(0, i as int));
            match self.handlers.get(actions[i].as_str()) {
                Some(h) => {
                    r.push(h.clone());
                },
                None => {},
            }
            i = i + 1;
        }
        assert(names(*actions).subrange(0, i as int) =~= names(*actions));
        r
    }
}

pub fn without_name(list: &Vec<String>, x: &str) -> (r: Vec<String>)
    ensures
        names(r) == without(names(*list), x@),
{
    let mut r: Vec<String> = Vec::new();
    let mut i: usize = 0;
    while i < list.len()
        invariant
            i <= list@.len(),
            names(r) == without(names(*list).subrange(0, i as int), x@),
        decreases list@.len() - i,
    {
        assert(names(*list).subrange(0, i + 1).drop_last() =~= names(*list).subrange(0, i as int));
        let ghost before = names(r);
        if !str_eq(list[i].as_str(), x) {
            let s = list[i].clone();
            r.push(s);
            assert(names(r) =~= before.push(list@[i as int]@));
        }
        i = i + 1;
    }
    assert(names(*list).subrange(0, i as int) =~= names(*list));
    r
}

/// What an action resolves to after a registration: the new handler.
pub proof fn law_registered_handler_wins(before: Map<Seq<char>, ActionHandler>, h: ActionHandler)
    ensures
        before.insert(h.action@, h).contains_key(h.action@),
        before.insert(h.action@, h)[h.action@] == h,
{
}

/// Unregistering a script removes every action it registered.
pub proof fn law_unregister_script_removes_its_actions(m: Map<Seq<char>, ActionHandler>, ks: Seq<Seq<char>>, a: Seq<char>)
    requires
        ks.contains(a),
    ensures
        !remove_keys(m, ks).contains_key(a),
    decreases ks.len(),
{
    lemma_remove_keys_sub(m, ks);
    let i = choose|i: int| 0 <= i < ks.len() && ks[i] == a;
    if ks.last() != a {
        assert(ks.drop_last()[i] == a);
        law_unregister_script_removes_its_actions(m, ks.drop_last(), a);
    }
}

proof fn lemma_remove_keys_sub<V>(m: Map<Seq<char>, V>, ks: Seq<Seq<char>>)
    ensures
        forall|k: Seq<char>| #[trigger] remove_keys(m, ks).contains_key(k) ==> m.contains_key(k) && remove_keys(m, ks)[k] == m[k],
    decreases ks.len(),
{
    if ks.len() > 0 {
        lemma_remove_keys_sub(m, ks.drop_last());
        assert forall|k: Seq<char>| #[trigger] remove_keys(m, ks).contains_key(k) implies m.contains_key(k)
            && remove_keys(m, ks)[k] == m[k] by {
            assert(remove_keys(m, ks.drop_last()).contains_key(k));
        }
    }
}

} // verus!
