//! Mission states and the readings of a mission script's results.
//!
//! Mission scripts report the state a mission moves to as a string; these are the states
//! the game knows, plus any custom state a script names.

use vstd::prelude::*;
use crate::engine::ScriptError;
use crate::text::{owned, to_lowercase, lowered, str_eq, is_ascii_text, ascii_lower, lemma_lowered_ascii};

verus! {

/// Mission state machine states.
#[derive(Debug, Clone, PartialEq, Eq)]
pub enum MissionState {
    Started,
    AwaitingChoice,
    InCombat,
    InProgress,
    CompletedSuccess,
    CompletedFailure,
    Abandoned,
    Custom(String),
}

/// The known state a lowercase name stands for (0 to 6 in declaration order), or -1.
pub open spec fn known_state_code(l: Seq<char>) -> int {
    if l == "started"@ {
        0
    } else if l == "awaiting_choice"@ || l == "choice"@ {
        1
    } else if l == "in_combat"@ || l == "combat"@ {
        2
    } else if l == "in_progress"@ || l == "progress"@ {
        3
    } else if l == "completed_success"@ || l == "success"@ {
        4
    } else if l == "completed_failure"@ || l == "failure"@ {
        5
    } else if l == "abandoned"@ {
        6
    } else {
        -1
    }
}

/// The code of a state: 0 to 6 for the known states in declaration order, -1 for a custom one.
pub open spec fn state_code(s: MissionState) -> int {
    match s {
        MissionState::Started => 0,
        MissionState::AwaitingChoice => 1,
        MissionState::InCombat => 2,
        MissionState::InProgress => 3,
        MissionState::CompletedSuccess => 4,
        MissionState::CompletedFailure => 5,
        MissionState::Abandoned => 6,
        MissionState::Custom(_) => -1,
    }
}

/// The canonical name of a state.
pub open spec fn state_name(s: MissionState) -> Seq<char> {
    match s {
        MissionState::Started => "started"@,
        MissionState::AwaitingChoice => "awaiting_choice"@,
        MissionState::InCombat => "in_combat"@,
        MissionState::InProgress => "in_progress"@,
        MissionState::CompletedSuccess => "completed_success"@,
        MissionState::CompletedFailure => "completed_failure"@,
        MissionState::Abandoned => "abandoned"@,
        MissionState::Custom(c) => c@,
    }
}

impl MissionState {
    /// Parse a state name, ignoring case; an unknown name becomes a custom state holding the
    /// lowercased name.
    pub fn from_string(s: &str) -> (r: Self)
        ensures
            state_code(r) == known_state_code(lowered(s@)),
            r matches MissionState::Custom(c) ==> c@ == lowered(s@),
    {
        let l = to_lowercase(s);
        let t = l.as_str();
        if str_eq(t, "started") {
            MissionState::Started
        } else if str_eq(t, "awaiting_choice") || str_eq(t, "choice") {
            MissionState::AwaitingChoice
        } else if str_eq(t, "in_combat") || str_eq(t, "combat") {
            MissionState::InCombat
        } else if str_eq(t, "in_progress") || str_eq(t, "progress") {
            MissionState::InProgress
        } else if str_eq(t, "completed_success") || str_eq(t, "success") {
            MissionState::CompletedSuccess
        } else if str_eq(t, "completed_failure") || str_eq(t, "failure") {
            MissionState::CompletedFailure
        } else if str_eq(t, "abandoned") {
            MissionState::Abandoned
        } else {
            MissionState::Custom(l)
        }
    }

    /// The canonical name of the state.
    pub fn as_str(&self) -> (r: &str)
        ensures
            r@ == state_name(*self),
    {
        match self {
            MissionState::Started => "started",
            MissionState::AwaitingChoice => "awaiting_choice",
            MissionState::InCombat => "in_combat",
            MissionState::InProgress => "in_progress",
            MissionState::CompletedSuccess => "completed_success",
            MissionState::CompletedFailure => "completed_failure",
            MissionState::Abandoned => "abandoned",
            MissionState::Custom(s) => s.as_str(),
        }
    }
}

/// Text made of lowercase ASCII letters and underscores is ASCII and already lowercase.
proof fn lemma_lowercase_word(t: Seq<char>)
    requires
        forall|i: int| 0 <= i < t.len() ==> (97 <= (#[trigger] t[i] as u32) <= 122 || t[i] == '_'),
    ensures
        is_ascii_text(t),
        lowered(t) == t,
{
    assert(ascii_lower(t) =~= t);
}

/// Parsing ignores the case of ASCII names: a name and its lowercase form are read as the
/// same state (`from_string` reads the lowered name, and lowering it twice changes nothing).
pub proof fn law_from_string_ignores_case(s: Seq<char>)
    requires
        is_ascii_text(s),
    ensures
        lowered(lowered(s)) == lowered(s),
        known_state_code(lowered(lowered(s))) == known_state_code(lowered(s)),
{
    lemma_lowered_ascii(s);
}

/// A custom state whose name is lowercase ASCII and no known name reads back as itself.
pub proof fn law_custom_round_trip(c: Seq<char>)
    requires
        is_ascii_text(c),
        ascii_lower(c) == c,
        known_state_code(c) == -1,
    ensures
        lowered(c) == c,
        known_state_code(lowered(c)) == -1,
{
}

/// A canonical name reads back as the state it names: parsing the name of a known state
/// gives that state.
pub proof fn law_name_round_trip(s: MissionState)
    requires
        state_code(s) >= 0,
    ensures
        known_state_code(lowered(state_name(s))) == state_code(s),
{
    reveal_strlit("started");
    reveal_strlit("awaiting_choice");
    reveal_strlit("choice");
    reveal_strlit("in_combat");
    reveal_strlit("combat");
    reveal_strlit("in_progress");
    reveal_strlit("progress");
    reveal_strlit("completed_success");
    reveal_strlit("success");
    reveal_strlit("completed_failure");
    reveal_strlit("failure");
    reveal_strlit("abandoned");
    assert("started"@.len() == 7);
    assert("awaiting_choice"@.len() == 15);
    assert("choice"@.len() == 6);
    assert("in_combat"@.len() == 9);
    assert("combat"@.len() == 6);
    assert("in_progress"@.len() == 11);
    assert("progress"@.len() == 8);
    assert("completed_success"@.len() == 17);
    assert("success"@.len() == 7);
    assert("completed_failure"@.len() == 17);
    assert("failure"@.len() == 7);
    assert("abandoned"@.len() == 9);
    assert("started"@[1] != "success"@[1] && "started"@[0] != "failure"@[0] && "success"@[0] != "failure"@[0]);
    assert("choice"@[1] != "combat"@[1]);
    assert("in_combat"@[0] != "abandoned"@[0]);
    assert("completed_success"@[10] != "completed_failure"@[10]);
    lemma_lowercase_word(state_name(s));
}

/// The state a mission outcome moves to: the state its state text names, in progress when
/// it has none.
pub fn outcome_state(named: Option<&str>) -> (r: MissionState)
    ensures
        named is None ==> r == MissionState::InProgress,
        named matches Some(s) ==> state_code(r) == known_state_code(lowered(s@))
            && (r matches MissionState::Custom(c) ==> c@ == lowered(s@)),
{
    match named {
        Some(s) => MissionState::from_string(s),
        None => MissionState::InProgress,
    }
}

/// Where an outcome's combat comes from.
#[derive(Debug, Clone, Copy, PartialEq, Eq)]
pub enum CombatRequest {
    /// The outcome's `combat` map, which read as a combat spawn.
    FromMap,
    /// No readable `combat` map, but `spawn_combat` is set: a default encounter.
    Fallback,
    /// No combat.
    NoCombat,
}

/// Which combat an outcome asks for: its `combat` map when that reads as a spawn
/// (`combat_read`), else a default encounter when its `spawn_combat` flag is true, else none.
pub fn combat_request(combat_read: bool, spawn_flag: Option<bool>) -> (r: CombatRequest)
    ensures
        combat_read ==> r == CombatRequest::FromMap,
        !combat_read && spawn_flag == Some(true) ==> r == CombatRequest::Fallback,
        !combat_read && spawn_flag != Some(true) ==> r == CombatRequest::NoCombat,
{
    if combat_read {
        CombatRequest::FromMap
    } else {
        match spawn_flag {
            Some(true) => CombatRequest::Fallback,
            _ => CombatRequest::NoCombat,
        }
    }
}

/// The default encounter's enemy type, count and whether the player can flee it: one
/// enemy of unknown type, which the player can flee.
pub fn fallback_enemy() -> (r: (String, u32, bool))
    ensures
        r.0@ == "unknown"@,
        r.1 == 1,
        r.2,
{
    (owned("unknown"), 1, true)
}

/// Whether a mission outcome completes the mission: its `complete` flag when it has one,
/// else whether its state is a completed one or its state text is "complete".
pub fn outcome_complete(complete: Option<bool>, state: &MissionState, new_state_text: Option<&str>) -> (r: bool)
    ensures
        r == match complete {
            Some(b) => b,
            None => state_code(*state) == 4 || state_code(*state) == 5
                || (new_state_text matches Some(t) && t@ == "complete"@),
        },
{
    match complete {
        Some(b) => b,
        None => {
            let done = match state {
                MissionState::CompletedSuccess => true,
                MissionState::CompletedFailure => true,
                _ => false,
            };
            done || match new_state_text {
                Some(t) => str_eq(t, "complete"),
                None => false,
            }
        },
    }
}

/// The result of a mission hook whose return value was read as `parsed`: an unreadable
/// result is a runtime error.
pub fn mission_call_result<O>(parsed: Option<O>) -> (r: Result<O, ScriptError>)
    ensures
        parsed matches Some(o) ==> r == Ok::<O, ScriptError>(o),
        parsed is None ==> (r matches Err(ScriptError::RuntimeError(m)) && m@ == "Invalid mission result"@),
{
    match parsed {
        Some(o) => Ok(o),
        None => Err(ScriptError::RuntimeError(owned("Invalid mission result"))),
    }
}

/// How calling a mission's `on_tick` went.
pub enum TickCall<O> {
    /// The mission's script is not loaded.
    ScriptMissing,
    /// The hook returned nothing.
    Unit,
    /// The hook returned a value, read as this outcome if it could be read.
    Value(Option<O>),
    /// The hook failed; whether because the script has no `on_tick`.
    Failed(ScriptError, bool),
}

/// The result of a mission tick: no outcome when the script is missing, has no `on_tick`,
/// or returns nothing; the outcome read, if any; the error of any other failure.
pub fn tick_result<O>(call: TickCall<O>) -> (r: Result<Option<O>, ScriptError>)
    ensures
        match call {
            TickCall::ScriptMissing => r == Ok::<Option<O>, ScriptError>(None),
            TickCall::Unit => r == Ok::<Option<O>, ScriptError>(None),
            TickCall::Value(o) => r == Ok::<Option<O>, ScriptError>(o),
            TickCall::Failed(e, missing_hook) => if missing_hook { r == Ok::<Option<O>, ScriptError>(None) } else { r == Err::<Option<O>, ScriptError>(e) },
        },
{
    match call {
        TickCall::ScriptMissing => Ok(None),
        TickCall::Unit => Ok(None),
        TickCall::Value(o) => Ok(o),
        TickCall::Failed(e, missing_hook) => if missing_hook { Ok(None) } else { Err(e) },
    }
}

} // verus!
