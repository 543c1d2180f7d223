//! Predefined contracts for the different kinds of script.

use vstd::prelude::*;
use super::{ScriptContract, FunctionSpec, contract_view};

verus! {

/// Function specifications of the mission contract: required, then optional.
pub open spec fn mission_view() -> (Seq<(Seq<char>, Option<usize>, Seq<char>)>, Seq<(Seq<char>, Option<usize>, Seq<char>)>) {
    (
        seq![
            ("on_start"@, Some(1usize), "Called when mission begins, receives context"@),
            ("on_choice"@, Some(2usize), "Called when player makes a choice, receives context and choice_id"@),
        ],
        seq![
            ("on_combat_resolved"@, Some(2usize), "Called after combat ends, receives context and combat_result"@),
            ("on_tick"@, Some(2usize), "Called each tick for timed missions, receives context and elapsed_seconds"@),
        ],
    )
}

/// Contract for mission scripts.
pub fn mission() -> (r: ScriptContract)
    ensures
        contract_view(r) == mission_view(),
{
    let r = ScriptContract {
        required: vec![
            FunctionSpec::with_params("on_start", 1, "Called when mission begins, receives context"),
            FunctionSpec::with_params("on_choice", 2, "Called when player makes a choice, receives context and choice_id"),
        ],
        optional: vec![
            FunctionSpec::with_params("on_combat_resolved", 2, "Called after combat ends, receives context and combat_result"),
            FunctionSpec::with_params("on_tick", 2, "Called each tick for timed missions, receives context and elapsed_seconds"),
        ],
    };
    assert(contract_view(r).0 =~= mission_view().0);
    assert(contract_view(r).1 =~= mission_view().1);
    r
}

/// Function specifications of the behavior contract: required, then optional.
pub open spec fn behavior_view() -> (Seq<(Seq<char>, Option<usize>, Seq<char>)>, Seq<(Seq<char>, Option<usize>, Seq<char>)>) {
    (
        seq![],
        seq![
            ("on_spawn"@, Some(1usize), "Called when behavior attaches, receives context"@),
            ("on_update"@, Some(1usize), "Called each tick, receives context"@),
            ("on_destroy"@, Some(1usize), "Called when behavior detaches, receives context"@),
            ("on_event"@, Some(2usize), "Called for game events, receives context and event"@),
        ],
    )
}

/// Contract for behavior scripts.
pub fn behavior() -> (r: ScriptContract)
    ensures
        contract_view(r) == behavior_view(),
{
    let r = ScriptContract {
        required: vec![],
        optional: vec![
            FunctionSpec::with_params("on_spawn", 1, "Called when behavior attaches, receives context"),
            FunctionSpec::with_params("on_update", 1, "Called each tick, receives context"),
            FunctionSpec::with_params("on_destroy", 1, "Called when behavior detaches, receives context"),
            FunctionSpec::with_params("on_event", 2, "Called for game events, receives context and event"),
        ],
    };
    assert(contract_view(r).0 =~= behavior_view().0);
    assert(contract_view(r).1 =~= behavior_view().1);
    r
}

/// Function specifications of the combat_ai contract: required, then optional.
pub open spec fn combat_ai_view() -> (Seq<(Seq<char>, Option<usize>, Seq<char>)>, Seq<(Seq<char>, Option<usize>, Seq<char>)>) {
    (
        seq![],
        seq![
            ("pirate_combat_ai"@, Some(3usize), "AI for pirate NPCs"@),
            ("sera_combat_ai"@, Some(3usize), "AI for Sera NPCs"@),
            ("civilian_combat_ai"@, Some(3usize), "AI for civilian NPCs"@),
            ("military_combat_ai"@, Some(3usize), "AI for military NPCs"@),
            ("drone_combat_ai"@, Some(3usize), "AI for drone NPCs"@),
        ],
    )
}

/// Contract for combat AI scripts.
pub fn combat_ai() -> (r: ScriptContract)
    ensures
        contract_view(r) == combat_ai_view(),
{
    let r = ScriptContract {
        required: vec![],
        optional: vec![
            FunctionSpec::with_params("pirate_combat_ai", 3, "AI for pirate NPCs"),
            FunctionSpec::with_params("sera_combat_ai", 3, "AI for Sera NPCs"),
            FunctionSpec::with_params("civilian_combat_ai", 3, "AI for civilian NPCs"),
            FunctionSpec::with_params("military_combat_ai", 3, "AI for military NPCs"),
            FunctionSpec::with_params("drone_combat_ai", 3, "AI for drone NPCs"),
        ],
    };
    assert(contract_view(r).0 =~= combat_ai_view().0);
    assert(contract_view(r).1 =~= combat_ai_view().1);
    r
}

/// Function specifications of the minimal contract: required, then optional.
pub open spec fn minimal_view() -> (Seq<(Seq<char>, Option<usize>, Seq<char>)>, Seq<(Seq<char>, Option<usize>, Seq<char>)>) {
    (
        seq![],
        seq![],
    )
}

/// Minimal contract (no requirements).
pub fn minimal() -> (r: ScriptContract)
    ensures
        contract_view(r) == minimal_view(),
{
    let r = ScriptContract {
        required: vec![],
        optional: vec![],
    };
    assert(contract_view(r).0 =~= minimal_view().0);
    assert(contract_view(r).1 =~= minimal_view().1);
    r
}

} // verus!
