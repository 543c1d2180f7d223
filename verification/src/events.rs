//! Events that scripts subscribe to: event types, subscriptions and their filters, the
//! subscription registry, and the decisions of dispatching an event to its handlers.

use vstd::prelude::*;
use crate::coroutines::scheduler::{without, lemma_without, lemma_without_step};
use crate::ids::new_id;
use crate::maps::IdMap;
use crate::text::{chars_of, owned, push_char, str_eq, to_lowercase, lowered, ascii_lower, is_ascii_text};

pub mod dispatcher;

verus! {

broadcast use vstd::seq_lib::lemma_seq_contains_after_push, vstd::seq_lib::lemma_seq_concat_contains_all_elements;

/// Kinds of game event that scripts can subscribe to.
#[derive(Debug, Clone, Copy, PartialEq, Eq, Hash, Structural)]
pub enum GameEventType {
    PlayerJoined,
    PlayerLeft,
    PlayerDocked,
    PlayerUndocked,
    ShipSpawned,
    ShipDestroyed,
    ShipDamaged,
    ShipRepaired,
    ShipRefueled,
    ShipRearmed,
    CombatStarted,
    CombatEnded,
    AttackHit,
    AttackMissed,
    MissionSpawned,
    MissionAccepted,
    MissionCompleted,
    MissionFailed,
    MissionExpired,
    MissionChoiceMade,
    ReputationGained,
    ReputationLost,
    FameGained,
    FameLost,
    PlayerDisgraced,
    SquadronCreated,
    SquadronDissolved,
    SquadronMemberJoined,
    SquadronMemberLeft,
    SquadronWarDeclared,
    SquadronPeaceDeclared,
    SectorControlChanged,
    StationBuilt,
    StationDestroyed,
    SeraIncursion,
    DroneSwarmDetected,
    AsteroidAlert,
    DistressSignalReceived,
}

/// The event type named by a key: its name in lowercase without underscores.
pub open spec fn event_type_for_key(k: Seq<char>) -> Option<GameEventType> {
    if k == "playerjoined"@ {
        Some(GameEventType::PlayerJoined)
    } else if k == "playerleft"@ {
        Some(GameEventType::PlayerLeft)
    } else if k == "playerdocked"@ {
        Some(GameEventType::PlayerDocked)
    } else if k == "playerundocked"@ {
        Some(GameEventType::PlayerUndocked)
    } else if k == "shipspawned"@ {
        Some(GameEventType::ShipSpawned)
    } else if k == "shipdestroyed"@ {
        Some(GameEventType::ShipDestroyed)
    } else if k == "shipdamaged"@ {
        Some(GameEventType::ShipDamaged)
    } else if k == "shiprepaired"@ {
        Some(GameEventType::ShipRepaired)
    } else if k == "shiprefueled"@ {
        Some(GameEventType::ShipRefueled)
    } else if k == "shiprearmed"@ {
        Some(GameEventType::ShipRearmed)
    } else if k == "combatstarted"@ {
        Some(GameEventType::CombatStarted)
    } else if k == "combatended"@ {
        Some(GameEventType::CombatEnded)
    } else if k == "attackhit"@ {
        Some(GameEventType::AttackHit)
    } else if k == "attackmissed"@ {
        Some(GameEventType::AttackMissed)
    } else if k == "missionspawned"@ {
        Some(GameEventType::MissionSpawned)
    } else if k == "missionaccepted"@ {
        Some(GameEventType::MissionAccepted)
    } else if k == "missioncompleted"@ {
        Some(GameEventType::MissionCompleted)
    } else if k == "missionfailed"@ {
        Some(GameEventType::MissionFailed)
    } else if k == "missionexpired"@ {
        Some(GameEventType::MissionExpired)
    } else if k == "missionchoicemade"@ {
        Some(GameEventType::MissionChoiceMade)
    } else if k == "reputationgained"@ {
        Some(GameEventType::ReputationGained)
    } else if k == "reputationlost"@ {
        Some(GameEventType::ReputationLost)
    } else if k == "famegained"@ {
        Some(GameEventType::FameGained)
    } else if k == "famelost"@ {
        Some(GameEventType::FameLost)
    } else if k == "playerdisgraced"@ {
        Some(GameEventType::PlayerDisgraced)
    } else if k == "squadroncreated"@ {
        Some(GameEventType::SquadronCreated)
    } else if k == "squadrondissolved"@ {
        Some(GameEventType::SquadronDissolved)
    } else if k == "squadronmemberjoined"@ {
        Some(GameEventType::SquadronMemberJoined)
    } else if k == "squadronmemberleft"@ {
        Some(GameEventType::SquadronMemberLeft)
    } else if k == "squadronwardeclared"@ {
        Some(GameEventType::SquadronWarDeclared)
    } else if k == "squadronpeacedeclared"@ {
        Some(GameEventType::SquadronPeaceDeclared)
    } else if k == "sectorcontrolchanged"@ {
        Some(GameEventType::SectorControlChanged)
    } else if k == "stationbuilt"@ {
        Some(GameEventType::StationBuilt)
    } else if k == "stationdestroyed"@ {
        Some(GameEventType::StationDestroyed)
    } else if k == "seraincursion"@ {
        Some(GameEventType::SeraIncursion)
    } else if k == "droneswarmdetected"@ {
        Some(GameEventType::DroneSwarmDetected)
    } else if k == "asteroidalert"@ {
        Some(GameEventType::AsteroidAlert)
    } else if k == "distresssignalreceived"@ {
        Some(GameEventType::DistressSignalReceived)
    } else {
        None
    }
}

/// The event type named by `key`, a name already in lowercase without underscores.
pub fn event_type_from_key(key: &str) -> (r: Option<GameEventType>)
    ensures
        r == event_type_for_key(key@),
{
    if str_eq(key, "playerjoined") {
        Some(GameEventType::PlayerJoined)
    } else if str_eq(key, "playerleft") {
        Some(GameEventType::PlayerLeft)
    } else if str_eq(key, "playerdocked") {
        Some(GameEventType::PlayerDocked)
    } else if str_eq(key, "playerundocked") {
        Some(GameEventType::PlayerUndocked)
    } else if str_eq(key, "shipspawned") {
        Some(GameEventType::ShipSpawned)
    } else if str_eq(key, "shipdestroyed") {
        Some(GameEventType::ShipDestroyed)
    } else if str_eq(key, "shipdamaged") {
        Some(GameEventType::ShipDamaged)
    } else if str_eq(key, "shiprepaired") {
        Some(GameEventType::ShipRepaired)
    } else if str_eq(key, "shiprefueled") {
        Some(GameEventType::ShipRefueled)
    } else if str_eq(key, "shiprearmed") {
        Some(GameEventType::ShipRearmed)
    } else if str_eq(key, "combatstarted") {
        Some(GameEventType::CombatStarted)
    } else if str_eq(key, "combatended") {
        Some(GameEventType::CombatEnded)
    } else if str_eq(key, "attackhit") {
        Some(GameEventType::AttackHit)
    } else if str_eq(key, "attackmissed") {
        Some(GameEventType::AttackMissed)
    } else if str_eq(key, "missionspawned") {
        Some(GameEventType::MissionSpawned)
    } else if str_eq(key, "missionaccepted") {
        Some(GameEventType::MissionAccepted)
    } else if str_eq(key, "missioncompleted") {
        Some(GameEventType::MissionCompleted)
    } else if str_eq(key, "missionfailed") {
        Some(GameEventType::MissionFailed)
    } else if str_eq(key, "missionexpired") {
        Some(GameEventType::MissionExpired)
    } else if str_eq(key, "missionchoicemade") {
        Some(GameEventType::MissionChoiceMade)
    } else if str_eq(key, "reputationgained") {
        Some(GameEventType::ReputationGained)
    } else if str_eq(key, "reputationlost") {
        Some(GameEventType::ReputationLost)
    } else if str_eq(key, "famegained") {
        Some(GameEventType::FameGained)
    } else if str_eq(key, "famelost") {
        Some(GameEventType::FameLost)
    } else if str_eq(key, "playerdisgraced") {
        Some(GameEventType::PlayerDisgraced)
    } else if str_eq(key, "squadroncreated") {
        Some(GameEventType::SquadronCreated)
    } else if str_eq(key, "squadrondissolved") {
        Some(GameEventType::SquadronDissolved)
    } else if str_eq(key, "squadronmemberjoined") {
        Some(GameEventType::SquadronMemberJoined)
    } else if str_eq(key, "squadronmemberleft") {
        Some(GameEventType::SquadronMemberLeft)
    } else if str_eq(key, "squadronwardeclared") {
        Some(GameEventType::SquadronWarDeclared)
    } else if str_eq(key, "squadronpeacedeclared") {
        Some(GameEventType::SquadronPeaceDeclared)
    } else if str_eq(key, "sectorcontrolchanged") {
        Some(GameEventType::SectorControlChanged)
    } else if str_eq(key, "stationbuilt") {
        Some(GameEventType::StationBuilt)
    } else if str_eq(key, "stationdestroyed") {
        Some(GameEventType::StationDestroyed)
    } else if str_eq(key, "seraincursion") {
        Some(GameEventType::SeraIncursion)
    } else if str_eq(key, "droneswarmdetected") {
        Some(GameEventType::DroneSwarmDetected)
    } else if str_eq(key, "asteroidalert") {
        Some(GameEventType::AsteroidAlert)
    } else if str_eq(key, "distresssignalreceived") {
        Some(GameEventType::DistressSignalReceived)
    } else {
        None
    }
}

/// `s` without its underscores.
pub fn remove_underscores(s: &str) -> (r: String)
    ensures
        r@ == without(s@, '_'),
{
    let chars = chars_of(s);
    let mut r = String::new();
    let mut i: usize = 0;
    while i < chars.len()
        invariant
            chars@ == s@,
            i <= chars@.len(),
            r@ == without(s@.take(i as int), '_'),
        decreases chars@.len() - i,
    {
        proof { lemma_without_step(s@, '_', i as int); }
        let c = chars[i];
        if c != '_' {
            push_char(&mut r, c);
        }
        i = i + 1;
    }
    proof { assert(s@.take(s@.len() as int) =~= s@); }
    r
}

/// Convert an event type name to a `GameEventType`. Case and underscores do not matter.
pub fn parse_event_type(s: &str) -> (r: Option<GameEventType>)
    ensures
        r == event_type_for_key(without(lowered(s@), '_')),
{
    let lower = to_lowercase(s);
    let key = remove_underscores(lower.as_str());
    event_type_from_key(key.as_str())
}

/// The name of an event type as the enum writes it.
pub open spec fn event_type_name(t: GameEventType) -> Seq<char> {
    match t {
        GameEventType::PlayerJoined => "PlayerJoined"@,
        GameEventType::PlayerLeft => "PlayerLeft"@,
        GameEventType::PlayerDocked => "PlayerDocked"@,
        GameEventType::PlayerUndocked => "PlayerUndocked"@,
        GameEventType::ShipSpawned => "ShipSpawned"@,
        GameEventType::ShipDestroyed => "ShipDestroyed"@,
        GameEventType::ShipDamaged => "ShipDamaged"@,
        GameEventType::ShipRepaired => "ShipRepaired"@,
        GameEventType::ShipRefueled => "ShipRefueled"@,
        GameEventType::ShipRearmed => "ShipRearmed"@,
        GameEventType::CombatStarted => "CombatStarted"@,
        GameEventType::CombatEnded => "CombatEnded"@,
        GameEventType::AttackHit => "AttackHit"@,
        GameEventType::AttackMissed => "AttackMissed"@,
        GameEventType::MissionSpawned => "MissionSpawned"@,
        GameEventType::MissionAccepted => "MissionAccepted"@,
        GameEventType::MissionCompleted => "MissionCompleted"@,
        GameEventType::MissionFailed => "MissionFailed"@,
        GameEventType::MissionExpired => "MissionExpired"@,
        GameEventType::MissionChoiceMade => "MissionChoiceMade"@,
        GameEventType::ReputationGained => "ReputationGained"@,
        GameEventType::ReputationLost => "ReputationLost"@,
        GameEventType::FameGained => "FameGained"@,
        GameEventType::FameLost => "FameLost"@,
        GameEventType::PlayerDisgraced => "PlayerDisgraced"@,
        GameEventType::SquadronCreated => "SquadronCreated"@,
        GameEventType::SquadronDissolved => "SquadronDissolved"@,
        GameEventType::SquadronMemberJoined => "SquadronMemberJoined"@,
        GameEventType::SquadronMemberLeft => "SquadronMemberLeft"@,
        GameEventType::SquadronWarDeclared => "SquadronWarDeclared"@,
        GameEventType::SquadronPeaceDeclared => "SquadronPeaceDeclared"@,
        GameEventType::SectorControlChanged => "SectorControlChanged"@,
        GameEventType::StationBuilt => "StationBuilt"@,
        GameEventType::StationDestroyed => "StationDestroyed"@,
        GameEventType::SeraIncursion => "SeraIncursion"@,
        GameEventType::DroneSwarmDetected => "DroneSwarmDetected"@,
        GameEventType::AsteroidAlert => "AsteroidAlert"@,
        GameEventType::DistressSignalReceived => "DistressSignalReceived"@,
    }
}

/// Text without underscores is left as it is by dropping underscores.
proof fn lemma_without_absent_char(s: Seq<char>, c: char)
    requires
        forall|i: int| 0 <= i < s.len() ==> #[trigger] s[i] != c,
    ensures
        without(s, c) == s,
    decreases s.len(),
{
    if s.len() > 0 {
        lemma_without_absent_char(s.drop_last(), c);
        assert(s.drop_last().push(s.last()) =~= s);
    }
}

/// Every event type is named by its own name: parsing the name the enum gives it, in any case
/// and without or with underscores between words, gives that event type (so no two event
/// types share a name).
#[verifier::rlimit(100)]
pub proof fn law_event_type_named_by_its_name(t: GameEventType)
    ensures
        event_type_for_key(without(lowered(event_type_name(t)), '_')) == Some(t),
        event_type_for_key(without(lowered(event_type_name(t)), '_')) == event_type_for_key(ascii_lower(event_type_name(t))),
        is_ascii_text(event_type_name(t)),
{
    reveal_strlit("PlayerJoined");
    reveal_strlit("playerjoined");
    reveal_strlit("PlayerLeft");
    reveal_strlit("playerleft");
    reveal_strlit("PlayerDocked");
    reveal_strlit("playerdocked");
    reveal_strlit("PlayerUndocked");
    reveal_strlit("playerundocked");
    reveal_strlit("ShipSpawned");
    reveal_strlit("shipspawned");
    reveal_strlit("ShipDestroyed");
    reveal_strlit("shipdestroyed");
    reveal_strlit("ShipDamaged");
    reveal_strlit("shipdamaged");
    reveal_strlit("ShipRepaired");
    reveal_strlit("shiprepaired");
    reveal_strlit("ShipRefueled");
    reveal_strlit("shiprefueled");
    reveal_strlit("ShipRearmed");
    reveal_strlit("shiprearmed");
    reveal_strlit("CombatStarted");
    reveal_strlit("combatstarted");
    reveal_strlit("CombatEnded");
    reveal_strlit("combatended");
    reveal_strlit("AttackHit");
    reveal_strlit("attackhit");
    reveal_strlit("AttackMissed");
    reveal_strlit("attackmissed");
    reveal_strlit("MissionSpawned");
    reveal_strlit("missionspawned");
    reveal_strlit("MissionAccepted");
    reveal_strlit("missionaccepted");
    reveal_strlit("MissionCompleted");
    reveal_strlit("missioncompleted");
    reveal_strlit("MissionFailed");
    reveal_strlit("missionfailed");
    reveal_strlit("MissionExpired");
    reveal_strlit("missionexpired");
    reveal_strlit("MissionChoiceMade");
    reveal_strlit("missionchoicemade");
    reveal_strlit("ReputationGained");
    reveal_strlit("reputationgained");
    reveal_strlit("ReputationLost");
    reveal_strlit("reputationlost");
    reveal_strlit("FameGained");
    reveal_strlit("famegained");
    reveal_strlit("FameLost");
    reveal_strlit("famelost");
    reveal_strlit("PlayerDisgraced");
    reveal_strlit("playerdisgraced");
    reveal_strlit("SquadronCreated");
    reveal_strlit("squadroncreated");
    reveal_strlit("SquadronDissolved");
    reveal_strlit("squadrondissolved");
    reveal_strlit("SquadronMemberJoined");
    reveal_strlit("squadronmemberjoined");
    reveal_strlit("SquadronMemberLeft");
    reveal_strlit("squadronmemberleft");
    reveal_strlit("SquadronWarDeclared");
    reveal_strlit("squadronwardeclared");
    reveal_strlit("SquadronPeaceDeclared");
    reveal_strlit("squadronpeacedeclared");
    reveal_strlit("SectorControlChanged");
    reveal_strlit("sectorcontrolchanged");
    reveal_strlit("StationBuilt");
    reveal_strlit("stationbuilt");
    reveal_strlit("StationDestroyed");
    reveal_strlit("stationdestroyed");
    reveal_strlit("SeraIncursion");
    reveal_strlit("seraincursion");
    reveal_strlit("DroneSwarmDetected");
    reveal_strlit("droneswarmdetected");
    reveal_strlit("AsteroidAlert");
    reveal_strlit("asteroidalert");
    reveal_strlit("DistressSignalReceived");
    reveal_strlit("distresssignalreceived");
    let n = event_type_name(t);
    match t {
        GameEventType::PlayerJoined => {
            assert(is_ascii_text(n));
            assert(ascii_lower(n) =~= "playerjoined"@);
            lemma_without_absent_char("playerjoined"@, '_');
            assert(event_type_for_key(without(lowered(event_type_name(t)), '_')) == Some(t));
        },
        GameEventType::PlayerLeft => {
            assert(is_ascii_text(n));
            assert(ascii_lower(n) =~= "playerleft"@);
            lemma_without_absent_char("playerleft"@, '_');
            assert(event_type_for_key(without(lowered(event_type_name(t)), '_')) == Some(t));
        },
        GameEventType::PlayerDocked => {
            assert(is_ascii_text(n));
            assert(ascii_lower(n) =~= "playerdocked"@);
            lemma_without_absent_char("playerdocked"@, '_');
            assert("playerdocked"@[6] != "playerjoined"@[6]);
            assert(event_type_for_key(without(lowered(event_type_name(t)), '_')) == Some(t));
        },
        GameEventType::PlayerUndocked => {
            assert(is_ascii_text(n));
            assert(ascii_lower(n) =~= "playerundocked"@);
            lemma_without_absent_char("playerundocked"@, '_');
            assert(event_type_for_key(without(lowered(event_type_name(t)), '_')) == Some(t));
        },
        GameEventType::ShipSpawned => {
            assert(is_ascii_text(n));
            assert(ascii_lower(n) =~= "shipspawned"@);
            lemma_without_absent_char("shipspawned"@, '_');
            assert(event_type_for_key(without(lowered(event_type_name(t)), '_')) == Some(t));
        },
        GameEventType::ShipDestroyed => {
            assert(is_ascii_text(n));
            assert(ascii_lower(n) =~= "shipdestroyed"@);
            lemma_without_absent_char("shipdestroyed"@, '_');
            assert(event_type_for_key(without(lowered(event_type_name(t)), '_')) == Some(t));
        },
        GameEventType::ShipDamaged => {
            assert(is_ascii_text(n));
            assert(ascii_lower(n) =~= "shipdamaged"@);
            lemma_without_absent_char("shipdamaged"@, '_');
            assert("shipdamaged"@[4] != "shipspawned"@[4]);
            assert(event_type_for_key(without(lowered(event_type_name(t)), '_')) == Some(t));
        },
        GameEventType::ShipRepaired => {
            assert(is_ascii_text(n));
            assert(ascii_lower(n) =~= "shiprepaired"@);
            lemma_without_absent_char("shiprepaired"@, '_');
            assert("shiprepaired"@[0] != "playerjoined"@[0]);
            assert("shiprepaired"@[0] != "playerdocked"@[0]);
            assert(event_type_for_key(without(lowered(event_type_name(t)), '_')) == Some(t));
        },
        GameEventType::ShipRefueled => {
            assert(is_ascii_text(n));
            assert(ascii_lower(n) =~= "shiprefueled"@);
            lemma_without_absent_char("shiprefueled"@, '_');
            assert("shiprefueled"@[0] != "playerjoined"@[0]);
            assert("shiprefueled"@[0] != "playerdocked"@[0]);
            assert("shiprefueled"@[6] != "shiprepaired"@[6]);
            assert(event_type_for_key(without(lowered(event_type_name(t)), '_')) == Some(t));
        },
        GameEventType::ShipRearmed => {
            assert(is_ascii_text(n));
            assert(ascii_lower(n) =~= "shiprearmed"@);
            lemma_without_absent_char("shiprearmed"@, '_');
            assert("shiprearmed"@[4] != "shipspawned"@[4]);
            assert("shiprearmed"@[4] != "shipdamaged"@[4]);
            assert(event_type_for_key(without(lowered(event_type_name(t)), '_')) == Some(t));
        },
        GameEventType::CombatStarted => {
            assert(is_ascii_text(n));
            assert(ascii_lower(n) =~= "combatstarted"@);
            lemma_without_absent_char("combatstarted"@, '_');
            assert("combatstarted"@[0] != "shipdestroyed"@[0]);
            assert(event_type_for_key(without(lowered(event_type_name(t)), '_')) == Some(t));
        },
        GameEventType::CombatEnded => {
            assert(is_ascii_text(n));
            assert(ascii_lower(n) =~= "combatended"@);
            lemma_without_absent_char("combatended"@, '_');
            assert("combatended"@[0] != "shipspawned"@[0]);
            assert("combatended"@[0] != "shipdamaged"@[0]);
            assert("combatended"@[0] != "shiprearmed"@[0]);
            assert(event_type_for_key(without(lowered(event_type_name(t)), '_')) == Some(t));
        },
        GameEventType::AttackHit => {
            assert(is_ascii_text(n));
            assert(ascii_lower(n) =~= "attackhit"@);
            lemma_without_absent_char("attackhit"@, '_');
            assert(event_type_for_key(without(lowered(event_type_name(t)), '_')) == Some(t));
        },
        GameEventType::AttackMissed => {
            assert(is_ascii_text(n));
            assert(ascii_lower(n) =~= "attackmissed"@);
            lemma_without_absent_char("attackmissed"@, '_');
            assert("attackmissed"@[0] != "playerjoined"@[0]);
            assert("attackmissed"@[0] != "playerdocked"@[0]);
            assert("attackmissed"@[0] != "shiprepaired"@[0]);
            assert("attackmissed"@[0] != "shiprefueled"@[0]);
            assert(event_type_for_key(without(lowered(event_type_name(t)), '_')) == Some(t));
        },
        GameEventType::MissionSpawned => {
            assert(is_ascii_text(n));
            assert(ascii_lower(n) =~= "missionspawned"@);
            lemma_without_absent_char("missionspawned"@, '_');
            assert("missionspawned"@[0] != "playerundocked"@[0]);
            assert(event_type_for_key(without(lowered(event_type_name(t)), '_')) == Some(t));
        },
        GameEventType::MissionAccepted => {
            assert(is_ascii_text(n));
            assert(ascii_lower(n) =~= "missionaccepted"@);
            lemma_without_absent_char("missionaccepted"@, '_');
            assert(event_type_for_key(without(lowered(event_type_name(t)), '_')) == Some(t));
        },
        GameEventType::MissionCompleted => {
            assert(is_ascii_text(n));
            assert(ascii_lower(n) =~= "missioncompleted"@);
            lemma_without_absent_char("missioncompleted"@, '_');
            assert(event_type_for_key(without(lowered(event_type_name(t)), '_')) == Some(t));
        },
        GameEventType::MissionFailed => {
            assert(is_ascii_text(n));
            assert(ascii_lower(n) =~= "missionfailed"@);
            lemma_without_absent_char("missionfailed"@, '_');
            assert("missionfailed"@[0] != "shipdestroyed"@[0]);
            assert("missionfailed"@[0] != "combatstarted"@[0]);
            assert(event_type_for_key(without(lowered(event_type_name(t)), '_')) == Some(t));
        },
        GameEventType::MissionExpired => {
            assert(is_ascii_text(n));
            assert(ascii_lower(n) =~= "missionexpired"@);
            lemma_without_absent_char("missionexpired"@, '_');
            assert("missionexpired"@[0] != "playerundocked"@[0]);
            assert("missionexpired"@[7] != "missionspawned"@[7]);
            assert(event_type_for_key(without(lowered(event_type_name(t)), '_')) == Some(t));
        },
        GameEventType::MissionChoiceMade => {
            assert(is_ascii_text(n));
            assert(ascii_lower(n) =~= "missionchoicemade"@);
            lemma_without_absent_char("missionchoicemade"@, '_');
            assert(event_type_for_key(without(lowered(event_type_name(t)), '_')) == Some(t));
        },
        GameEventType::ReputationGained => {
            assert(is_ascii_text(n));
            assert(ascii_lower(n) =~= "reputationgained"@);
            lemma_without_absent_char("reputationgained"@, '_');
            assert("reputationgained"@[0] != "missioncompleted"@[0]);
            assert(event_type_for_key(without(lowered(event_type_name(t)), '_')) == Some(t));
        },
        GameEventType::ReputationLost => {
            assert(is_ascii_text(n));
            assert(ascii_lower(n) =~= "reputationlost"@);
            lemma_without_absent_char("reputationlost"@, '_');
            assert("reputationlost"@[0] != "playerundocked"@[0]);
            assert("reputationlost"@[0] != "missionspawned"@[0]);
            assert("reputationlost"@[0] != "missionexpired"@[0]);
            assert(event_type_for_key(without(lowered(event_type_name(t)), '_')) == Some(t));
        },
        GameEventType::FameGained => {
            assert(is_ascii_text(n));
            assert(ascii_lower(n) =~= "famegained"@);
            lemma_without_absent_char("famegained"@, '_');
            assert("famegained"@[0] != "playerleft"@[0]);
            assert(event_type_for_key(without(lowered(event_type_name(t)), '_')) == Some(t));
        },
        GameEventType::FameLost => {
            assert(is_ascii_text(n));
            assert(ascii_lower(n) =~= "famelost"@);
            lemma_without_absent_char("famelost"@, '_');
            assert(event_type_for_key(without(lowered(event_type_name(t)), '_')) == Some(t));
        },
        GameEventType::PlayerDisgraced => {
            assert(is_ascii_text(n));
            assert(ascii_lower(n) =~= "playerdisgraced"@);
            lemma_without_absent_char("playerdisgraced"@, '_');
            assert("playerdisgraced"@[0] != "missionaccepted"@[0]);
            assert(event_type_for_key(without(lowered(event_type_name(t)), '_')) == Some(t));
        },
        GameEventType::SquadronCreated => {
            assert(is_ascii_text(n));
            assert(ascii_lower(n) =~= "squadroncreated"@);
            lemma_without_absent_char("squadroncreated"@, '_');
            assert("squadroncreated"@[0] != "missionaccepted"@[0]);
            assert("squadroncreated"@[0] != "playerdisgraced"@[0]);
            assert(event_type_for_key(without(lowered(event_type_name(t)), '_')) == Some(t));
        },
        GameEventType::SquadronDissolved => {
            assert(is_ascii_text(n));
            assert(ascii_lower(n) =~= "squadrondissolved"@);
            lemma_without_absent_char("squadrondissolved"@, '_');
            assert("squadrondissolved"@[0] != "missionchoicemade"@[0]);
            assert(event_type_for_key(without(lowered(event_type_name(t)), '_')) == Some(t));
        },
        GameEventType::SquadronMemberJoined => {
            assert(is_ascii_text(n));
            assert(ascii_lower(n) =~= "squadronmemberjoined"@);
            lemma_without_absent_char("squadronmemberjoined"@, '_');
            assert(event_type_for_key(without(lowered(event_type_name(t)), '_')) == Some(t));
        },
        GameEventType::SquadronMemberLeft => {
            assert(is_ascii_text(n));
            assert(ascii_lower(n) =~= "squadronmemberleft"@);
            lemma_without_absent_char("squadronmemberleft"@, '_');
            assert(event_type_for_key(without(lowered(event_type_name(t)), '_')) == Some(t));
        },
        GameEventType::SquadronWarDeclared => {
            assert(is_ascii_text(n));
            assert(ascii_lower(n) =~= "squadronwardeclared"@);
            lemma_without_absent_char("squadronwardeclared"@, '_');
            assert(event_type_for_key(without(lowered(event_type_name(t)), '_')) == Some(t));
        },
        GameEventType::SquadronPeaceDeclared => {
            assert(is_ascii_text(n));
            assert(ascii_lower(n) =~= "squadronpeacedeclared"@);
            lemma_without_absent_char("squadronpeacedeclared"@, '_');
            assert(event_type_for_key(without(lowered(event_type_name(t)), '_')) == Some(t));
        },
        GameEventType::SectorControlChanged => {
            assert(is_ascii_text(n));
            assert(ascii_lower(n) =~= "sectorcontrolchanged"@);
            lemma_without_absent_char("sectorcontrolchanged"@, '_');
            assert("sectorcontrolchanged"@[1] != "squadronmemberjoined"@[1]);
            assert(event_type_for_key(without(lowered(event_type_name(t)), '_')) == Some(t));
        },
        GameEventType::StationBuilt => {
            assert(is_ascii_text(n));
            assert(ascii_lower(n) =~= "stationbuilt"@);
            lemma_without_absent_char("stationbuilt"@, '_');
            assert("stationbuilt"@[0] != "playerjoined"@[0]);
            assert("stationbuilt"@[0] != "playerdocked"@[0]);
            assert("stationbuilt"@[1] != "shiprepaired"@[1]);
            assert("stationbuilt"@[1] != "shiprefueled"@[1]);
            assert("stationbuilt"@[0] != "attackmissed"@[0]);
            assert(event_type_for_key(without(lowered(event_type_name(t)), '_')) == Some(t));
        },
        GameEventType::StationDestroyed => {
            assert(is_ascii_text(n));
            assert(ascii_lower(n) =~= "stationdestroyed"@);
            lemma_without_absent_char("stationdestroyed"@, '_');
            assert("stationdestroyed"@[0] != "missioncompleted"@[0]);
            assert("stationdestroyed"@[0] != "reputationgained"@[0]);
            assert(event_type_for_key(without(lowered(event_type_name(t)), '_')) == Some(t));
        },
        GameEventType::SeraIncursion => {
            assert(is_ascii_text(n));
            assert(ascii_lower(n) =~= "seraincursion"@);
            lemma_without_absent_char("seraincursion"@, '_');
            assert("seraincursion"@[1] != "shipdestroyed"@[1]);
            assert("seraincursion"@[0] != "combatstarted"@[0]);
            assert("seraincursion"@[0] != "missionfailed"@[0]);
            assert(event_type_for_key(without(lowered(event_type_name(t)), '_')) == Some(t));
        },
        GameEventType::DroneSwarmDetected => {
            assert(is_ascii_text(n));
            assert(ascii_lower(n) =~= "droneswarmdetected"@);
            lemma_without_absent_char("droneswarmdetected"@, '_');
            assert("droneswarmdetected"@[0] != "squadronmemberleft"@[0]);
            assert(event_type_for_key(without(lowered(event_type_name(t)), '_')) == Some(t));
        },
        GameEventType::AsteroidAlert => {
            assert(is_ascii_text(n));
            assert(ascii_lower(n) =~= "asteroidalert"@);
            lemma_without_absent_char("asteroidalert"@, '_');
            assert("asteroidalert"@[0] != "shipdestroyed"@[0]);
            assert("asteroidalert"@[0] != "combatstarted"@[0]);
            assert("asteroidalert"@[0] != "missionfailed"@[0]);
            assert("asteroidalert"@[0] != "seraincursion"@[0]);
            assert(event_type_for_key(without(lowered(event_type_name(t)), '_')) == Some(t));
        },
        GameEventType::DistressSignalReceived => {
            assert(is_ascii_text(n));
            assert(ascii_lower(n) =~= "distresssignalreceived"@);
            lemma_without_absent_char("distresssignalreceived"@, '_');
            assert(event_type_for_key(without(lowered(event_type_name(t)), '_')) == Some(t));
        },
    }
}

/// Event type names ignore case and underscores: any ASCII text that, lowercased and with its
/// underscores dropped, spells an event type's name (such as "mission_completed" or
/// "MISSIONCOMPLETED" for `MissionCompleted`) parses to that event type.
pub proof fn law_event_type_names_ignore_case_and_underscores(t: GameEventType, s: Seq<char>)
    requires
        is_ascii_text(s),
        without(ascii_lower(s), '_') == ascii_lower(event_type_name(t)),
    ensures
        event_type_for_key(without(lowered(s), '_')) == Some(t),
{
    law_event_type_named_by_its_name(t);
}

/// Filter for narrowing event scope.
#[derive(Debug)]
pub enum EventFilter {
    /// Only events from a specific sector
    SectorId(u128),
    /// Only events with a specific actor
    ActorId(u128),
    /// Only events targeting a specific entity
    TargetId(u128),
    /// Custom filter function name (called in script)
    Custom(String),
}

impl Clone for EventFilter {
    fn clone(&self) -> (r: Self)
        ensures
            r == *self,
    {
        match self {
            EventFilter::SectorId(id) => EventFilter::SectorId(*id),
            EventFilter::ActorId(id) => EventFilter::ActorId(*id),
            EventFilter::TargetId(id) => EventFilter::TargetId(*id),
            EventFilter::Custom(f) => EventFilter::Custom(f.clone()),
        }
    }
}

/// Whether an event from `sector_id`, with the given actor and target, passes the filter.
/// Custom filters pass here; the script checks them.
pub open spec fn filter_passes(f: EventFilter, sector_id: u128, actor_id: Option<u128>, target_id: Option<u128>) -> bool {
    match f {
        EventFilter::SectorId(id) => sector_id == id,
        EventFilter::ActorId(id) => actor_id == Some(id),
        EventFilter::TargetId(id) => target_id == Some(id),
        EventFilter::Custom(_) => true,
    }
}

impl EventFilter {
    /// Check if an event passes this filter.
    pub fn matches(&self, sector_id: u128, actor_id: Option<u128>, target_id: Option<u128>) -> (r: bool)
        ensures
            r == filter_passes(*self, sector_id, actor_id, target_id),
    {
        match self {
            EventFilter::SectorId(id) => sector_id == *id,
            EventFilter::ActorId(id) => actor_id == Some(*id),
            EventFilter::TargetId(id) => target_id == Some(*id),
            EventFilter::Custom(_) => true,
        }
    }
}

/// A script's subscription to events.
#[derive(Debug)]
pub struct EventSubscription {
    /// Unique ID for this subscription
    pub id: u128,
    /// Script that owns this subscription
    pub script_path: String,
    /// Function to call when event occurs
    pub handler_function: String,
    /// Event types this subscription matches
    pub event_types: Vec<GameEventType>,
    /// Optional filter to narrow event scope
    pub filter: Option<EventFilter>,
    /// Priority (lower runs first)
    pub priority: i32,
    /// Whether this subscription is active
    pub enabled: bool,
    /// Entity that owns this subscription (for cleanup)
    pub owner_entity_id: Option<u128>,
    /// Sector filter (only events from this sector)
    pub sector_id: Option<u128>,
}

/// `a` and `b` hold the same subscription.
pub open spec fn same_subscription(a: EventSubscription, b: EventSubscription) -> bool {
    &&& a.id == b.id
    &&& a.script_path == b.script_path
    &&& a.handler_function == b.handler_function
    &&& a.event_types@ == b.event_types@
    &&& a.filter == b.filter
    &&& a.priority == b.priority
    &&& a.enabled == b.enabled
    &&& a.owner_entity_id == b.owner_entity_id
    &&& a.sector_id == b.sector_id
}

impl Clone for EventSubscription {
    fn clone(&self) -> (r: Self)
        ensures
            same_subscription(r, *self),
    {
        let event_types = self.event_types.clone();
        assert(event_types@ =~= self.event_types@);
        EventSubscription {
            id: self.id,
            script_path: self.script_path.clone(),
            handler_function: self.handler_function.clone(),
            event_types,
            filter: match &self.filter {
                Some(f) => Some(f.clone()),
                None => None,
            },
            priority: self.priority,
            enabled: self.enabled,
            owner_entity_id: self.owner_entity_id,
            sector_id: self.sector_id,
        }
    }
}

impl EventSubscription {
    /// A new enabled subscription with a fresh identifier, priority 0, and no filter, owner
    /// or sector.
    pub fn new(script_path: &str, handler_function: &str, event_types: Vec<GameEventType>) -> (r: Self)
        ensures
            r.script_path@ == script_path@,
            r.handler_function@ == handler_function@,
            r.event_types == event_types,
            r.filter is None,
            r.priority == 0,
            r.enabled,
            r.owner_entity_id is None,
            r.sector_id is None,
    {
        EventSubscription {
            id: new_id(),
            script_path: owned(script_path),
            handler_function: owned(handler_function),
            event_types,
            filter: None,
            priority: 0,
            enabled: true,
            owner_entity_id: None,
            sector_id: None,
        }
    }

    /// Set the owner entity.
    pub fn with_owner(self, entity_id: u128) -> (r: Self)
        ensures
            r == (EventSubscription { owner_entity_id: Some(entity_id), ..self }),
    {
        EventSubscription { owner_entity_id: Some(entity_id), ..self }
    }

    /// Set the sector filter.
    pub fn with_sector(self, sector_id: u128) -> (r: Self)
        ensures
            r == (EventSubscription { sector_id: Some(sector_id), ..self }),
    {
        EventSubscription { sector_id: Some(sector_id), ..self }
    }

    /// Set priority.
    pub fn with_priority(self, priority: i32) -> (r: Self)
        ensures
            r == (EventSubscription { priority, ..self }),
    {
        EventSubscription { priority, ..self }
    }

    /// Set filter.
    pub fn with_filter(self, filter: EventFilter) -> (r: Self)
        ensures
            r == (EventSubscription { filter: Some(filter), ..self }),
    {
        EventSubscription { filter: Some(filter), ..self }
    }
}

/// The registrations a subscription with these event types adds under `id`, in order.
pub open spec fn type_entries(types: Seq<GameEventType>, id: u128) -> Seq<(GameEventType, u128)> {
    types.map_values(|t: GameEventType| (t, id))
}

/// `s` without the registrations of `id` under any of `types`, the rest in order.
pub open spec fn drop_registrations(s: Seq<(GameEventType, u128)>, id: u128, types: Seq<GameEventType>) -> Seq<(GameEventType, u128)>
    decreases s.len(),
{
    if s.len() == 0 {
        s
    } else {
        let r = drop_registrations(s.drop_last(), id, types);
        if s.last().1 == id && types.contains(s.last().0) { r } else { r.push(s.last()) }
    }
}

/// The identifiers registered in `s` under `t` whose subscription is in `live`, in order.
pub open spec fn handler_ids(s: Seq<(GameEventType, u128)>, t: GameEventType, live: Set<u128>) -> Seq<u128>
    decreases s.len(),
{
    if s.len() == 0 {
        Seq::empty()
    } else {
        let r = handler_ids(s.drop_last(), t, live);
        if s.last().0 == t && live.contains(s.last().1) { r.push(s.last().1) } else { r }
    }
}

/// `x` put into `sorted` after every identifier whose subscription's priority is not greater.
pub open spec fn insert_by_priority(sorted: Seq<u128>, x: u128, m: Map<u128, EventSubscription>) -> Seq<u128>
    decreases sorted.len(),
{
    if sorted.len() == 0 {
        seq![x]
    } else if m[sorted.last()].priority <= m[x].priority {
        sorted.push(x)
    } else {
        insert_by_priority(sorted.drop_last(), x, m).push(sorted.last())
    }
}

/// `s` sorted by priority, lowest first, keeping the order of equal priorities.
pub open spec fn sorted_by_priority(s: Seq<u128>, m: Map<u128, EventSubscription>) -> Seq<u128>
    decreases s.len(),
{
    if s.len() == 0 {
        s
    } else {
        insert_by_priority(sorted_by_priority(s.drop_last(), m), s.last(), m)
    }
}

/// Inserting at the place after the last identifier of priority not greater than `x`'s is
/// `insert_by_priority`.
proof fn lemma_insert_by_priority(s: Seq<u128>, x: u128, m: Map<u128, EventSubscription>, j: int)
    requires
        0 <= j <= s.len(),
        j == 0 || m[s[j - 1]].priority <= m[x].priority,
        forall|k: int| j <= k < s.len() ==> m[#[trigger] s[k]].priority > m[x].priority,
    ensures
        insert_by_priority(s, x, m) == s.insert(j, x),
    decreases s.len(),
{
    if s.len() == 0 {
        assert(s.insert(j, x) =~= seq![x]);
    } else if j == s.len() {
        assert(s.insert(j, x) =~= s.push(x));
    } else {
        let t = s.drop_last();
        assert(m[s[s.len() - 1]].priority > m[x].priority);
        assert forall|k: int| j <= k < t.len() implies m[#[trigger] t[k]].priority > m[x].priority by {
            assert(t[k] == s[k]);
        }
        if j > 0 {
            assert(t[j - 1] == s[j - 1]);
        }
        lemma_insert_by_priority(t, x, m, j);
        assert(s.insert(j, x) =~= t.insert(j, x).push(s.last()));
    }
}

/// The identifiers registered in `s` under the owner `entity`, in order.
pub open spec fn owned_ids(s: Seq<(u128, u128)>, entity: u128) -> Seq<u128>
    decreases s.len(),
{
    if s.len() == 0 {
        Seq::empty()
    } else {
        let r = owned_ids(s.drop_last(), entity);
        if s.last().0 == entity { r.push(s.last().1) } else { r }
    }
}

/// `s` without the registrations under the owner `entity`.
pub open spec fn other_owners(s: Seq<(u128, u128)>, entity: u128) -> Seq<(u128, u128)>
    decreases s.len(),
{
    if s.len() == 0 {
        s
    } else {
        let r = other_owners(s.drop_last(), entity);
        if s.last().0 != entity { r.push(s.last()) } else { r }
    }
}

/// Registry of event subscriptions: the subscriptions by identifier, and the registrations
/// by event type and by owner, in the order they were made.
pub struct EventRegistry {
    subs: IdMap<EventSubscription>,
    by_event_type: Vec<(GameEventType, u128)>,
    by_owner: Vec<(u128, u128)>,
}

impl EventRegistry {
    /// The subscriptions by identifier.
    pub closed spec fn subscriptions(&self) -> Map<u128, EventSubscription> {
        self.subs@
    }

    /// The identifiers of the subscriptions, in the order they were made.
    pub closed spec fn order(&self) -> Seq<u128> {
        self.subs.key_seq()
    }

    /// The (event type, subscription) registrations, oldest first.
    pub closed spec fn type_index(&self) -> Seq<(GameEventType, u128)> {
        self.by_event_type@
    }

    /// The (owner, subscription) registrations, oldest first.
    pub closed spec fn owner_index(&self) -> Seq<(u128, u128)> {
        self.by_owner@
    }

    /// The registry is well formed.
    pub closed spec fn inv(&self) -> bool {
        self.subs.wf()
    }

    /// An empty registry.
    pub fn new() -> (r: Self)
        ensures
            r.inv(),
            r.subscriptions() == Map::<u128, EventSubscription>::empty(),
            r.type_index().len() == 0,
            r.owner_index().len() == 0,
    {
        EventRegistry { subs: IdMap::new(), by_event_type: Vec::new(), by_owner: Vec::new() }
    }

    /// Subscribe to events: the subscription is kept under its identifier and registered
    /// under each of its event types and under its owner. Returns its identifier.
    pub fn subscribe(&mut self, sub: EventSubscription) -> (r: u128)
        requires
            old(self).inv(),
        ensures
            final(self).inv(),
            r == sub.id,
            final(self).subscriptions() == old(self).subscriptions().insert(r, sub),
            final(self).type_index() == old(self).type_index() + type_entries(sub.event_types@, r),
            final(self).owner_index() == match sub.owner_entity_id {
                Some(o) => old(self).owner_index().push((o, r)),
                None => old(self).owner_index(),
            },
    {
        let id = sub.id;
        let ghost base = self.by_event_type@;
        let mut i: usize = 0;
        while i < sub.event_types.len()
            invariant
                i <= sub.event_types@.len(),
                self.by_event_type@ == base + type_entries(sub.event_types@.take(i as int), id),
                base == old(self).by_event_type@,
                id == sub.id,
                self.subs == old(self).subs,
                self.by_owner == old(self).by_owner,
                self.subs.wf(),
            decreases sub.event_types@.len() - i,
        {
            self.by_event_type.push((sub.event_types[i], id));
            proof {
                assert(type_entries(sub.event_types@.take(i as int + 1), id) =~= type_entries(sub.event_types@.take(i as int), id).push((sub.event_types@[i as int], id)));
            }
            i = i + 1;
        }
        proof {
            assert(sub.event_types@.take(sub.event_types@.len() as int) =~= sub.event_types@);
        }
        if let Some(owner) = sub.owner_entity_id {
            self.by_owner.push((owner, id));
        }
        self.subs.insert(id, sub);
        id
    }

    /// Unsubscribe by identifier: the subscription and its registrations are dropped.
    /// Returns whether it existed.
    pub fn unsubscribe(&mut self, id: u128) -> (r: bool)
        requires
            old(self).inv(),
        ensures
            final(self).inv(),
            r == old(self).subscriptions().contains_key(id),
            final(self).subscriptions() == old(self).subscriptions().remove(id),
            !r ==> final(self).type_index() == old(self).type_index() && final(self).owner_index() == old(self).owner_index(),
            r ==> final(self).type_index() == drop_registrations(old(self).type_index(), id, old(self).subscriptions()[id].event_types@),
            r ==> final(self).owner_index() == match old(self).subscriptions()[id].owner_entity_id {
                Some(o) => without(old(self).owner_index(), (o, id)),
                None => old(self).owner_index(),
            },
    {
        match self.subs.remove(id) {
            None => false,
            Some(sub) => {
                let ghost s = self.by_event_type@;
                let mut kept: Vec<(GameEventType, u128)> = Vec::new();
                let mut i: usize = 0;
                while i < self.by_event_type.len()
                    invariant
                        self.by_event_type@ == s,
                        i <= s.len(),
                        kept@ == drop_registrations(s.take(i as int), id, sub.event_types@),
                    decreases s.len() - i,
                {
                    let p = self.by_event_type[i];
                    proof {
                        assert(s.take(i as int + 1).drop_last() =~= s.take(i as int));
                        assert(s.take(i as int + 1).last() == s[i as int]);
                    }
                    if !(p.1 == id && contains_event_type(&sub.event_types, p.0)) {
                        kept.push(p);
                    }
                    i = i + 1;
                }
                proof { assert(s.take(s.len() as int) =~= s); }
                self.by_event_type = kept;
                if let Some(owner) = sub.owner_entity_id {
                    let ghost o = self.by_owner@;
                    let mut kept_owners: Vec<(u128, u128)> = Vec::new();
                    let mut j: usize = 0;
                    while j < self.by_owner.len()
                        invariant
                            self.by_owner@ == o,
                            j <= o.len(),
                            kept_owners@ == without(o.take(j as int), (owner, id)),
                        decreases o.len() - j,
                    {
                        proof { lemma_without_step(o, (owner, id), j as int); }
                        let p = self.by_owner[j];
                        if !(p.0 == owner && p.1 == id) {
                            kept_owners.push(p);
                        }
                        j = j + 1;
                    }
                    proof { assert(o.take(o.len() as int) =~= o); }
                    self.by_owner = kept_owners;
                }
                true
            },
        }
    }

    /// Unsubscribe all subscriptions registered under an entity, and drop its registrations.
    pub fn unsubscribe_for_entity(&mut self, entity_id: u128)
        requires
            old(self).inv(),
        ensures
            final(self).inv(),
            forall|k: u128| #[trigger] final(self).subscriptions().contains_key(k) <==>
                (old(self).subscriptions().contains_key(k) && !owned_ids(old(self).owner_index(), entity_id).contains(k)),
            forall|k: u128| #[trigger] final(self).subscriptions().contains_key(k) ==> final(self).subscriptions()[k] == old(self).subscriptions()[k],
            forall|p: (u128, u128)| #[trigger] final(self).owner_index().contains(p) ==> p.0 != entity_id && old(self).owner_index().contains(p),
            forall|p: (GameEventType, u128)| #[trigger] final(self).type_index().contains(p) ==> old(self).type_index().contains(p),
    {
        let ghost owners = self.by_owner@;
        let ids = self.ids_owned_by(entity_id);
        let mut j: usize = 0;
        while j < ids.len()
            invariant
                self.inv(),
                j <= ids@.len(),
                ids@ == owned_ids(owners, entity_id),
                owners == old(self).owner_index(),
                forall|k: u128| #[trigger] self.subscriptions().contains_key(k) <==>
                    (old(self).subscriptions().contains_key(k) && !(exists|x: int| 0 <= x < j && ids@[x] == k)),
                forall|k: u128| #[trigger] self.subscriptions().contains_key(k) ==> self.subscriptions()[k] == old(self).subscriptions()[k],
                forall|p: (u128, u128)| #[trigger] self.owner_index().contains(p) ==> old(self).owner_index().contains(p),
                forall|p: (GameEventType, u128)| #[trigger] self.type_index().contains(p) ==> old(self).type_index().contains(p),
            decreases ids@.len() - j,
        {
            let id = ids[j];
            let ghost before = *self;
            self.unsubscribe(id);
            proof {
                if before.subscriptions().contains_key(id) {
                    let sub = before.subscriptions()[id];
                    lemma_drop_registrations(before.type_index(), id, sub.event_types@);
                    match sub.owner_entity_id {
                        Some(o) => { lemma_without(before.owner_index(), (o, id)); },
                        None => {},
                    }
                }
                assert forall|k: u128| #[trigger] self.subscriptions().contains_key(k) <==>
                    (old(self).subscriptions().contains_key(k) && !(exists|x: int| 0 <= x < j + 1 && ids@[x] == k)) by {
                    if exists|x: int| 0 <= x < j + 1 && ids@[x] == k {
                        let x = choose|x: int| 0 <= x < j + 1 && ids@[x] == k;
                        if x < j {
                            assert(exists|x: int| 0 <= x < j && ids@[x] == k);
                        }
                    }
                    if exists|x: int| 0 <= x < j && ids@[x] == k {
                        let x = choose|x: int| 0 <= x < j && ids@[x] == k;
                        assert(0 <= x < j + 1 && ids@[x] == k);
                    }
                }
            }
            j = j + 1;
        }
        let ghost o = self.by_owner@;
        let ghost mid = *self;
        let kept = pairs_without_key(&self.by_owner, entity_id);
        proof {
            lemma_other_owners(o, entity_id);
        }
        self.by_owner = kept;
        proof {
            assert(self.subscriptions() == mid.subscriptions());
            assert(self.type_index() == mid.type_index());
            assert(o == mid.owner_index());
            assert forall|p: (u128, u128)| #[trigger] self.owner_index().contains(p) implies p.0 != entity_id && old(self).owner_index().contains(p) by {
                assert(o.contains(p));
                assert(mid.owner_index().contains(p));
            }
            assert forall|k: u128| #[trigger] self.subscriptions().contains_key(k) <==>
                (old(self).subscriptions().contains_key(k) && !owned_ids(owners, entity_id).contains(k)) by {
                if owned_ids(owners, entity_id).contains(k) {
                    let x = choose|x: int| 0 <= x < ids@.len() && ids@[x] == k;
                    assert(exists|x: int| 0 <= x < ids@.len() && ids@[x] == k);
                }
                if exists|x: int| 0 <= x < ids@.len() && ids@[x] == k {
                    let x = choose|x: int| 0 <= x < ids@.len() && ids@[x] == k;
                    assert(ids@.contains(k));
                }
            }
        }
    }

    /// The identifiers registered under an owner, in order.
    fn ids_owned_by(&self, entity_id: u128) -> (r: Vec<u128>)
        ensures
            r@ == owned_ids(self.owner_index(), entity_id),
    {
        ids_under(&self.by_owner, entity_id)
    }

    /// The identifiers registered under `event_type` whose subscription exists, in order.
    fn handler_id_list(&self, event_type: GameEventType) -> (r: Vec<u128>)
        requires
            self.inv(),
        ensures
            r@ == handler_ids(self.type_index(), event_type, self.subscriptions().dom()),
    {
        let ghost s = self.by_event_type@;
        let mut r: Vec<u128> = Vec::new();
        let mut i: usize = 0;
        while i < self.by_event_type.len()
            invariant
                self.inv(),
                self.by_event_type@ == s,
                i <= s.len(),
                r@ == handler_ids(s.take(i as int), event_type, self.subscriptions().dom()),
            decreases s.len() - i,
        {
            let p = self.by_event_type[i];
            proof {
                assert(s.take(i as int + 1).drop_last() =~= s.take(i as int));
                assert(s.take(i as int + 1).last() == s[i as int]);
            }
            if p.0 == event_type && self.subs.contains_key(p.1) {
                r.push(p.1);
            }
            i = i + 1;
        }
        proof { assert(s.take(s.len() as int) =~= s); }
        r
    }

    /// Clones of the subscriptions with the given identifiers, which all exist.
    fn clones_of(&self, ids: &Vec<u128>) -> (r: Vec<EventSubscription>)
        requires
            self.inv(),
            forall|i: int| 0 <= i < ids@.len() ==> self.subscriptions().contains_key(#[trigger] ids@[i]),
        ensures
            r@.len() == ids@.len(),
            forall|i: int| 0 <= i < ids@.len() ==> same_subscription(#[trigger] r@[i], self.subscriptions()[ids@[i]]),
    {
        let mut r: Vec<EventSubscription> = Vec::new();
        let mut i: usize = 0;
        while i < ids.len()
            invariant
                self.inv(),
                forall|i: int| 0 <= i < ids@.len() ==> self.subscriptions().contains_key(#[trigger] ids@[i]),
                i <= ids@.len(),
                r@.len() == i,
                forall|k: int| 0 <= k < i ==> same_subscription(#[trigger] r@[k], self.subscriptions()[ids@[k]]),
            decreases ids@.len() - i,
        {
            let id = ids[i];
            assert(self.subscriptions().contains_key(ids@[i as int]));
            match self.subs.get(id) {
                Some(sub) => { r.push(sub.clone()); },
                None => {},
            }
            i = i + 1;
        }
        r
    }

    /// The subscriptions registered under an event type, in registration order.
    pub fn get_handlers(&self, event_type: GameEventType) -> (r: Vec<EventSubscription>)
        requires
            self.inv(),
        ensures
            r@.len() == handler_ids(self.type_index(), event_type, self.subscriptions().dom()).len(),
            forall|i: int| 0 <= i < r@.len() ==> same_subscription(#[trigger] r@[i],
                self.subscriptions()[handler_ids(self.type_index(), event_type, self.subscriptions().dom())[i]]),
    {
        let ids = self.handler_id_list(event_type);
        proof { lemma_handler_ids(self.type_index(), event_type, self.subscriptions().dom()); }
        assert forall|i: int| 0 <= i < ids@.len() implies self.subscriptions().contains_key(#[trigger] ids@[i]) by {
            assert(ids@.contains(ids@[i]));
        }
        self.clones_of(&ids)
    }

    /// The subscriptions registered under an event type, by priority, lowest first; equal
    /// priorities keep registration order.
    pub fn get_handlers_sorted(&self, event_type: GameEventType) -> (r: Vec<EventSubscription>)
        requires
            self.inv(),
        ensures
            r@.len() == sorted_by_priority(handler_ids(self.type_index(), event_type, self.subscriptions().dom()), self.subscriptions()).len(),
            forall|i: int| 0 <= i < r@.len() ==> same_subscription(#[trigger] r@[i],
                self.subscriptions()[sorted_by_priority(handler_ids(self.type_index(), event_type, self.subscriptions().dom()), self.subscriptions())[i]]),
    {
        let ids = self.handler_id_list(event_type);
        let ghost m = self.subscriptions();
        proof { lemma_handler_ids(self.type_index(), event_type, m.dom()); }
        let mut sorted: Vec<u128> = Vec::new();
        let mut i: usize = 0;
        while i < ids.len()
            invariant
                self.inv(),
                m == self.subscriptions(),
                forall|k: u128| #[trigger] ids@.contains(k) ==> m.contains_key(k),
                i <= ids@.len(),
                sorted@ == sorted_by_priority(ids@.take(i as int), m),
                forall|k: int| 0 <= k < sorted@.len() ==> m.contains_key(#[trigger] sorted@[k]),
            decreases ids@.len() - i,
        {
            let x = ids[i];
            assert(ids@.contains(x));
            let px = match self.subs.get(x) { Some(s) => s.priority, None => 0 };
            let mut j: usize = sorted.len();
            while j > 0
                invariant
                    self.inv(),
                    m == self.subscriptions(),
                    m.contains_key(x),
                    px == m[x].priority,
                    j <= sorted@.len(),
                    forall|k: int| 0 <= k < sorted@.len() ==> m.contains_key(#[trigger] sorted@[k]),
                    forall|k: int| j <= k < sorted@.len() ==> m[#[trigger] sorted@[k]].priority > m[x].priority,
                ensures
                    j <= sorted@.len(),
                    j == 0 || m[sorted@[j - 1]].priority <= m[x].priority,
                    forall|k: int| j <= k < sorted@.len() ==> m[#[trigger] sorted@[k]].priority > m[x].priority,
                decreases j,
            {
                let y = sorted[j - 1];
                assert(m.contains_key(sorted@[j - 1]));
                let py = match self.subs.get(y) { Some(s) => s.priority, None => 0 };
                if py <= px {
                    break;
                }
                j = j - 1;
            }
            proof {
                lemma_insert_by_priority(sorted@, x, m, j as int);
                assert(ids@.take(i as int + 1).drop_last() =~= ids@.take(i as int));
                assert(ids@.take(i as int + 1).last() == x);
            }
            let ghost before = sorted@;
            sorted.insert(j, x);
            proof {
                assert forall|k: int| 0 <= k < sorted@.len() implies m.contains_key(#[trigger] sorted@[k]) by {
                    if k < j { assert(sorted@[k] == before[k]); }
                    else if k > j { assert(sorted@[k] == before[k - 1]); }
                }
            }
            i = i + 1;
        }
        proof { assert(ids@.take(ids@.len() as int) =~= ids@); }
        self.clones_of(&sorted)
    }

    /// A clone of the subscription with this identifier.
    pub fn get(&self, id: u128) -> (r: Option<EventSubscription>)
        requires
            self.inv(),
        ensures
            r is Some == self.subscriptions().contains_key(id),
            r matches Some(s) ==> same_subscription(s, self.subscriptions()[id]),
    {
        match self.subs.get(id) {
            Some(s) => Some(s.clone()),
            None => None,
        }
    }

    /// Enable or disable a subscription; nothing changes when it does not exist.
    pub fn set_enabled(&mut self, id: u128, enabled: bool)
        requires
            old(self).inv(),
        ensures
            final(self).inv(),
            old(self).subscriptions().contains_key(id) ==> final(self).subscriptions() == old(self).subscriptions().insert(id,
                EventSubscription { enabled, ..old(self).subscriptions()[id] }),
            !old(self).subscriptions().contains_key(id) ==> final(self).subscriptions() == old(self).subscriptions(),
            final(self).type_index() == old(self).type_index(),
            final(self).owner_index() == old(self).owner_index(),
    {
        self.subs.modify(id, |s: EventSubscription| -> (r: EventSubscription)
            ensures r == (EventSubscription { enabled, ..s }),
            { EventSubscription { enabled, ..s } });
    }

    /// Get count of subscriptions.
    pub fn subscription_count(&self) -> (r: usize)
        requires
            self.inv(),
        ensures
            r == self.subscriptions().len(),
    {
        self.subs.len()
    }

    /// Get count of subscriptions (alias for `subscription_count`).
    pub fn count(&self) -> (r: usize)
        requires
            self.inv(),
        ensures
            r == self.subscriptions().len(),
    {
        self.subscription_count()
    }

    /// Get count of subscriptions registered under an entity.
    pub fn count_for_entity(&self, entity_id: u128) -> (r: usize)
        ensures
            r == owned_ids(self.owner_index(), entity_id).len(),
    {
        self.ids_owned_by(entity_id).len()
    }

    /// Clones of all subscriptions, in the order they were made.
    pub fn list_all(&self) -> (r: Vec<EventSubscription>)
        requires
            self.inv(),
        ensures
            r@.len() == self.order().len(),
            forall|i: int| 0 <= i < r@.len() ==> same_subscription(#[trigger] r@[i], self.subscriptions()[self.order()[i]]),
    {
        let n = self.subs.len();
        let mut r: Vec<EventSubscription> = Vec::new();
        let mut i: usize = 0;
        while i < n
            invariant
                self.inv(),
                n == self.order().len(),
                i <= n,
                r@.len() == i,
                forall|k: int| 0 <= k < i ==> same_subscription(#[trigger] r@[k], self.subscriptions()[self.order()[k]]),
            decreases n - i,
        {
            let e = self.subs.entry_at(i);
            r.push(e.1.clone());
            i = i + 1;
        }
        r
    }
}

impl Default for EventRegistry {
    /// An empty registry.
    fn default() -> (r: Self)
        ensures
            r.inv(),
            r.subscriptions() == Map::<u128, EventSubscription>::empty(),
            r.type_index().len() == 0,
            r.owner_index().len() == 0,
    {
        EventRegistry::new()
    }
}

/// `s` is in priority order, lowest first.
pub open spec fn priority_ordered(s: Seq<u128>, m: Map<u128, EventSubscription>) -> bool {
    forall|i: int, j: int| 0 <= i < j < s.len() ==> m[#[trigger] s[i]].priority <= m[#[trigger] s[j]].priority
}

/// Inserting by priority into a priority-ordered sequence keeps it ordered and adds exactly `x`.
proof fn lemma_insert_by_priority_ordered(s: Seq<u128>, x: u128, m: Map<u128, EventSubscription>)
    requires
        priority_ordered(s, m),
    ensures
        priority_ordered(insert_by_priority(s, x, m), m),
        insert_by_priority(s, x, m).to_multiset() == s.to_multiset().insert(x),
    decreases s.len(),
{
    broadcast use vstd::seq_lib::group_to_multiset_ensures;
    if s.len() == 0 {
        assert(seq![x].to_multiset() =~= s.to_multiset().insert(x)) by {
            assert(seq![x] =~= s.push(x));
        }
    } else if m[s.last()].priority <= m[x].priority {
    } else {
        let t = s.drop_last();
        assert(priority_ordered(t, m)) by {
            assert forall|i: int, j: int| 0 <= i < j < t.len() implies m[#[trigger] t[i]].priority <= m[#[trigger] t[j]].priority by {
                assert(t[i] == s[i] && t[j] == s[j]);
            }
        }
        lemma_insert_by_priority_ordered(t, x, m);
        let u = insert_by_priority(t, x, m);
        let last = s.last();
        assert(s =~= t.push(last));
        assert forall|i: int| 0 <= i < u.len() implies m[#[trigger] u[i]].priority <= m[last].priority by {
            assert(u.to_multiset().count(u[i]) > 0);
            if u[i] != x {
                assert(t.to_multiset().count(u[i]) > 0);
                assert(t.contains(u[i]));
                let k = choose|k: int| 0 <= k < t.len() && t[k] == u[i];
                assert(s[k] == t[k]);
            }
        }
        assert forall|i: int, j: int| 0 <= i < j < u.push(last).len() implies m[#[trigger] u.push(last)[i]].priority <= m[#[trigger] u.push(last)[j]].priority by {
            if j == u.len() {
                assert(u.push(last)[i] == u[i]);
            } else {
                assert(u.push(last)[i] == u[i] && u.push(last)[j] == u[j]);
            }
        }
    }
}

/// The handlers that dispatch calls come in priority order, lowest first, and are exactly the
/// registered ones: sorting by priority orders the identifiers and keeps each of them.
pub proof fn law_sorted_by_priority(s: Seq<u128>, m: Map<u128, EventSubscription>)
    ensures
        priority_ordered(sorted_by_priority(s, m), m),
        sorted_by_priority(s, m).to_multiset() == s.to_multiset(),
    decreases s.len(),
{
    broadcast use vstd::seq_lib::group_to_multiset_ensures;
    if s.len() > 0 {
        law_sorted_by_priority(s.drop_last(), m);
        lemma_insert_by_priority_ordered(sorted_by_priority(s.drop_last(), m), s.last(), m);
        assert(s =~= s.drop_last().push(s.last()));
    }
}

/// Whether an identifier's subscription has priority `p`.
pub open spec fn with_priority(m: Map<u128, EventSubscription>, p: i32) -> spec_fn(u128) -> bool {
    |x: u128| m[x].priority == p
}

/// Inserting by priority keeps the order of the identifiers of each priority, with the new one
/// after those of its own priority.
proof fn lemma_insert_by_priority_stable(t: Seq<u128>, x: u128, m: Map<u128, EventSubscription>, p: i32)
    ensures
        insert_by_priority(t, x, m).filter(with_priority(m, p))
            == if m[x].priority == p { t.filter(with_priority(m, p)).push(x) } else { t.filter(with_priority(m, p)) },
    decreases t.len(),
{
    reveal(Seq::filter);
    let f = with_priority(m, p);
    if t.len() == 0 {
        assert(seq![x].drop_last() =~= t);
        assert(t.filter(f) =~= Seq::<u128>::empty());
    } else if m[t.last()].priority <= m[x].priority {
        assert(t.push(x).drop_last() =~= t);
    } else {
        let u = t.drop_last();
        lemma_insert_by_priority_stable(u, x, m, p);
        let w = insert_by_priority(u, x, m);
        assert(w.push(t.last()).drop_last() =~= w);
    }
}

/// Sorting by priority is stable: for every priority, the identifiers of that priority come
/// in the sorted sequence in the order they had before.
pub proof fn law_sorted_by_priority_is_stable(s: Seq<u128>, m: Map<u128, EventSubscription>, p: i32)
    ensures
        sorted_by_priority(s, m).filter(with_priority(m, p)) == s.filter(with_priority(m, p)),
    decreases s.len(),
{
    reveal(Seq::filter);
    if s.len() > 0 {
        law_sorted_by_priority_is_stable(s.drop_last(), m, p);
        lemma_insert_by_priority_stable(sorted_by_priority(s.drop_last(), m), s.last(), m, p);
    }
}

/// Unsubscribing a subscription just made under a new identifier gives back the
/// subscriptions as they were.
pub proof fn law_unsubscribe_undoes_subscribe(r0: EventRegistry, r1: EventRegistry, r2: EventRegistry, sub: EventSubscription)
    requires
        !r0.subscriptions().contains_key(sub.id),
        r1.subscriptions() == r0.subscriptions().insert(sub.id, sub),
        r2.subscriptions() == r1.subscriptions().remove(sub.id),
    ensures
        r2.subscriptions() == r0.subscriptions(),
{
    assert(r2.subscriptions() =~= r0.subscriptions());
}


/// The second parts of the pairs whose first part is `key`, in order.
pub fn ids_under(pairs: &Vec<(u128, u128)>, key: u128) -> (r: Vec<u128>)
    ensures
        r@ == owned_ids(pairs@, key),
{
    let ghost o = pairs@;
    let mut r: Vec<u128> = Vec::new();
    let mut i: usize = 0;
    while i < pairs.len()
        invariant
            pairs@ == o,
            i <= o.len(),
            r@ == owned_ids(o.take(i as int), key),
        decreases o.len() - i,
    {
        let p = pairs[i];
        proof {
            assert(o.take(i as int + 1).drop_last() =~= o.take(i as int));
            assert(o.take(i as int + 1).last() == o[i as int]);
        }
        if p.0 == key {
            r.push(p.1);
        }
        i = i + 1;
    }
    proof { assert(o.take(o.len() as int) =~= o); }
    r
}

/// The pairs whose first part is not `key`, in order.
pub fn pairs_without_key(pairs: &Vec<(u128, u128)>, key: u128) -> (r: Vec<(u128, u128)>)
    ensures
        r@ == other_owners(pairs@, key),
{
    let ghost o = pairs@;
    let mut kept: Vec<(u128, u128)> = Vec::new();
    let mut i: usize = 0;
    while i < pairs.len()
        invariant
            pairs@ == o,
            i <= o.len(),
            kept@ == other_owners(o.take(i as int), key),
        decreases o.len() - i,
    {
        let p = pairs[i];
        proof {
            assert(o.take(i as int + 1).drop_last() =~= o.take(i as int));
            assert(o.take(i as int + 1).last() == o[i as int]);
        }
        if p.0 != key {
            kept.push(p);
        }
        i = i + 1;
    }
    proof { assert(o.take(o.len() as int) =~= o); }
    kept
}

/// Whether `t` is among `types`.
fn contains_event_type(types: &Vec<GameEventType>, t: GameEventType) -> (r: bool)
    ensures
        r == types@.contains(t),
{
    let mut i: usize = 0;
    while i < types.len()
        invariant
            i <= types@.len(),
            forall|j: int| 0 <= j < i ==> types@[j] != t,
        decreases types@.len() - i,
    {
        if types[i] == t {
            assert(types@[i as int] == t);
            return true;
        }
        i = i + 1;
    }
    false
}

/// What `drop_registrations` keeps.
pub proof fn lemma_drop_registrations(s: Seq<(GameEventType, u128)>, id: u128, types: Seq<GameEventType>)
    ensures
        forall|p: (GameEventType, u128)| #[trigger] drop_registrations(s, id, types).contains(p) <==>
            (s.contains(p) && !(p.1 == id && types.contains(p.0))),
    decreases s.len(),
{
    if s.len() > 0 {
        let t = s.drop_last();
        let n = s.len() as int;
        let last = s[n - 1];
        lemma_drop_registrations(t, id, types);
        assert(drop_registrations(s, id, types) == if last.1 == id && types.contains(last.0) { drop_registrations(t, id, types) } else { drop_registrations(t, id, types).push(last) });
        assert forall|p: (GameEventType, u128)| #[trigger] drop_registrations(s, id, types).contains(p) <==>
            (s.contains(p) && !(p.1 == id && types.contains(p.0))) by {
            if s.contains(p) && !(p.1 == id && types.contains(p.0)) {
                let j = choose|j: int| 0 <= j < n && s[j] == p;
                if j < n - 1 {
                    assert(t[j] == p);
                }
            }
            if drop_registrations(s, id, types).contains(p) {
                if !(last.1 == id && types.contains(last.0)) && p == last {
                    assert(s[n - 1] == p);
                } else {
                    assert(drop_registrations(t, id, types).contains(p));
                    let j = choose|j: int| 0 <= j < t.len() && t[j] == p;
                    assert(s[j] == p);
                }
            }
        }
    }
}

/// What `handler_ids` holds.
pub proof fn lemma_handler_ids(s: Seq<(GameEventType, u128)>, t: GameEventType, live: Set<u128>)
    ensures
        forall|k: u128| #[trigger] handler_ids(s, t, live).contains(k) <==> (s.contains((t, k)) && live.contains(k)),
    decreases s.len(),
{
    if s.len() > 0 {
        let u = s.drop_last();
        let n = s.len() as int;
        let last = s[n - 1];
        lemma_handler_ids(u, t, live);
        assert(handler_ids(s, t, live) == if last.0 == t && live.contains(last.1) { handler_ids(u, t, live).push(last.1) } else { handler_ids(u, t, live) });
        assert forall|k: u128| #[trigger] handler_ids(s, t, live).contains(k) <==> (s.contains((t, k)) && live.contains(k)) by {
            if s.contains((t, k)) && live.contains(k) {
                let j = choose|j: int| 0 <= j < n && s[j] == (t, k);
                if j < n - 1 {
                    assert(u[j] == (t, k));
                }
            }
            if handler_ids(s, t, live).contains(k) {
                if last.0 == t && live.contains(last.1) && k == last.1 {
                    assert(s[n - 1] == (t, k));
                } else {
                    assert(handler_ids(u, t, live).contains(k));
                    let j = choose|j: int| 0 <= j < u.len() && u[j] == (t, k);
                    assert(s[j] == (t, k));
                }
            }
        }
    }
}

/// What `other_owners` keeps.
pub proof fn lemma_other_owners(s: Seq<(u128, u128)>, entity: u128)
    ensures
        forall|p: (u128, u128)| #[trigger] other_owners(s, entity).contains(p) <==> (s.contains(p) && p.0 != entity),
    decreases s.len(),
{
    if s.len() > 0 {
        let u = s.drop_last();
        let n = s.len() as int;
        let last = s[n - 1];
        lemma_other_owners(u, entity);
        assert(other_owners(s, entity) == if last.0 != entity { other_owners(u, entity).push(last) } else { other_owners(u, entity) });
        assert forall|p: (u128, u128)| #[trigger] other_owners(s, entity).contains(p) <==> (s.contains(p) && p.0 != entity) by {
            if s.contains(p) && p.0 != entity {
                let j = choose|j: int| 0 <= j < n && s[j] == p;
                if j < n - 1 {
                    assert(u[j] == p);
                }
            }
            if other_owners(s, entity).contains(p) {
                if last.0 != entity && p == last {
                    assert(s[n - 1] == p);
                } else {
                    assert(other_owners(u, entity).contains(p));
                    let j = choose|j: int| 0 <= j < u.len() && u[j] == p;
                    assert(s[j] == p);
                }
            }
        }
    }
}

} // verus!
