//! Mission vocabulary shared by the computer player and the campaign.

use crate::ids::{CharacterKey, SystemKey};
use vstd::prelude::*;

verus! {

/// The kinds of mission a character can be sent on.
#[derive(Debug, Clone, Copy, PartialEq, Eq, Structural)]
pub enum MissionKind {
    Diplomacy,
    Recruitment,
    Sabotage,
    Assassination,
    Espionage,
    Rescue,
    Abduction,
    InciteUprising,
    SubdueUprising,
    DeathStarSabotage,
    Autoscrap,
}

/// The side that sends a mission.
#[derive(Debug, Clone, Copy, PartialEq, Eq, Structural)]
pub enum MissionFaction {
    Alliance,
    Empire,
}

/// How a mission ended.
#[derive(Debug, Clone, Copy, PartialEq, Eq, Structural)]
pub enum MissionOutcome {
    Success,
    Failure,
    Foiled,
}

/// What a mission changed. Shifts of popularity carry the support that they
/// leave behind.
#[derive(Debug, Clone, Copy, PartialEq, Eq, Structural)]
#[allow(inconsistent_fields)]
pub enum MissionEffect {
    PopularityShifted { system: SystemKey, faction: MissionFaction, support: u32 },
    UprisingStarted { system: SystemKey, alliance_support: u32, empire_support: u32 },
    SystemIntelligenceGathered { system: SystemKey },
    CharacterRecruited { character: CharacterKey, faction: MissionFaction },
    /// The index counts manufacturing facilities first, then defenses.
    FacilitySabotaged { system: SystemKey, facility_index: usize, ticks_lost: u32 },
    CharacterKilled { character: CharacterKey },
    CharacterCaptured { character: CharacterKey, captured_by: MissionFaction },
    CharacterRescued { character: CharacterKey, returned_to: MissionFaction },
    CharacterBusy { character: CharacterKey },
    CharacterAvailable { character: CharacterKey },
    DecoyTriggered { system: SystemKey, decoy_character: CharacterKey },
    CharacterEscaped { character: CharacterKey, escaped_to_alliance: bool },
    UprisingSubdued { system: SystemKey, alliance_support: u32, empire_support: u32 },
    DeathStarSabotaged { ticks_delayed: u32 },
}

/// A finished mission.
#[derive(Debug)]
pub struct MissionResult {
    pub kind: MissionKind,
    pub faction: MissionFaction,
    pub outcome: MissionOutcome,
    pub target_system: SystemKey,
    pub tick: u64,
    pub effects: Vec<MissionEffect>,
}

} // verus!
