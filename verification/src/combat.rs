//! Combat vocabulary: phases, results, and what fights as what.

use crate::ids::{FleetKey, SystemKey, TroopKey};
use vstd::prelude::*;

verus! {

/// The table row that scales combat damage, in percent.
pub const GNPRTB_COMBAT_DIFFICULTY_MODIFIER: u16 = 0x1400;

/// Which phases of a space battle are under way.
#[derive(Debug, Clone, Copy, PartialEq, Eq, Structural)]
pub struct CombatPhaseFlags {
    bits: u32,
}

impl CombatPhaseFlags {
    /// The battle is on.
    pub const ACTIVE: u32 = 0x0001;

    /// Weapons are firing.
    pub const WEAPON_FIRE: u32 = 0x0002;

    /// Weapon fire type code.
    pub const WEAPON_TYPE: u32 = 0x0004;

    /// Shield absorption type code.
    pub const SHIELD_TYPE: u32 = 0x0020;

    /// Shields, hulls and fighters come next.
    pub const PHASES_ENABLED: u32 = 0x0040;

    /// Hull damage type code.
    pub const HULL_TYPE: u32 = 0x0080;

    /// Fighter engagement type code.
    pub const FIGHTER_TYPE: u32 = 0x0100;

    /// The raw bits.
    pub closed spec fn raw(self) -> u32 {
        self.bits
    }

    /// Flags with the given bits.
    pub fn new(bits: u32) -> (flags: Self)
        ensures
            flags.raw() == bits,
    {
        CombatPhaseFlags { bits }
    }

    /// Whether any bit of `flag` is set.
    pub fn contains(&self, flag: u32) -> (set: bool)
        ensures
            set == (self.raw() & flag != 0),
    {
        self.bits & flag != 0
    }

    /// Sets the bits of `flag`.
    pub fn set(&mut self, flag: u32)
        ensures
            final(self).raw() == old(self).raw() | flag,
    {
        self.bits = self.bits | flag;
    }
}

/// A flag that was set is there, and setting it takes no other flag away.
pub proof fn law_flags_stay(before: u32, flag: u32, other: u32)
    requires
        flag != 0,
    ensures
        (before | flag) & flag != 0,
        before & other != 0 ==> (before | flag) & other != 0,
{
    assert((before | flag) & flag != 0) by (bit_vector)
        requires
            flag != 0,
    ;
    assert(before & other != 0 ==> (before | flag) & other != 0) by (bit_vector);
}

/// Who won.
#[derive(Debug, Clone, Copy, PartialEq, Eq, Structural)]
pub enum CombatSide {
    Attacker,
    Defender,
    Draw,
}

/// The winner by who is left standing.
pub open spec fn winner_of(attacker_left: bool, defender_left: bool) -> CombatSide {
    match (attacker_left, defender_left) {
        (true, false) => CombatSide::Attacker,
        (false, true) => CombatSide::Defender,
        _ => CombatSide::Draw,
    }
}

/// The winner by who is left standing.
pub(crate) fn decide(attacker_left: bool, defender_left: bool) -> (winner: CombatSide)
    ensures
        winner == winner_of(attacker_left, defender_left),
{
    match (attacker_left, defender_left) {
        (true, false) => CombatSide::Attacker,
        (false, true) => CombatSide::Defender,
        _ => CombatSide::Draw,
    }
}

/// A hull took damage.
#[derive(Debug, Clone, Copy, PartialEq, Eq, Structural)]
pub struct ShipDamageEvent {
    pub fleet: FleetKey,
    /// Place among the fleet's capital ships, lost ones counted too.
    pub ship_index: usize,
    pub hull_before: i32,
    pub hull_after: i32,
}

/// A fighter group lost squadrons.
#[derive(Debug, Clone, Copy, PartialEq, Eq, Structural)]
pub struct FighterLossEvent {
    pub fleet: FleetKey,
    pub fighter_index: usize,
    pub squads_before: u32,
    pub squads_after: u32,
}

/// The outcome of a space battle.
#[derive(Debug)]
pub struct SpaceCombatResult {
    pub attacker_fleet: FleetKey,
    pub defender_fleet: FleetKey,
    pub system: SystemKey,
    pub winner: CombatSide,
    pub ship_damage: Vec<ShipDamageEvent>,
    pub fighter_losses: Vec<FighterLossEvent>,
    pub tick: u64,
}

/// A regiment's strength changed.
#[derive(Debug, Clone, Copy, PartialEq, Eq, Structural)]
pub struct TroopDamageEvent {
    pub troop: TroopKey,
    pub strength_before: i16,
    pub strength_after: i16,
}

/// The outcome of a ground battle.
#[derive(Debug)]
pub struct GroundCombatResult {
    pub system: SystemKey,
    pub winner: CombatSide,
    pub troop_damage: Vec<TroopDamageEvent>,
    pub tick: u64,
}

/// Space and ground combat.
pub struct CombatSystem;

/// What an entity fights as, by the family byte of its id.
#[derive(Debug, Clone, Copy, PartialEq, Eq, Structural)]
pub enum CombatEntityKind {
    CapitalShip,
    DeathStar,
    FighterSquadron,
    SpecialCombatEntity,
    Troop,
    Character,
    Unknown,
}

impl CombatEntityKind {
    /// Classifies a family byte.
    pub fn from_family_byte(family: u8) -> (kind: Self)
        ensures
            kind == if 0x08 <= family <= 0x0f {
                CombatEntityKind::Character
            } else if 0x14 <= family <= 0x1b {
                CombatEntityKind::Troop
            } else if family == 0x34 {
                CombatEntityKind::DeathStar
            } else if 0x30 <= family <= 0x3b {
                CombatEntityKind::CapitalShip
            } else if family == 0x71 {
                CombatEntityKind::FighterSquadron
            } else if 0x73 <= family <= 0x74 {
                CombatEntityKind::SpecialCombatEntity
            } else {
                CombatEntityKind::Unknown
            },
            kind == CombatEntityKind::Character <==> family / 8 == 1,
            kind == CombatEntityKind::DeathStar <==> family == 52,
            kind == CombatEntityKind::CapitalShip || kind == CombatEntityKind::DeathStar <==> 48
                <= family < 60,
            kind == CombatEntityKind::Troop <==> 20 <= family < 28,
            kind == CombatEntityKind::FighterSquadron <==> family == 113,
            kind == CombatEntityKind::SpecialCombatEntity <==> family == 115 || family == 116,
    {
        match family {
            0x08..=0x0f => CombatEntityKind::Character,
            0x14..=0x1b => CombatEntityKind::Troop,
            0x30..=0x33 | 0x35..=0x3b => CombatEntityKind::CapitalShip,
            0x34 => CombatEntityKind::DeathStar,
            0x71 => CombatEntityKind::FighterSquadron,
            0x73..=0x74 => CombatEntityKind::SpecialCombatEntity,
            _ => CombatEntityKind::Unknown,
        }
    }
}

/// The difficulty, 0 to 3, out of bits 4 and 5 of the packed settings.
pub fn extract_difficulty(packed: u32) -> (difficulty: u8)
    ensures
        difficulty == (packed as int / 16) % 4,
{
    assert((packed >> 4) & 3 == (packed / 16) % 4) by (bit_vector);
    ((packed >> 4) & 3) as u8
}

} // verus!
