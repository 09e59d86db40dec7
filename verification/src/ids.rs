//! Identifiers: the keys of the world's arenas and the ids of the data files.

use crate::arena::ArenaKey;
use vstd::prelude::*;

verus! {

/// An identifier out of the game's data files.
#[derive(Debug, Clone, Copy, PartialEq, Eq, Structural)]
pub struct DatId(pub u32);

impl DatId {
    /// Wraps a raw identifier.
    pub fn new(raw: u32) -> (id: Self)
        ensures
            id.0 == raw,
    {
        DatId(raw)
    }

    /// The family byte: the top eight bits.
    pub open spec fn family_byte(self) -> int {
        self.0 as int / 0x100_0000
    }

    /// The family byte: the top eight bits.
    pub fn family(self) -> (byte: u8)
        ensures
            byte == self.family_byte(),
    {
        (self.0 / 0x100_0000) as u8
    }
}

/// Key of a star system.
#[derive(Debug, Clone, Copy, PartialEq, Eq, PartialOrd, Ord, Hash, Structural)]
pub struct SystemKey {
    pub slot: usize,
}

impl ArenaKey for SystemKey {
    open spec fn slot_of(self) -> nat {
        self.slot as nat
    }

    fn slot(self) -> (slot: usize) {
        self.slot
    }

    fn from_slot(slot: usize) -> (key: Self) {
        SystemKey { slot }
    }

    proof fn same_slot(a: Self, b: Self) {
    }
}

/// Key of a sector.
#[derive(Debug, Clone, Copy, PartialEq, Eq, PartialOrd, Ord, Hash, Structural)]
pub struct SectorKey {
    pub slot: usize,
}

impl ArenaKey for SectorKey {
    open spec fn slot_of(self) -> nat {
        self.slot as nat
    }

    fn slot(self) -> (slot: usize) {
        self.slot
    }

    fn from_slot(slot: usize) -> (key: Self) {
        SectorKey { slot }
    }

    proof fn same_slot(a: Self, b: Self) {
    }
}

/// Key of a fleet.
#[derive(Debug, Clone, Copy, PartialEq, Eq, PartialOrd, Ord, Hash, Structural)]
pub struct FleetKey {
    pub slot: usize,
}

impl ArenaKey for FleetKey {
    open spec fn slot_of(self) -> nat {
        self.slot as nat
    }

    fn slot(self) -> (slot: usize) {
        self.slot
    }

    fn from_slot(slot: usize) -> (key: Self) {
        FleetKey { slot }
    }

    proof fn same_slot(a: Self, b: Self) {
    }
}

/// Key of a character.
#[derive(Debug, Clone, Copy, PartialEq, Eq, PartialOrd, Ord, Hash, Structural)]
pub struct CharacterKey {
    pub slot: usize,
}

impl ArenaKey for CharacterKey {
    open spec fn slot_of(self) -> nat {
        self.slot as nat
    }

    fn slot(self) -> (slot: usize) {
        self.slot
    }

    fn from_slot(slot: usize) -> (key: Self) {
        CharacterKey { slot }
    }

    proof fn same_slot(a: Self, b: Self) {
    }
}

/// Key of a capital ship class.
#[derive(Debug, Clone, Copy, PartialEq, Eq, PartialOrd, Ord, Hash, Structural)]
pub struct CapitalShipKey {
    pub slot: usize,
}

impl ArenaKey for CapitalShipKey {
    open spec fn slot_of(self) -> nat {
        self.slot as nat
    }

    fn slot(self) -> (slot: usize) {
        self.slot
    }

    fn from_slot(slot: usize) -> (key: Self) {
        CapitalShipKey { slot }
    }

    proof fn same_slot(a: Self, b: Self) {
    }
}

/// Key of a fighter class.
#[derive(Debug, Clone, Copy, PartialEq, Eq, PartialOrd, Ord, Hash, Structural)]
pub struct FighterKey {
    pub slot: usize,
}

impl ArenaKey for FighterKey {
    open spec fn slot_of(self) -> nat {
        self.slot as nat
    }

    fn slot(self) -> (slot: usize) {
        self.slot
    }

    fn from_slot(slot: usize) -> (key: Self) {
        FighterKey { slot }
    }

    proof fn same_slot(a: Self, b: Self) {
    }
}

/// Key of a troop regiment.
#[derive(Debug, Clone, Copy, PartialEq, Eq, PartialOrd, Ord, Hash, Structural)]
pub struct TroopKey {
    pub slot: usize,
}

impl ArenaKey for TroopKey {
    open spec fn slot_of(self) -> nat {
        self.slot as nat
    }

    fn slot(self) -> (slot: usize) {
        self.slot
    }

    fn from_slot(slot: usize) -> (key: Self) {
        TroopKey { slot }
    }

    proof fn same_slot(a: Self, b: Self) {
    }
}

/// Key of a special forces unit.
#[derive(Debug, Clone, Copy, PartialEq, Eq, PartialOrd, Ord, Hash, Structural)]
pub struct SpecialForceKey {
    pub slot: usize,
}

impl ArenaKey for SpecialForceKey {
    open spec fn slot_of(self) -> nat {
        self.slot as nat
    }

    fn slot(self) -> (slot: usize) {
        self.slot
    }

    fn from_slot(slot: usize) -> (key: Self) {
        SpecialForceKey { slot }
    }

    proof fn same_slot(a: Self, b: Self) {
    }
}

/// Key of a defense facility.
#[derive(Debug, Clone, Copy, PartialEq, Eq, PartialOrd, Ord, Hash, Structural)]
pub struct DefenseFacilityKey {
    pub slot: usize,
}

impl ArenaKey for DefenseFacilityKey {
    open spec fn slot_of(self) -> nat {
        self.slot as nat
    }

    fn slot(self) -> (slot: usize) {
        self.slot
    }

    fn from_slot(slot: usize) -> (key: Self) {
        DefenseFacilityKey { slot }
    }

    proof fn same_slot(a: Self, b: Self) {
    }
}

/// Key of a manufacturing facility.
#[derive(Debug, Clone, Copy, PartialEq, Eq, PartialOrd, Ord, Hash, Structural)]
pub struct ManufacturingFacilityKey {
    pub slot: usize,
}

impl ArenaKey for ManufacturingFacilityKey {
    open spec fn slot_of(self) -> nat {
        self.slot as nat
    }

    fn slot(self) -> (slot: usize) {
        self.slot
    }

    fn from_slot(slot: usize) -> (key: Self) {
        ManufacturingFacilityKey { slot }
    }

    proof fn same_slot(a: Self, b: Self) {
    }
}

/// Key of a production facility.
#[derive(Debug, Clone, Copy, PartialEq, Eq, PartialOrd, Ord, Hash, Structural)]
pub struct ProductionFacilityKey {
    pub slot: usize,
}

impl ArenaKey for ProductionFacilityKey {
    open spec fn slot_of(self) -> nat {
        self.slot as nat
    }

    fn slot(self) -> (slot: usize) {
        self.slot
    }

    fn from_slot(slot: usize) -> (key: Self) {
        ProductionFacilityKey { slot }
    }

    proof fn same_slot(a: Self, b: Self) {
    }
}

} // verus!
