//! Enumerations as the game's data files encode them.

use vstd::prelude::*;

verus! {

/// Faction alignment of a unit, a character or a system.
#[derive(Debug, Clone, Copy, PartialEq, Eq, Structural)]
pub enum Faction {
    Alliance,
    Empire,
    /// Planets and some structures begin with no controlling faction.
    Neutral,
}

/// Galaxy size categories; the files write them as 1, 2 and 3.
#[derive(Debug, Clone, Copy, PartialEq, Eq, Structural)]
pub enum GalaxySize {
    Standard,
    Large,
    Huge,
}

impl GalaxySize {
    /// The number the files use for this size.
    pub open spec fn number(self) -> int {
        match self {
            GalaxySize::Standard => 1,
            GalaxySize::Large => 2,
            GalaxySize::Huge => 3,
        }
    }

    /// The number the files use for this size.
    pub fn code(self) -> (code: u8)
        ensures
            code == self.number(),
    {
        match self {
            GalaxySize::Standard => 1,
            GalaxySize::Large => 2,
            GalaxySize::Huge => 3,
        }
    }
}

/// Where in the galaxy a sector lies; the files write 1, 2 and 3.
#[derive(Debug, Clone, Copy, PartialEq, Eq, Structural)]
pub enum SectorGroup {
    /// Core worlds: high population, heavily contested.
    Core,
    /// Inner rim: moderate density.
    RimInner,
    /// Outer rim: sparse, strategic outposts.
    RimOuter,
}

impl SectorGroup {
    /// The number the files use for this region.
    pub open spec fn number(self) -> int {
        match self {
            SectorGroup::Core => 1,
            SectorGroup::RimInner => 2,
            SectorGroup::RimOuter => 3,
        }
    }

    /// The number the files use for this region.
    pub fn code(self) -> (code: u8)
        ensures
            code == self.number(),
    {
        match self {
            SectorGroup::Core => 1,
            SectorGroup::RimInner => 2,
            SectorGroup::RimOuter => 3,
        }
    }
}

/// Explored systems are fully visible; unexplored ones reveal a name only.
#[derive(Debug, Clone, Copy, PartialEq, Eq, Structural)]
pub enum ExplorationStatus {
    Explored,
    Unexplored,
}

} // verus!
