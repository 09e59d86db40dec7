//! Research projects.

use crate::ids::CharacterKey;
use vstd::prelude::*;

verus! {

/// The three technology trees.
#[derive(Debug, Clone, Copy, PartialEq, Eq, Structural)]
pub enum TechType {
    Ship,
    Troop,
    Facility,
}

/// A character at work on a technology tree.
#[derive(Debug, Clone, Copy, PartialEq, Eq, Structural)]
pub struct ResearchProject {
    pub tech_type: TechType,
    pub character: CharacterKey,
    pub faction_is_alliance: bool,
    pub ticks_remaining: u32,
    pub total_ticks: u32,
}

/// All running projects.
#[derive(Debug, Clone)]
pub struct ResearchState {
    pub projects: Vec<ResearchProject>,
}

impl ResearchState {
    /// No projects.
    pub fn new() -> (state: Self)
        ensures
            state.projects@ == Seq::<ResearchProject>::empty(),
    {
        ResearchState { projects: Vec::new() }
    }

    /// Whether a side already works on a tree.
    pub open spec fn active(&self, is_alliance: bool, tech: TechType) -> bool {
        exists|i: int|
            0 <= i < self.projects@.len() && (#[trigger] self.projects@[i]).faction_is_alliance
                == is_alliance && self.projects@[i].tech_type == tech
    }

    /// Whether a side already works on a tree.
    pub fn has_active(&self, is_alliance: bool, tech: TechType) -> (active: bool)
        ensures
            active == self.active(is_alliance, tech),
    {
        for i in 0..self.projects.len()
            invariant
                forall|j: int|
                    0 <= j < i ==> !((#[trigger] self.projects@[j]).faction_is_alliance
                        == is_alliance && self.projects@[j].tech_type == tech),
        {
            let project: ResearchProject = self.projects[i];
            if project.faction_is_alliance == is_alliance && project.tech_type == tech {
                assert(self.projects@[i as int] == project);
                return true;
            }
        }
        false
    }
}

} // verus!
