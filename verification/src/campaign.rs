//! The state of a running campaign.

use crate::ai::{AIState, AiFaction};
use crate::blockade::BlockadeState;
use crate::death_star::DeathStarState;
use crate::ids::SystemKey;
use crate::manufacturing::ManufacturingState;
use crate::messages::{note, MessageCategory, MessageLog, Note};
use crate::missions::MissionFaction;
use crate::movement::MovementState;
use crate::world::GameWorld;
use vstd::prelude::*;

verus! {

/// How fast days pass.
#[derive(Debug, Clone, Copy, PartialEq, Eq, Structural)]
pub enum GameSpeed {
    Paused,
    Normal,
    Fast,
    Faster,
}

/// What the galaxy map shows.
#[derive(Debug, Clone, Copy, PartialEq, Eq, Structural)]
pub struct MapView {
    pub camera_x: u16,
    pub camera_y: u16,
    pub selected_system: Option<SystemKey>,
}

/// A running campaign.
pub struct Campaign {
    pub world: GameWorld,
    pub map: MapView,
    pub queues: ManufacturingState,
    pub movement: MovementState,
    pub death_star: DeathStarState,
    pub blockade: BlockadeState,
    pub log: MessageLog,
    pub player_faction: MissionFaction,
    pub tick: u64,
    pub speed: GameSpeed,
    /// Whether the computer plays both sides.
    pub dual_ai_mode: bool,
    /// The faction that the computer plays.
    pub ai_faction: Option<AiFaction>,
    /// The computer player of the other side, when it plays both.
    pub secondary_ai: Option<AIState>,
    /// The last system that the superlaser destroyed.
    pub death_star_location: Option<SystemKey>,
}

impl Campaign {
    /// A message of today that is about no system.
    pub open spec fn today(&self, text: Seq<char>, category: MessageCategory) -> Note {
        note(self.tick, text, category)
    }

    /// Whether `after` is this campaign with more messages and no other change.
    pub open spec fn said(&self, after: Campaign, notes: Seq<Note>) -> bool {
        &&& after == (Campaign { log: after.log, ..*self })
        &&& after.log@ == self.log@ + notes
    }

    /// Adds a message of today.
    pub(crate) fn tell(&mut self, text: String, category: MessageCategory)
        ensures
            old(self).said(*final(self), seq![old(self).today(text@, category)]),
    {
        let ghost before = self.log@;
        self.log.say(self.tick, text, category);
        assert(self.log@ =~= before + seq![note(self.tick, text@, category)]);
    }
}

} // verus!
