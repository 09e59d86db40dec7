//! The computer player: its state, its orders, and whom it may send.
//!
//! The computer player looks at the world every few days and recommends
//! orders. It never changes the world; the caller carries the orders out.

use crate::arena::ArenaKey;
use crate::ids::{CharacterKey, FleetKey, SystemKey, TroopKey};
use crate::manufacturing::BuildableKind;
use crate::missions::{MissionFaction, MissionKind};
use crate::research::TechType;
use crate::world::{Character, Fleet, GameWorld, System};
use std::collections::{HashMap, HashSet};
use vstd::prelude::*;

verus! {

/// Days between two evaluations, where no configuration says otherwise.
pub const AI_TICK_INTERVAL: u64 = 5;

/// A diplomacy score above this makes a minor character a diplomat.
pub const DIPLOMACY_SKILL_THRESHOLD: u32 = 60;

/// Yards the computer player builds per system before it stops.
pub const MAX_CONSTRUCTION_YARDS: usize = 5;

/// The espionage score of a viable covert operative.
pub const ESPIONAGE_SKILL_THRESHOLD: u32 = 50;

/// Covert missions queued per evaluation.
pub const MAX_COVERT_OPS_PER_EVAL: usize = 3;

/// The faction the computer player controls.
#[derive(Debug, Clone, Copy, PartialEq, Eq, Structural)]
pub enum AiFaction {
    Alliance,
    Empire,
}

impl AiFaction {
    /// Whether this is the Alliance.
    pub open spec fn rebel(self) -> bool {
        self == AiFaction::Alliance
    }

    /// The side's missions are sent under this faction.
    pub fn as_mission_faction(self) -> (faction: MissionFaction)
        ensures
            faction == if self.rebel() {
                MissionFaction::Alliance
            } else {
                MissionFaction::Empire
            },
    {
        match self {
            AiFaction::Alliance => MissionFaction::Alliance,
            AiFaction::Empire => MissionFaction::Empire,
        }
    }

    /// Whether a character belongs to this faction.
    pub open spec fn owns(self, c: Character) -> bool {
        if self.rebel() {
            c.is_alliance
        } else {
            c.is_empire
        }
    }

    /// Whether a character belongs to this faction.
    pub fn owns_character(self, c: &Character) -> (owned: bool)
        ensures
            owned == self.owns(*c),
    {
        match self {
            AiFaction::Alliance => c.is_alliance,
            AiFaction::Empire => c.is_empire,
        }
    }

    /// The faction's support in a system.
    pub open spec fn support(self, system: System) -> u32 {
        if self.rebel() {
            system.popularity_alliance
        } else {
            system.popularity_empire
        }
    }

    /// The other faction's support in a system.
    pub open spec fn enemy_support(self, system: System) -> u32 {
        if self.rebel() {
            system.popularity_empire
        } else {
            system.popularity_alliance
        }
    }

    /// The faction's support in a system.
    pub fn system_popularity(self, system: &System) -> (support: u32)
        ensures
            support == self.support(*system),
    {
        match self {
            AiFaction::Alliance => system.popularity_alliance,
            AiFaction::Empire => system.popularity_empire,
        }
    }

    /// The other faction's support in a system.
    pub fn enemy_popularity(self, system: &System) -> (support: u32)
        ensures
            support == self.enemy_support(*system),
    {
        match self {
            AiFaction::Alliance => system.popularity_empire,
            AiFaction::Empire => system.popularity_alliance,
        }
    }

    /// Whether this is the Alliance.
    pub fn is_alliance(self) -> (rebel: bool)
        ensures
            rebel == self.rebel(),
    {
        match self {
            AiFaction::Alliance => true,
            AiFaction::Empire => false,
        }
    }
}

/// What the computer player remembers between evaluations.
#[derive(Debug)]
pub struct AIState {
    /// The faction under control.
    pub faction: Option<AiFaction>,
    /// The day of the last evaluation.
    pub last_eval_tick: u64,
    /// Slots of the characters away on missions.
    pub busy_characters: HashSet<usize>,
    /// The day of the last battle, by system slot.
    pub battle_cooldowns: HashMap<usize, u64>,
}

impl AIState {
    /// Whether a character is away on a mission.
    pub open spec fn busy(&self, character: CharacterKey) -> bool {
        self.busy_characters@.contains(character.slot)
    }

    /// Whether enough days have passed.
    pub open spec fn due(&self, current_tick: u64, tick_interval: u64) -> bool {
        current_tick == 0 || (if current_tick >= self.last_eval_tick {
            current_tick - self.last_eval_tick
        } else {
            0
        }) >= tick_interval
    }

    /// A computer player with nothing to remember yet.
    pub fn new(faction: AiFaction) -> (state: Self)
        ensures
            state.faction == Some(faction),
            state.last_eval_tick == 0,
            state.busy_characters@ == Set::<usize>::empty(),
            state.battle_cooldowns@ == Map::<usize, u64>::empty(),
    {
        AIState {
            faction: Some(faction),
            last_eval_tick: 0,
            busy_characters: HashSet::new(),
            battle_cooldowns: HashMap::new(),
        }
    }

    /// Whether enough days have passed since the last evaluation; the very
    /// first day always counts.
    pub fn should_evaluate(&self, current_tick: u64, tick_interval: u64) -> (due: bool)
        ensures
            due == self.due(current_tick, tick_interval),
    {
        current_tick == 0 || current_tick.saturating_sub(self.last_eval_tick) >= tick_interval
    }

    /// Notes that a character is away on a mission.
    pub fn mark_busy(&mut self, character: CharacterKey)
        ensures
            final(self).busy_characters@ == old(self).busy_characters@.insert(character.slot),
            final(self).faction == old(self).faction,
            final(self).last_eval_tick == old(self).last_eval_tick,
            final(self).battle_cooldowns == old(self).battle_cooldowns,
    {
        broadcast use vstd::std_specs::hash::group_hash_axioms;

        self.busy_characters.insert(character.slot);
    }

    /// Notes that a character is back.
    pub fn mark_available(&mut self, character: CharacterKey)
        ensures
            final(self).busy_characters@ == old(self).busy_characters@.remove(character.slot),
            final(self).faction == old(self).faction,
            final(self).last_eval_tick == old(self).last_eval_tick,
            final(self).battle_cooldowns == old(self).battle_cooldowns,
    {
        broadcast use vstd::std_specs::hash::group_hash_axioms;

        self.busy_characters.remove(&character.slot);
    }

    /// Whether a character is away on a mission.
    pub fn is_busy(&self, character: CharacterKey) -> (busy: bool)
        ensures
            busy == self.busy(character),
    {
        broadcast use vstd::std_specs::hash::group_hash_axioms;

        self.busy_characters.contains(&character.slot)
    }
}

/// Why a fleet moves.
#[derive(Debug, Clone, Copy, PartialEq, Eq, Structural)]
pub enum FleetMoveReason {
    /// Against a weak or neutral enemy system.
    Attack,
    /// To a friendly system under threat.
    Reinforce,
}

/// An order for the caller to carry out.
#[derive(Debug, PartialEq)]
#[allow(inconsistent_fields)]
pub enum AIAction {
    /// Send a character on a mission.
    DispatchMission {
        kind: MissionKind,
        character: CharacterKey,
        target_system: SystemKey,
        /// For missions against a character.
        target_character: Option<CharacterKey>,
        /// Suggested length of the mission, in percent of its range.
        duration_percent: u32,
    },
    /// Build a unit or a facility.
    EnqueueProduction { system: SystemKey, kind: BuildableKind, ticks: u32 },
    /// Move a fleet, with regiments embarked first.
    MoveFleet {
        fleet: FleetKey,
        to_system: SystemKey,
        reason: FleetMoveReason,
        troops: Vec<TroopKey>,
    },
    /// Put a character to research.
    DispatchResearch { character: CharacterKey, tech_type: TechType, ticks: u32 },
}

/// What an [`AIAction`] says.
#[allow(inconsistent_fields)]
pub enum Order {
    Mission {
        kind: MissionKind,
        character: CharacterKey,
        target_system: SystemKey,
        target_character: Option<CharacterKey>,
        duration_percent: u32,
    },
    Production { system: SystemKey, kind: BuildableKind, ticks: u32 },
    Move { fleet: FleetKey, to_system: SystemKey, reason: FleetMoveReason, troops: Seq<TroopKey> },
    Research { character: CharacterKey, tech_type: TechType, ticks: u32 },
}

impl View for AIAction {
    type V = Order;

    open spec fn view(&self) -> Order {
        match *self {
            AIAction::DispatchMission {
                kind,
                character,
                target_system,
                target_character,
                duration_percent,
            } => Order::Mission {
                kind,
                character,
                target_system,
                target_character,
                duration_percent,
            },
            AIAction::EnqueueProduction { system, kind, ticks } => Order::Production {
                system,
                kind,
                ticks,
            },
            AIAction::MoveFleet { fleet, to_system, reason, troops } => Order::Move {
                fleet,
                to_system,
                reason,
                troops: troops@,
            },
            AIAction::DispatchResearch { character, tech_type, ticks } => Order::Research {
                character,
                tech_type,
                ticks,
            },
        }
    }
}

/// What a list of actions says.
pub open spec fn orders(actions: Seq<AIAction>) -> Seq<Order> {
    Seq::new(actions.len(), |i: int| actions[i]@)
}

/// Adds an order to a list.
pub(crate) fn issue(actions: &mut Vec<AIAction>, action: AIAction)
    ensures
        orders(final(actions)@) == orders(old(actions)@).push(action@),
        final(actions)@ == old(actions)@.push(action),
{
    actions.push(action);
    assert(orders(actions@) =~= orders(old(actions)@).push(action@));
}

/// A mission order; every mission is given the middle of its range.
pub open spec fn mission_order(
    kind: MissionKind,
    character: CharacterKey,
    target_system: SystemKey,
    target_character: Option<CharacterKey>,
) -> Order {
    Order::Mission { kind, character, target_system, target_character, duration_percent: 50 }
}

/// A mission order; every mission is given the middle of its range.
pub(crate) fn mission(
    kind: MissionKind,
    character: CharacterKey,
    target_system: SystemKey,
    target_character: Option<CharacterKey>,
) -> (action: AIAction)
    ensures
        action@ == mission_order(kind, character, target_system, target_character),
{
    AIAction::DispatchMission {
        kind,
        character,
        target_system,
        target_character,
        duration_percent: 50,
    }
}

/// What the caller works out in floating point and hands to an evaluation.
#[derive(Debug)]
pub struct Advice {
    /// The lowest whole percentage that reaches the wanted chance of success.
    pub min_success_percent: i32,
    /// Mission kinds and skill scores whose success formula reaches the wanted
    /// chance; read for kinds that have no table.
    pub formula_clears: Vec<(MissionKind, u32)>,
    /// Days to the next level of each technology tree.
    pub ship_research_ticks: u32,
    pub troop_research_ticks: u32,
    pub facility_research_ticks: u32,
    /// How many enemy systems may be under attack at once.
    pub attack_fronts: usize,
    /// Whether the enemy outweighs us at the Death Star by the retreat ratio.
    pub death_star_outgunned: bool,
    /// For each fleet that asks for a target, in order, how good each target
    /// offered to it is; a higher number is better.
    pub rankings: Vec<Vec<i128>>,
}

impl Advice {
    /// Advice that discourages covert missions and ranks all targets alike.
    pub fn none() -> (advice: Self)
        ensures
            advice.min_success_percent == i32::MAX,
            advice.formula_clears@.len() == 0,
            advice.ship_research_ticks == 0,
            advice.troop_research_ticks == 0,
            advice.facility_research_ticks == 0,
            advice.attack_fronts == 1,
            !advice.death_star_outgunned,
            advice.rankings@.len() == 0,
    {
        Advice {
            min_success_percent: i32::MAX,
            formula_clears: Vec::new(),
            ship_research_ticks: 0,
            troop_research_ticks: 0,
            facility_research_ticks: 0,
            attack_fronts: 1,
            death_star_outgunned: false,
            rankings: Vec::new(),
        }
    }

    /// How good the `j`th target is for the `asked`th fleet that asks; zero
    /// where nothing was said.
    pub open spec fn rank(&self, asked: nat, j: int) -> i128 {
        if asked < self.rankings@.len() && j < self.rankings@[asked as int]@.len() {
            self.rankings@[asked as int]@[j]
        } else {
            0
        }
    }
}

/// The evaluation rules of the computer player.
pub struct AISystem;

/// Whether a character may be sent on a mission.
pub open spec fn dispatchable(
    state: AIState,
    faction: AiFaction,
    key: CharacterKey,
    c: Character,
) -> bool {
    &&& !c.is_killed
    &&& faction.owns(c)
    &&& !c.on_mandatory_mission
    &&& !c.is_captive
    &&& !state.busy(key)
    &&& !c.on_mission
    &&& !c.on_hidden_mission
    &&& c.can_be_commander
}

/// Whether some capital ship of the fleet is alive.
pub open spec fn any_alive(fleet: Fleet) -> bool {
    exists|i: int| 0 <= i < fleet.capital_ships@.len() && (#[trigger] fleet.capital_ships@[i]).alive
}

/// Whether a fleet may be sent anywhere.
pub open spec fn fleet_dispatchable(world: GameWorld, key: FleetKey, faction: AiFaction) -> bool {
    &&& world.fleets.has(key)
    &&& {
        let fleet = world.fleets.at(key);
        &&& fleet.is_alliance == faction.rebel()
        &&& !fleet.bare()
        &&& any_alive(fleet) || fleet.fighters@.len() > 0
        &&& world.systems.has(fleet.location)
    }
}

/// Whether a system may be sent to: it exists and has not been destroyed.
pub open spec fn system_reachable(world: GameWorld, target: SystemKey) -> bool {
    world.systems.has(target) && !world.systems.at(target).is_destroyed
}

impl AISystem {
    /// Whether a character may be sent on a mission.
    pub fn can_dispatch(
        state: &AIState,
        faction: AiFaction,
        char_key: CharacterKey,
        character: &Character,
    ) -> (can: bool)
        ensures
            can == dispatchable(*state, faction, char_key, *character),
    {
        if character.is_killed {
            return false;
        }
        if !faction.owns_character(character) {
            return false;
        }
        if character.on_mandatory_mission || character.is_captive {
            return false;
        }
        if state.is_busy(char_key) {
            return false;
        }
        if character.on_mission || character.on_hidden_mission {
            return false;
        }
        character.can_be_commander
    }

    /// Whether a system may be sent to. Strong defenders and a hostile
    /// population are no reason against it.
    pub fn can_dispatch_to_system(
        world: &GameWorld,
        _faction: AiFaction,
        target_sys: SystemKey,
    ) -> (can: bool)
        ensures
            can == system_reachable(*world, target_sys),
    {
        match world.systems.get(target_sys) {
            Some(system) => !system.is_destroyed,
            None => false,
        }
    }

    /// Whether a fleet may be sent anywhere.
    pub fn can_dispatch_fleet(world: &GameWorld, fleet_key: FleetKey, faction: AiFaction) -> (can:
        bool)
        ensures
            can == fleet_dispatchable(*world, fleet_key, faction),
    {
        let fleet = match world.fleets.get(fleet_key) {
            Some(fleet) => fleet,
            None => {
                return false;
            },
        };
        if fleet.is_alliance != faction.is_alliance() {
            return false;
        }
        if fleet.is_empty() {
            return false;
        }
        let mut has_alive_ship: bool = false;
        for i in 0..fleet.capital_ships.len()
            invariant
                has_alive_ship == exists|j: int|
                    0 <= j < i && (#[trigger] fleet.capital_ships@[j]).alive,
        {
            if fleet.capital_ships[i].alive {
                has_alive_ship = true;
            }
        }
        if !has_alive_ship && fleet.fighters.len() == 0 {
            return false;
        }
        world.systems.get(fleet.location).is_some()
    }

    /// Notes that a battle took place at a system.
    pub fn record_battle(state: &mut AIState, system: SystemKey, tick: u64)
        ensures
            final(state).battle_cooldowns@ == old(state).battle_cooldowns@.insert(
                system.slot,
                tick,
            ),
            final(state).faction == old(state).faction,
            final(state).last_eval_tick == old(state).last_eval_tick,
            final(state).busy_characters == old(state).busy_characters,
    {
        broadcast use vstd::std_specs::hash::group_hash_axioms;

        state.battle_cooldowns.insert(system.slot, tick);
    }
}

/// Marking a character busy and then available leaves every other character's
/// mark as it was, and the character available.
pub proof fn law_busy_marks(state: AIState, marked: AIState, released: AIState, k: CharacterKey)
    requires
        marked.busy_characters@ == state.busy_characters@.insert(k.slot),
        released.busy_characters@ == marked.busy_characters@.remove(k.slot),
    ensures
        marked.busy(k),
        !released.busy(k),
        forall|other: CharacterKey|
            other != k ==> (#[trigger] released.busy(other)) == state.busy(other),
{
    assert forall|other: CharacterKey| other != k implies (#[trigger] released.busy(other))
        == state.busy(other) by {
        if other.slot == k.slot {
            <CharacterKey as ArenaKey>::same_slot(other, k);
        }
    }
}

} // verus!
