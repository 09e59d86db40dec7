//! The Death Star: construction, warnings, the superlaser, and what is left.

use crate::arena::{
    change_one, changed, cleared, copy_keys, lemma_changed_next, lemma_slots_bounded, names,
    occupied, remove_all, Arena, ArenaKey,
};
use crate::blockade::{other_systems, BlockadeState};
use crate::dat::Faction;
use crate::effects::GameEffect;
use crate::ids::{CharacterKey, FleetKey, SystemKey};
use crate::manufacturing::ManufacturingState;
use crate::movement::{orders_elsewhere, MovementState};
use crate::select::{collect, gives, lemma_collect_covers};
use crate::tick::TickEvent;
use crate::world::{distance_squared, Character, Fleet, GameWorld, System};
use vstd::prelude::*;

verus! {

/// Days a Death Star takes to build: about five years.
pub const DEATH_STAR_CONSTRUCTION_TICKS: u32 = 1825;

/// How near a Death Star must be for a system to be warned.
pub const NEARBY_WARNING_RADIUS: u32 = 300;

/// What the Death Star did.
#[derive(Debug, Clone, Copy, PartialEq, Eq, Structural)]
pub enum DeathStarEvent {
    /// Construction finished at `system`.
    ConstructionCompleted { system: SystemKey, tick: u64 },
    /// The superlaser destroyed `system`.
    PlanetDestroyed { system: SystemKey, tick: u64 },
    /// A Death Star is near `system`.
    NearbyWarning { system: SystemKey, tick: u64 },
}

/// A Death Star under construction.
#[derive(Debug, Clone, Copy, PartialEq, Eq, Structural)]
pub struct DeathStarConstruction {
    pub system: SystemKey,
    pub ticks_remaining: u32,
}

/// What is known of the Death Star.
#[derive(Debug, Clone, Copy, PartialEq, Eq, Structural)]
pub struct DeathStarState {
    pub under_construction: Option<DeathStarConstruction>,
    /// The fleet of the finished Death Star.
    pub death_star_fleet: Option<FleetKey>,
    /// While the shield generator runs, the Death Star can neither be hurt
    /// nor fire.
    pub shield_generator_active: bool,
}

/// Whether the shield generator runs where nothing else is known.
pub fn default_shield_active() -> (active: bool)
    ensures
        active,
{
    true
}

impl Default for DeathStarState {
    fn default() -> (state: Self)
        ensures
            state == (DeathStarState {
                under_construction: None,
                death_star_fleet: None,
                shield_generator_active: true,
            }),
    {
        DeathStarState {
            under_construction: None,
            death_star_fleet: None,
            shield_generator_active: default_shield_active(),
        }
    }
}

/// A sum, capped at what the field holds.
pub open spec fn delayed(ticks: u32, more: u32) -> u32 {
    if ticks + more > u32::MAX {
        u32::MAX
    } else {
        (ticks + more) as u32
    }
}

impl DeathStarState {
    /// Destroys the shield generator.
    pub fn destroy_shield(&mut self)
        ensures
            *final(self) == (DeathStarState { shield_generator_active: false, ..*old(self) }),
    {
        self.shield_generator_active = false;
    }

    /// Delays the construction; without one nothing happens.
    pub fn add_sabotage_delay(&mut self, ticks: u32)
        ensures
            *final(self) == (DeathStarState {
                under_construction: match old(self).under_construction {
                    Some(c) => Some(
                        DeathStarConstruction {
                            ticks_remaining: delayed(c.ticks_remaining, ticks),
                            ..c
                        },
                    ),
                    None => None,
                },
                ..*old(self)
            }),
    {
        if let Some(c) = self.under_construction {
            self.under_construction = Some(
                DeathStarConstruction {
                    system: c.system,
                    ticks_remaining: c.ticks_remaining.saturating_add(ticks),
                },
            );
        }
    }
}

/// The rules of the Death Star.
pub struct DeathStarSystem;

/// Days left after some have passed.
pub open spec fn days_left(ticks: u32, passed: u32) -> u32 {
    if ticks > passed {
        (ticks - passed) as u32
    } else {
        0
    }
}

/// The construction after some days: gone once it is finished.
pub open spec fn built(c: Option<DeathStarConstruction>, passed: u32) -> Option<
    DeathStarConstruction,
> {
    match c {
        Some(c) => if days_left(c.ticks_remaining, passed) == 0 {
            None
        } else {
            Some(
                DeathStarConstruction {
                    ticks_remaining: days_left(c.ticks_remaining, passed),
                    ..c
                },
            )
        },
        None => None,
    }
}

/// The completion, if the construction finishes within the days.
pub open spec fn completion(c: Option<DeathStarConstruction>, passed: u32, tick: u64) -> Seq<
    DeathStarEvent,
> {
    if c is Some && days_left(c->0.ticks_remaining, passed) == 0 {
        seq![DeathStarEvent::ConstructionCompleted { system: c->0.system, tick }]
    } else {
        Seq::empty()
    }
}

/// The warning for system `i`, if it is an Alliance system near the Death Star.
pub open spec fn warning(world: GameWorld, at: SystemKey, tick: u64) -> spec_fn(int) -> Option<
    DeathStarEvent,
> {
    |i: int|
        if occupied(world.systems@, i) && (world.systems@[i]->0).control.held_by(Faction::Alliance)
            && i != at.slot && distance_squared(world.systems@[i]->0, world.systems.at(at))
            <= NEARBY_WARNING_RADIUS * NEARBY_WARNING_RADIUS {
            Some(DeathStarEvent::NearbyWarning { system: SystemKey { slot: i as usize }, tick })
        } else {
            None
        }
}

/// All warnings: none unless a Death Star fleet stands at a living system.
pub open spec fn warnings(world: GameWorld, fleet: Option<FleetKey>, tick: u64) -> Seq<
    DeathStarEvent,
> {
    if fleet is Some && world.fleets.has(fleet->0) && world.systems.has(
        world.fleets.at(fleet->0).location,
    ) {
        collect(world.systems@.len(), warning(world, world.fleets.at(fleet->0).location, tick))
    } else {
        Seq::empty()
    }
}

/// The state after the days of one call; a call without days changes nothing.
pub open spec fn advanced(state: DeathStarState, days: Seq<TickEvent>) -> DeathStarState {
    if days.len() == 0 {
        state
    } else {
        DeathStarState {
            under_construction: built(state.under_construction, days.len() as u32),
            ..state
        }
    }
}

/// What one call tells: the completion, if its days reach it, and then the
/// warnings, all as of the last day.
pub open spec fn tidings(state: DeathStarState, world: GameWorld, days: Seq<TickEvent>) -> Seq<
    DeathStarEvent,
> {
    if days.len() == 0 {
        Seq::empty()
    } else {
        completion(state.under_construction, days.len() as u32, days.last().tick) + warnings(
            world,
            state.death_star_fleet,
            days.last().tick,
        )
    }
}

/// Whether the `i`th fleet over a system is an Imperial Death Star.
pub open spec fn superlaser_at(world: GameWorld, sys: System, i: int) -> bool {
    let key = sys.fleets@[i];
    &&& 0 <= i < sys.fleets@.len()
    &&& world.fleets.has(key)
    &&& !world.fleets.at(key).is_alliance
    &&& world.fleets.at(key).has_death_star
}

/// Whether the superlaser can fire on a system: the generator is down, the
/// system stands, the Empire does not hold it, and a Death Star is there.
pub open spec fn can_fire(state: DeathStarState, world: GameWorld, target: SystemKey) -> bool {
    &&& world.systems.has(target)
    &&& !state.shield_generator_active
    &&& !world.systems.at(target).is_destroyed
    &&& !world.systems.at(target).control.held_by(Faction::Empire)
    &&& exists|i: int| superlaser_at(world, world.systems.at(target), i)
}

impl DeathStarSystem {
    /// Lets some days pass: construction goes on, and Alliance systems near
    /// the Death Star are warned.
    pub fn advance(
        state: &mut DeathStarState,
        world: &GameWorld,
        tick_events: &[TickEvent],
    ) -> (events: Vec<DeathStarEvent>)
        ensures
            *final(state) == advanced(*old(state), tick_events@),
            events@ == tidings(*old(state), *world, tick_events@),
    {
        let mut events: Vec<DeathStarEvent> = Vec::new();
        if tick_events.len() == 0 {
            return events;
        }
        let passed: u32 = tick_events.len() as u32;
        let tick: u64 = tick_events[tick_events.len() - 1].tick;
        if let Some(c) = state.under_construction {
            let left: u32 = c.ticks_remaining.saturating_sub(passed);
            if left == 0 {
                events.push(DeathStarEvent::ConstructionCompleted { system: c.system, tick });
                state.under_construction = None;
            } else {
                state.under_construction = Some(
                    DeathStarConstruction { system: c.system, ticks_remaining: left },
                );
            }
        }
        let ghost done = completion(old(state).under_construction, passed, tick);
        assert(events@ =~= done);
        if let Some(key) = state.death_star_fleet {
            if let Some(fleet) = world.fleets.get(key) {
                let at: SystemKey = fleet.location;
                if let Some(here) = world.systems.get(at) {
                    let ghost f = warning(*world, at, tick);
                    let count: usize = world.systems.slot_count();
                    assert(done + Seq::<DeathStarEvent>::empty() =~= done);
                    for i in 0..count
                        invariant
                            count == world.systems@.len(),
                            *here == world.systems.at(at),
                            f == warning(*world, at, tick),
                            events@ == done + collect(i as nat, f),
                    {
                        let ghost sofar = collect(i as nat, f);
                        if let Some(sys) = world.systems.slot(i) {
                            if sys.control.is_controlled_by(Faction::Alliance) && i != at.slot
                                && sys.distance_squared_to(here) <= 90000 {
                                let event: DeathStarEvent = DeathStarEvent::NearbyWarning {
                                    system: SystemKey { slot: i },
                                    tick,
                                };
                                events.push(event);
                                assert((done + sofar).push(event) =~= done + sofar.push(event));
                            }
                        }
                    }
                }
            }
        }
        assert(done + Seq::<DeathStarEvent>::empty() =~= done);
        events
    }

    /// Fires the superlaser, if it can fire.
    pub fn fire(
        state: &DeathStarState,
        world: &GameWorld,
        target_system: SystemKey,
        tick: u64,
    ) -> (event: Option<DeathStarEvent>)
        ensures
            event == if can_fire(*state, *world, target_system) {
                Some(DeathStarEvent::PlanetDestroyed { system: target_system, tick })
            } else {
                None
            },
    {
        let sys: &System = match world.systems.get(target_system) {
            Some(sys) => sys,
            None => {
                return None;
            },
        };
        if state.shield_generator_active || sys.is_destroyed {
            return None;
        }
        if sys.control.is_controlled_by(Faction::Empire) {
            return None;
        }
        for i in 0..sys.fleets.len()
            invariant
                *sys == world.systems.at(target_system),
                world.systems.has(target_system),
                !state.shield_generator_active,
                !sys.is_destroyed,
                !sys.control.held_by(Faction::Empire),
                forall|j: int| 0 <= j < i ==> !superlaser_at(*world, *sys, j),
        {
            if let Some(fleet) = world.fleets.get(sys.fleets[i]) {
                if !fleet.is_alliance && fleet.has_death_star {
                    assert(superlaser_at(*world, *sys, i as int));
                    return Some(DeathStarEvent::PlanetDestroyed { system: target_system, tick });
                }
            }
        }
        None
    }

    /// Starts construction at a system, unless one is under way.
    pub fn start_construction(state: &mut DeathStarState, system: SystemKey) -> (started: bool)
        ensures
            started == old(state).under_construction is None,
            *final(state) == if started {
                DeathStarState {
                    under_construction: Some(
                        DeathStarConstruction {
                            system,
                            ticks_remaining: DEATH_STAR_CONSTRUCTION_TICKS,
                        },
                    ),
                    ..*old(state)
                }
            } else {
                *old(state)
            },
    {
        if state.under_construction.is_some() {
            return false;
        }
        state.under_construction = Some(
            DeathStarConstruction { system, ticks_remaining: DEATH_STAR_CONSTRUCTION_TICKS },
        );
        true
    }

    /// Drops the construction.
    pub fn clear_construction(state: &mut DeathStarState)
        ensures
            *final(state) == (DeathStarState { under_construction: None, ..*old(state) }),
    {
        state.under_construction = None;
    }
}

// ---- A destroyed system ----------------------------------------------------

/// The characters aboard the first `n` listed fleets, in order.
pub open spec fn aboard(world: GameWorld, fleets: Seq<FleetKey>, n: nat) -> Seq<CharacterKey>
    decreases n,
{
    if n == 0 {
        Seq::empty()
    } else {
        let before = aboard(world, fleets, (n - 1) as nat);
        if world.fleets.has(fleets[n - 1]) {
            before + world.fleets.at(fleets[n - 1]).characters@
        } else {
            before
        }
    }
}

/// What death makes of a character.
pub open spec fn slain() -> spec_fn(Character) -> Character {
    |c: Character| Character { is_killed: true, ..c }
}

/// The characters after every listed one has died.
pub open spec fn bereaved(slots: Seq<Option<Character>>, dead: Seq<CharacterKey>) -> Seq<
    Option<Character>,
> {
    changed(slots, dead, slain())
}

/// Whether the `v`th of a list is named for the first time.
pub open spec fn first_named(dead: Seq<CharacterKey>, v: int) -> bool {
    forall|w: int| 0 <= w < v ==> (#[trigger] dead[w]) != dead[v]
}

/// The news of the `v`th death: only of a living character that was not dead
/// already, and only once.
pub open spec fn death_news(slots: Seq<Option<Character>>, dead: Seq<CharacterKey>) -> spec_fn(
    int,
) -> Option<GameEffect> {
    |v: int|
        {
            let slot = dead[v].slot as int;
            if occupied(slots, slot) && !(slots[slot]->0).is_killed && first_named(dead, v) {
                Some(GameEffect::CharacterKilled { character: dead[v] })
            } else {
                None
            }
        }
}

/// Whether `after` is `before` with nothing left on or over it.
pub open spec fn laid_waste(before: System, after: System) -> bool {
    &&& after.fleets@.len() == 0
    &&& after.ground_units@.len() == 0
    &&& after.special_forces@.len() == 0
    &&& after.defense_facilities@.len() == 0
    &&& after.manufacturing_facilities@.len() == 0
    &&& after.production_facilities@.len() == 0
    &&& after == (System {
        fleets: after.fleets,
        ground_units: after.ground_units,
        special_forces: after.special_forces,
        defense_facilities: after.defense_facilities,
        manufacturing_facilities: after.manufacturing_facilities,
        production_facilities: after.production_facilities,
        ..before
    })
}

/// The fixed data of a world: what play never changes.
pub open spec fn same_data(before: GameWorld, after: GameWorld) -> bool {
    &&& after.sectors == before.sectors
    &&& after.capital_ship_classes == before.capital_ship_classes
    &&& after.fighter_classes == before.fighter_classes
    &&& after.gnprtb == before.gnprtb
    &&& after.mission_tables == before.mission_tables
    &&& after.troop_classes == before.troop_classes
    &&& after.defense_facility_classes == before.defense_facility_classes
    &&& after.difficulty_index == before.difficulty_index
}

/// Character `i`, if it is on the ground of a system.
pub open spec fn resident(world: GameWorld, system: SystemKey) -> spec_fn(int) -> Option<
    CharacterKey,
> {
    |i: int|
        if occupied(world.characters@, i) && (world.characters@[i]->0).current_system == Some(
            system,
        ) {
            Some(CharacterKey { slot: i as usize })
        } else {
            None
        }
}

/// The characters at a system: those aboard the fleets there and those on the
/// ground.
pub open spec fn doomed(world: GameWorld, system: SystemKey) -> Seq<CharacterKey> {
    let fleets = world.systems.at(system).fleets@;
    aboard(world, fleets, fleets.len()) + collect(
        world.characters@.len(),
        resident(world, system),
    )
}

/// The `i`th name of a roster, unless it is among the dead.
pub open spec fn spared(roster: Seq<CharacterKey>, dead: Seq<CharacterKey>) -> spec_fn(
    int,
) -> Option<CharacterKey> {
    |i: int|
        if dead.contains(roster[i]) {
            None
        } else {
            Some(roster[i])
        }
}

/// Whether a roster has one of the dead on it.
pub open spec fn bears_dead(roster: Seq<CharacterKey>, dead: Seq<CharacterKey>) -> bool {
    exists|i: int| 0 <= i < roster.len() && dead.contains(#[trigger] roster[i])
}

/// Whether `after` is `before` with the dead struck off its roster.
pub open spec fn struck_off(before: Fleet, after: Fleet, dead: Seq<CharacterKey>) -> bool {
    &&& after.characters@ == collect(before.characters@.len(), spared(before.characters@, dead))
    &&& after == (Fleet { characters: after.characters, ..before })
    &&& !bears_dead(before.characters@, dead) ==> after == before
}

/// Whether the dead were struck off the rosters of all fleets, and nothing
/// else happened to the fleets.
pub open spec fn rosters_cleared(
    before: Seq<Option<Fleet>>,
    after: Seq<Option<Fleet>>,
    dead: Seq<CharacterKey>,
) -> bool {
    &&& after.len() == before.len()
    &&& forall|s: int|
        0 <= s < before.len() ==> match #[trigger] before[s] {
            Some(fleet) => after[s] is Some && struck_off(fleet, after[s]->0, dead),
            None => after[s] is None,
        }
}

/// The news of the deaths at a destroyed system.
pub open spec fn obituaries(world: GameWorld, system: SystemKey) -> Seq<GameEffect> {
    let dead = doomed(world, system);
    collect(dead.len(), death_news(world.characters@, dead))
}

/// Whether `after` is `before` with everything at a system cleared away.
pub open spec fn world_cleared(before: GameWorld, after: GameWorld, system: SystemKey) -> bool {
    let sys = before.systems.at(system);
    &&& same_data(before, after)
    &&& after.characters@ == bereaved(before.characters@, doomed(before, system))
    &&& rosters_cleared(
        cleared(before.fleets@, sys.fleets@),
        after.fleets@,
        doomed(before, system),
    )
    &&& after.troops@ == cleared(before.troops@, sys.ground_units@)
    &&& after.special_forces@ == cleared(before.special_forces@, sys.special_forces@)
    &&& after.defense_facilities@ == cleared(before.defense_facilities@, sys.defense_facilities@)
    &&& after.manufacturing_facilities@ == cleared(
        before.manufacturing_facilities@,
        sys.manufacturing_facilities@,
    )
    &&& after.production_facilities@ == cleared(
        before.production_facilities@,
        sys.production_facilities@,
    )
    &&& after.systems.has(system)
    &&& laid_waste(sys, after.systems.at(system))
    &&& after.systems@ == before.systems@.update(
        system.slot as int,
        Some(after.systems.at(system)),
    )
}

/// Whether the orders, queues and blockades that concern a system are dropped,
/// and no others.
pub open spec fn orders_cleared(
    movement_before: MovementState,
    movement: MovementState,
    queues_before: ManufacturingState,
    queues: ManufacturingState,
    blockade_before: BlockadeState,
    blockade: BlockadeState,
    system: SystemKey,
) -> bool {
    &&& movement.orders@ == orders_elsewhere(movement_before.orders@, system)
    &&& queues.items@ == ManufacturingState::elsewhere(queues_before.items@, system)
    &&& blockade.systems@ == other_systems(blockade_before.systems@, system)
}

/// The Death Star after a construction at a system, if any, was dropped.
pub open spec fn site_cleared(state: DeathStarState, system: SystemKey) -> DeathStarState {
    DeathStarState {
        under_construction: if state.under_construction is Some
            && state.under_construction->0.system == system {
            None
        } else {
            state.under_construction
        },
        ..state
    }
}

/// Kills a character; whether it lived until then.
fn kill_one(characters: &mut Arena<CharacterKey, Character>, key: CharacterKey) -> (fresh: bool)
    ensures
        final(characters)@ == change_one(old(characters)@, key.slot as int, slain()),
        fresh == (occupied(old(characters)@, key.slot as int) && !(old(
            characters,
        )@[key.slot as int]->0).is_killed),
{
    let ghost before = characters@;
    let mut fresh: bool = false;
    if let Some(c) = characters.get_mut(key) {
        fresh = !c.is_killed;
        c.mark_killed();
    }
    assert(characters@ =~= change_one(before, key.slot as int, slain()));
    fresh
}

/// Kills the listed characters and reports each death once.
fn kill_listed(
    characters: &mut Arena<CharacterKey, Character>,
    dead: &Vec<CharacterKey>,
    effects: &mut Vec<GameEffect>,
)
    ensures
        final(characters)@ == bereaved(old(characters)@, dead@),
        final(effects)@ == old(effects)@ + collect(
            dead@.len(),
            death_news(old(characters)@, dead@),
        ),
{
    let ghost slots = characters@;
    let ghost news = death_news(slots, dead@);
    let ghost told = effects@;
    assert(bereaved(slots, dead@.take(0)) =~= slots);
    assert(told + Seq::<GameEffect>::empty() =~= told);
    for v in 0..dead.len()
        invariant
            news == death_news(slots, dead@),
            characters@ == bereaved(slots, dead@.take(v as int)),
            effects@ == told + collect(v as nat, news),
    {
        let ghost sofar = collect(v as nat, news);
        let key: CharacterKey = dead[v];
        proof {
            lemma_changed_next(slots, dead@, v as int, slain());
            lemma_still_living(slots, dead@, v as int);
        }
        let fresh: bool = kill_one(characters, key);
        if fresh {
            effects.push(GameEffect::CharacterKilled { character: key });
            assert((told + sofar).push(GameEffect::CharacterKilled { character: key }) =~= told
                + sofar.push(GameEffect::CharacterKilled { character: key }));
        }
    }
    assert(dead@.take(dead@.len() as int) =~= dead@);
}

/// After the first `v` deaths, the next one is news exactly if that character
/// still lives.
proof fn lemma_still_living(slots: Seq<Option<Character>>, dead: Seq<CharacterKey>, v: int)
    requires
        0 <= v < dead.len(),
    ensures
        ({
            let slot = dead[v].slot as int;
            let now = bereaved(slots, dead.take(v));
            &&& death_news(slots, dead)(v) is Some <==> occupied(now, slot)
                && !(now[slot]->0).is_killed
            &&& death_news(slots, dead)(v) is Some ==> death_news(slots, dead)(v) == Some(
                GameEffect::CharacterKilled { character: dead[v] },
            )
        }),
{
    let sofar = dead.take(v);
    let slot = dead[v].slot as int;
    assert(names(sofar, slot) == !first_named(dead, v)) by {
        if names(sofar, slot) {
            let k = choose|k: int| 0 <= k < sofar.len() && (#[trigger] sofar[k]).slot_of() == slot;
            assert(dead[k] == dead[v]);
        } else {
            assert forall|w: int| 0 <= w < v implies (#[trigger] dead[w]) != dead[v] by {
                assert(sofar[w].slot_of() != slot);
            }
        }
    }
}

/// Lists the characters aboard the listed fleets.
fn list_aboard(world: &GameWorld, fleets: &Vec<FleetKey>) -> (list: Vec<CharacterKey>)
    ensures
        list@ == aboard(*world, fleets@, fleets@.len()),
{
    let mut list: Vec<CharacterKey> = Vec::new();
    for n in 0..fleets.len()
        invariant
            list@ == aboard(*world, fleets@, n as nat),
    {
        if let Some(fleet) = world.fleets.get(fleets[n]) {
            let ghost before = list@;
            for i in 0..fleet.characters.len()
                invariant
                    list@ == before + fleet.characters@.take(i as int),
            {
                list.push(fleet.characters[i]);
                assert(list@ =~= before + fleet.characters@.take(i + 1));
            }
            assert(list@ =~= before + fleet.characters@);
        }
    }
    list
}

/// Adds the characters on the ground of a system to a list.
fn list_residents(world: &GameWorld, system: SystemKey, list: &mut Vec<CharacterKey>)
    ensures
        final(list)@ == old(list)@ + collect(
            world.characters@.len(),
            resident(*world, system),
        ),
{
    let ghost before = list@;
    let ghost f = resident(*world, system);
    assert(before + Seq::<CharacterKey>::empty() =~= before);
    let count: usize = world.characters.slot_count();
    for i in 0..count
        invariant
            count == world.characters@.len(),
            f == resident(*world, system),
            list@ == before + collect(i as nat, f),
    {
        let ghost sofar = collect(i as nat, f);
        if let Some(c) = world.characters.slot(i) {
            let here: bool = match c.current_system {
                Some(at) => at == system,
                None => false,
            };
            if here {
                let key: CharacterKey = CharacterKey { slot: i };
                list.push(key);
                assert((before + sofar).push(key) =~= before + sofar.push(key));
            }
        }
    }
}

/// Checks whether a character is among the dead.
fn is_among(dead: &Vec<CharacterKey>, key: CharacterKey) -> (found: bool)
    ensures
        found == dead@.contains(key),
{
    for i in 0..dead.len()
        invariant
            forall|j: int| 0 <= j < i ==> (#[trigger] dead@[j]) != key,
    {
        if dead[i] == key {
            assert(dead@[i as int] == key);
            return true;
        }
    }
    false
}

/// The names of a roster that are not among the dead, and whether any is.
fn muster_spared(roster: &Vec<CharacterKey>, dead: &Vec<CharacterKey>) -> (mustered: (
    Vec<CharacterKey>,
    bool,
))
    ensures
        mustered.0@ == collect(roster@.len(), spared(roster@, dead@)),
        mustered.1 == bears_dead(roster@, dead@),
        !mustered.1 ==> mustered.0@ == roster@,
{
    let ghost f = spared(roster@, dead@);
    let mut left: Vec<CharacterKey> = Vec::new();
    let mut lost: bool = false;
    for i in 0..roster.len()
        invariant
            f == spared(roster@, dead@),
            left@ == collect(i as nat, f),
            lost == exists|j: int| 0 <= j < i && dead@.contains(#[trigger] roster@[j]),
            !lost ==> left@ == roster@.take(i as int),
    {
        let ghost before = lost;
        if is_among(dead, roster[i]) {
            assert(dead@.contains(roster@[i as int]));
            lost = true;
        } else {
            left.push(roster[i]);
            assert(!lost ==> left@ =~= roster@.take(i + 1));
        }
    }
    assert(roster@.take(roster@.len() as int) =~= roster@);
    (left, lost)
}

/// Strikes the dead off the rosters of all fleets.
fn strike_off(fleets: &mut Arena<FleetKey, Fleet>, dead: &Vec<CharacterKey>)
    ensures
        rosters_cleared(old(fleets)@, final(fleets)@, dead@),
{
    let ghost before = fleets@;
    let count: usize = fleets.slot_count();
    for s in 0..count
        invariant
            count == before.len(),
            fleets@.len() == before.len(),
            forall|k: int|
                0 <= k < s ==> match #[trigger] before[k] {
                    Some(fleet) => fleets@[k] is Some && struck_off(fleet, fleets@[k]->0, dead@),
                    None => fleets@[k] is None,
                },
            forall|k: int| s <= k < count ==> #[trigger] fleets@[k] == before[k],
    {
        assert(fleets@[s as int] == before[s as int]);
        let ghost now = fleets@;
        let key: FleetKey = FleetKey { slot: s };
        if let Some(fleet) = fleets.get_mut(key) {
            let (left, lost): (Vec<CharacterKey>, bool) = muster_spared(&fleet.characters, dead);
            if lost {
                fleet.characters = left;
            }
        }
        assert(forall|k: int| 0 <= k < count && k != s ==> #[trigger] fleets@[k] == now[k]);
    }
}

/// Clears away everything at a destroyed system: the characters there die and
/// are struck off the rosters of all fleets, the fleets, troops and facilities
/// are gone, orders to the system, its construction, its production queue and
/// its blockade are dropped.
pub fn cleanup_destroyed_system(
    world: &mut GameWorld,
    system: SystemKey,
    movement: &mut MovementState,
    death_star: &mut DeathStarState,
    manufacturing: &mut ManufacturingState,
    blockade: &mut BlockadeState,
    effects: &mut Vec<GameEffect>,
)
    ensures
        !old(world).systems.has(system) ==> {
            &&& *final(world) == *old(world)
            &&& *final(movement) == *old(movement)
            &&& *final(death_star) == *old(death_star)
            &&& *final(manufacturing) == *old(manufacturing)
            &&& *final(blockade) == *old(blockade)
            &&& *final(effects) == *old(effects)
        },
        old(world).systems.has(system) ==> {
            &&& world_cleared(*old(world), *final(world), system)
            &&& final(effects)@ == old(effects)@ + obituaries(*old(world), system)
            &&& orders_cleared(
                *old(movement),
                *final(movement),
                *old(manufacturing),
                *final(manufacturing),
                *old(blockade),
                *final(blockade),
                system,
            )
            &&& *final(death_star) == site_cleared(*old(death_star), system)
        },
{
    let sys: &System = match world.systems.get(system) {
        Some(sys) => sys,
        None => {
            return;
        },
    };
    let fleets = copy_keys(&sys.fleets);
    let troops = copy_keys(&sys.ground_units);
    let specials = copy_keys(&sys.special_forces);
    let defenses = copy_keys(&sys.defense_facilities);
    let yards = copy_keys(&sys.manufacturing_facilities);
    let works = copy_keys(&sys.production_facilities);
    let mut dead: Vec<CharacterKey> = list_aboard(world, &fleets);
    list_residents(world, system, &mut dead);
    kill_listed(&mut world.characters, &dead, effects);
    remove_all(&mut world.fleets, &fleets);
    strike_off(&mut world.fleets, &dead);
    remove_all(&mut world.troops, &troops);
    remove_all(&mut world.special_forces, &specials);
    remove_all(&mut world.defense_facilities, &defenses);
    remove_all(&mut world.manufacturing_facilities, &yards);
    remove_all(&mut world.production_facilities, &works);
    if let Some(sys) = world.systems.get_mut(system) {
        sys.fleets.clear();
        sys.ground_units.clear();
        sys.special_forces.clear();
        sys.defense_facilities.clear();
        sys.manufacturing_facilities.clear();
        sys.production_facilities.clear();
    }
    movement.cancel_orders_to(system);
    let here: bool = match death_star.under_construction {
        Some(c) => c.system == system,
        None => false,
    };
    if here {
        death_star.under_construction = None;
    }
    manufacturing.clear_queue(system);
    blockade.clear_blockade(system);
}

// ---- Laws ------------------------------------------------------------------

/// The superlaser never fires while the shield generator runs, on a destroyed
/// system, or on a system of the Empire; destroying the generator changes
/// nothing else about whether it can fire.
pub proof fn law_superlaser_guards(state: DeathStarState, world: GameWorld, target: SystemKey)
    ensures
        state.shield_generator_active ==> !can_fire(state, world, target),
        world.systems.at(target).is_destroyed ==> !can_fire(state, world, target),
        world.systems.at(target).control.held_by(Faction::Empire) ==> !can_fire(
            state,
            world,
            target,
        ),
        !state.shield_generator_active ==> can_fire(state, world, target) == can_fire(
            DeathStarState { shield_generator_active: false, ..state },
            world,
            target,
        ),
{
}

/// Construction that starts now is finished exactly when its days have passed:
/// not on any earlier day, and on that day it is gone from the yard.
pub proof fn law_construction_takes_its_time(system: SystemKey, passed: u32, tick: u64)
    ensures
        ({
            let start = Some(
                DeathStarConstruction { system, ticks_remaining: DEATH_STAR_CONSTRUCTION_TICKS },
            );
            &&& passed < DEATH_STAR_CONSTRUCTION_TICKS ==> built(start, passed) is Some
                && completion(start, passed, tick).len() == 0
            &&& passed >= DEATH_STAR_CONSTRUCTION_TICKS ==> built(start, passed) is None
                && completion(start, passed, tick) == seq![
                DeathStarEvent::ConstructionCompleted { system, tick },
            ]
        }),
{
}

/// Days may pass one by one or together: the construction ends up the same.
pub proof fn law_days_add_up(c: Option<DeathStarConstruction>, a: u32, b: u32)
    requires
        a + b <= u32::MAX,
    ensures
        built(built(c, a), b) == built(c, (a + b) as u32),
{
}

/// The state after the first `n` calls, each with its own days.
pub open spec fn state_after(start: DeathStarState, calls: Seq<Seq<TickEvent>>, n: nat) -> DeathStarState
    decreases n,
{
    if n == 0 {
        start
    } else {
        advanced(state_after(start, calls, (n - 1) as nat), calls[n - 1])
    }
}

/// How many days the first `n` calls bring.
pub open spec fn days_in(calls: Seq<Seq<TickEvent>>, n: nat) -> nat
    decreases n,
{
    if n == 0 {
        0
    } else {
        days_in(calls, (n - 1) as nat) + calls[n - 1].len()
    }
}

/// Whether call `k` is the one that brings the last of `days` days.
pub open spec fn reaches(calls: Seq<Seq<TickEvent>>, days: nat, k: int) -> bool {
    &&& 0 <= k < calls.len()
    &&& days_in(calls, k as nat) < days <= days_in(calls, (k + 1) as nat)
}

/// Whether a call tells of a completion exactly if it is to, and then once:
/// as its first news, of that system and on its last day.
pub open spec fn told_rightly(
    news: Seq<DeathStarEvent>,
    due: bool,
    system: SystemKey,
    days: Seq<TickEvent>,
) -> bool {
    &&& due ==> news.len() > 0 && news[0] == (DeathStarEvent::ConstructionCompleted {
        system,
        tick: days.last().tick,
    })
    &&& forall|j: int|
        0 <= j < news.len() ==> ((#[trigger] news[j]) is ConstructionCompleted <==> due && j == 0)
}

/// However the days are split into calls, and whatever the world is like at
/// each of them: what is left of a construction is what it had less the days
/// of all calls, and completion is told exactly once, by the call that brings
/// the last of its days. Before that no call tells of it, nor does any later
/// one.
pub proof fn law_completion_is_told_once(
    start: DeathStarState,
    worlds: Seq<GameWorld>,
    calls: Seq<Seq<TickEvent>>,
)
    requires
        start.under_construction is Some,
        start.under_construction->0.ticks_remaining >= 1,
        worlds.len() == calls.len(),
        days_in(calls, calls.len()) <= u32::MAX,
    ensures
        ({
            let site = start.under_construction->0;
            let days = days_in(calls, calls.len());
            let needed = site.ticks_remaining as nat;
            &&& state_after(start, calls, calls.len()) == (DeathStarState {
                under_construction: if days >= needed {
                    None
                } else {
                    Some(
                        DeathStarConstruction { ticks_remaining: (needed - days) as u32, ..site },
                    )
                },
                ..start
            })
            &&& forall|k: int|
                0 <= k < calls.len() ==> told_rightly(
                    tidings(#[trigger] state_after(start, calls, k as nat), worlds[k], calls[k]),
                    reaches(calls, needed, k),
                    site.system,
                    calls[k],
                )
            &&& days >= needed <==> exists|k: int| reaches(calls, needed, k)
            &&& forall|k: int, l: int|
                #[trigger] reaches(calls, needed, k) && #[trigger] reaches(calls, needed, l)
                    ==> k == l
        }),
{
    let site = start.under_construction->0;
    let needed = site.ticks_remaining as nat;
    lemma_state_after(start, calls, calls.len());
    assert forall|k: int| 0 <= k < calls.len() implies told_rightly(
        tidings(#[trigger] state_after(start, calls, k as nat), worlds[k], calls[k]),
        reaches(calls, needed, k),
        site.system,
        calls[k],
    ) by {
        lemma_days_in(calls, (k + 1) as nat, calls.len());
        lemma_state_after(start, calls, k as nat);
        if calls[k].len() > 0 {
            lemma_warnings(worlds[k], start.death_star_fleet, calls[k].last().tick);
        }
    }
    if days_in(calls, calls.len()) >= needed {
        lemma_reached(calls, needed, calls.len());
    }
    assert forall|k: int| #[trigger] reaches(calls, needed, k) implies days_in(
        calls,
        calls.len(),
    ) >= needed by {
        lemma_days_in(calls, (k + 1) as nat, calls.len());
    }
    assert forall|k: int, l: int| #[trigger]
        reaches(calls, needed, k) && #[trigger] reaches(calls, needed, l) implies k == l by {
        if k < l {
            lemma_days_in(calls, (k + 1) as nat, l as nat);
        }
        if l < k {
            lemma_days_in(calls, (l + 1) as nat, k as nat);
        }
    }
}

/// More calls bring no fewer days.
proof fn lemma_days_in(calls: Seq<Seq<TickEvent>>, m: nat, n: nat)
    requires
        m <= n,
    ensures
        days_in(calls, m) <= days_in(calls, n),
    decreases n,
{
    if m < n {
        lemma_days_in(calls, m, (n - 1) as nat);
    }
}

/// Some call brings the last of the days that are brought.
proof fn lemma_reached(calls: Seq<Seq<TickEvent>>, days: nat, n: nat)
    requires
        n <= calls.len(),
        1 <= days <= days_in(calls, n),
    ensures
        exists|k: int| reaches(calls, days, k),
    decreases n,
{
    if days <= days_in(calls, (n - 1) as nat) {
        lemma_reached(calls, days, (n - 1) as nat);
    } else {
        assert(reaches(calls, days, n - 1));
    }
}

/// What is left of a construction after some calls.
proof fn lemma_state_after(start: DeathStarState, calls: Seq<Seq<TickEvent>>, n: nat)
    requires
        start.under_construction is Some,
        start.under_construction->0.ticks_remaining >= 1,
        n <= calls.len(),
        days_in(calls, calls.len()) <= u32::MAX,
    ensures
        ({
            let site = start.under_construction->0;
            let days = days_in(calls, n);
            state_after(start, calls, n) == (DeathStarState {
                under_construction: if days >= site.ticks_remaining {
                    None
                } else {
                    Some(
                        DeathStarConstruction {
                            ticks_remaining: (site.ticks_remaining - days) as u32,
                            ..site
                        },
                    )
                },
                ..start
            })
        }),
    decreases n,
{
    lemma_days_in(calls, n, calls.len());
    if n > 0 {
        lemma_state_after(start, calls, (n - 1) as nat);
    }
}

/// A warning is no completion.
proof fn lemma_warnings(world: GameWorld, fleet: Option<FleetKey>, tick: u64)
    ensures
        forall|j: int|
            0 <= j < warnings(world, fleet, tick).len() ==> (#[trigger] warnings(
                world,
                fleet,
                tick,
            )[j]) is NearbyWarning,
{
    let list = warnings(world, fleet, tick);
    if fleet is Some {
        let f = warning(world, world.fleets.at(fleet->0).location, tick);
        let n = world.systems@.len();
        lemma_collect_covers(n, f);
        assert forall|j: int| 0 <= j < list.len() implies (#[trigger] list[j]) is NearbyWarning by {
            assert(gives(n, f, list[j]));
            let i = choose|i: int| 0 <= i < n && #[trigger] f(i) == Some(list[j]);
        }
    }
}

/// A sabotage delay of `d` days, where it fits, costs exactly `d` more days.
pub proof fn law_delay_costs_its_days(c: DeathStarConstruction, d: u32)
    requires
        c.ticks_remaining + d <= u32::MAX,
    ensures
        built(
            Some(
                DeathStarConstruction {
                    ticks_remaining: delayed(c.ticks_remaining, d),
                    ..c
                },
            ),
            d,
        ) == built(Some(c), 0),
{
}

/// Every death is reported once, and only for a living character that was not
/// dead already.
pub proof fn law_each_death_reported_once(
    slots: Seq<Option<Character>>,
    dead: Seq<CharacterKey>,
    n: nat,
)
    requires
        n <= dead.len(),
    ensures
        ({
            let news = collect(n, death_news(slots, dead));
            &&& forall|i: int, j: int|
                0 <= i < j < news.len() ==> #[trigger] news[i] != #[trigger] news[j]
            &&& forall|i: int|
                0 <= i < news.len() ==> {
                    let who = (#[trigger] news[i])->CharacterKilled_character;
                    &&& occupied(slots, who.slot as int)
                    &&& !(slots[who.slot as int]->0).is_killed
                    &&& exists|v: int| 0 <= v < n && #[trigger] dead[v] == who
                }
        }),
    decreases n,
{
    if n > 0 {
        let m = (n - 1) as nat;
        let f = death_news(slots, dead);
        law_each_death_reported_once(slots, dead, m);
        let before = collect(m, f);
        let news = collect(n, f);
        assert forall|i: int, j: int| 0 <= i < j < news.len() implies #[trigger] news[i]
            != #[trigger] news[j] by {
            if j < before.len() {
                assert(before[i] == news[i]);
                assert(before[j] == news[j]);
            } else {
                assert(before[i] == news[i]);
                let who = before[i]->CharacterKilled_character;
                let v = choose|v: int| 0 <= v < m && #[trigger] dead[v] == who;
                assert(f(m as int) == Some(news[j]));
                assert(dead[v] != dead[m as int]);
            }
        }
        assert forall|i: int| 0 <= i < news.len() implies ({
            let who = (#[trigger] news[i])->CharacterKilled_character;
            &&& occupied(slots, who.slot as int)
            &&& !(slots[who.slot as int]->0).is_killed
            &&& exists|v: int| 0 <= v < n && #[trigger] dead[v] == who
        }) by {
            if i < before.len() {
                assert(before[i] == news[i]);
                let who = before[i]->CharacterKilled_character;
                let v = choose|v: int| 0 <= v < m && #[trigger] dead[v] == who;
                assert(dead[v] == who);
            } else {
                assert(f(m as int) == Some(news[i]));
                assert(dead[m as int] == news[i]->CharacterKilled_character);
            }
        }
    }
}

/// A system that was cleared has nobody left to kill, so clearing it again
/// reports no death and takes nothing more away.
pub proof fn law_clearing_twice(before: GameWorld, after: GameWorld, system: SystemKey)
    requires
        before.systems.has(system),
        world_cleared(before, after, system),
    ensures
        obituaries(after, system).len() == 0,
        world_cleared(after, after, system),
{
    let dead = doomed(before, system);
    let again = doomed(after, system);
    let sys = after.systems.at(system);
    lemma_slots_bounded(&after.characters);
    lemma_doomed_again(before, after, system);
    assert forall|v: int| 0 <= v < again.len() implies dead.contains(#[trigger] again[v]) && names(
        dead,
        again[v].slot as int,
    ) by {
        let k = choose|k: int| 0 <= k < dead.len() && dead[k] == again[v];
        assert(dead[k].slot_of() == again[v].slot_of());
    }
    lemma_dead_stay_dead(before.characters@, dead, again);
    let left = cleared(before.fleets@, before.systems.at(system).fleets@);
    lemma_rosters_stay_cleared(left, after.fleets@, dead, again);
    assert(cleared(after.fleets@, sys.fleets@) =~= after.fleets@);
    assert(cleared(after.troops@, sys.ground_units@) =~= after.troops@);
    assert(cleared(after.special_forces@, sys.special_forces@) =~= after.special_forces@);
    assert(cleared(after.defense_facilities@, sys.defense_facilities@)
        =~= after.defense_facilities@);
    assert(cleared(after.manufacturing_facilities@, sys.manufacturing_facilities@)
        =~= after.manufacturing_facilities@);
    assert(cleared(after.production_facilities@, sys.production_facilities@)
        =~= after.production_facilities@);
    assert(after.systems@ =~= after.systems@.update(system.slot as int, Some(sys)));
}

/// Whoever is at a cleared system was there before.
proof fn lemma_doomed_again(before: GameWorld, after: GameWorld, system: SystemKey)
    requires
        after.characters@ == bereaved(before.characters@, doomed(before, system)),
        after.characters@.len() <= usize::MAX,
        after.systems.at(system).fleets@.len() == 0,
    ensures
        forall|v: int|
            0 <= v < doomed(after, system).len() ==> doomed(before, system).contains(
                #[trigger] doomed(after, system)[v],
            ),
        forall|v: int|
            0 <= v < doomed(after, system).len() ==> occupied(
                before.characters@,
                (#[trigger] doomed(after, system)[v]).slot as int,
            ),
{
    let again = doomed(after, system);
    let n = after.characters@.len();
    let f = resident(after, system);
    lemma_collect_covers(n, f);
    assert(again =~= collect(n, f));
    assert forall|v: int| 0 <= v < again.len() implies doomed(before, system).contains(
        #[trigger] again[v],
    ) && occupied(before.characters@, again[v].slot as int) by {
        assert(gives(n, f, again[v]));
        let i = choose|i: int| 0 <= i < n && #[trigger] f(i) == Some(again[v]);
        assert(again[v].slot == i);
        law_ground_is_no_refuge(before, system, again[v]);
    }
}

/// A second death of the dead changes nothing and is no news.
proof fn lemma_dead_stay_dead(
    slots: Seq<Option<Character>>,
    dead: Seq<CharacterKey>,
    again: Seq<CharacterKey>,
)
    requires
        forall|v: int|
            0 <= v < again.len() ==> names(dead, (#[trigger] again[v]).slot as int) && occupied(
                slots,
                again[v].slot as int,
            ),
    ensures
        bereaved(bereaved(slots, dead), again) == bereaved(slots, dead),
        collect(again.len(), death_news(bereaved(slots, dead), again)).len() == 0,
{
    let now = bereaved(slots, dead);
    assert forall|v: int| 0 <= v < again.len() implies (now[(
    #[trigger] again[v]).slot as int]->0).is_killed by {
        assert(names(dead, again[v].slot as int));
    }
    lemma_no_news(now, again, again.len());
    assert forall|s: int| 0 <= s < now.len() implies bereaved(now, again)[s] == now[s] by {
        if names(again, s) {
            let v = choose|v: int| 0 <= v < again.len() && (#[trigger] again[v]).slot_of() == s;
            assert(names(dead, s));
        }
    }
    assert(bereaved(now, again) =~= now);
}

/// Rosters without the dead stay as they are when the same dead are struck off.
proof fn lemma_rosters_stay_cleared(
    before: Seq<Option<Fleet>>,
    after: Seq<Option<Fleet>>,
    dead: Seq<CharacterKey>,
    again: Seq<CharacterKey>,
)
    requires
        rosters_cleared(before, after, dead),
        forall|v: int| 0 <= v < again.len() ==> dead.contains(#[trigger] again[v]),
    ensures
        rosters_cleared(after, after, again),
{
    assert forall|s: int| 0 <= s < after.len() implies match #[trigger] after[s] {
        Some(fleet) => struck_off(fleet, fleet, again),
        None => true,
    } by {
        assert(before[s] is Some == after[s] is Some);
        if let Some(fleet) = after[s] {
            lemma_struck_off(before[s]->0, fleet, dead);
            let roster = fleet.characters@;
            assert forall|i: int| 0 <= i < roster.len() implies !again.contains(
                #[trigger] roster[i],
            ) by {
                assert(!dead.contains(roster[i]));
                if again.contains(roster[i]) {
                    let v = choose|v: int| 0 <= v < again.len() && again[v] == roster[i];
                    assert(dead.contains(again[v]));
                }
            }
            lemma_all_spared(roster, again, roster.len());
            assert(roster.take(roster.len() as int) =~= roster);
        }
    }
}

/// None of the dead is on a roster they were struck off.
proof fn lemma_struck_off(before: Fleet, after: Fleet, dead: Seq<CharacterKey>)
    requires
        struck_off(before, after, dead),
    ensures
        forall|i: int|
            0 <= i < after.characters@.len() ==> !dead.contains(#[trigger] after.characters@[i]),
{
    let f = spared(before.characters@, dead);
    let n = before.characters@.len();
    lemma_collect_covers(n, f);
    assert forall|i: int| 0 <= i < after.characters@.len() implies !dead.contains(
        #[trigger] after.characters@[i],
    ) by {
        assert(gives(n, f, after.characters@[i]));
        let k = choose|k: int| 0 <= k < n && #[trigger] f(k) == Some(after.characters@[i]);
    }
}

/// The dead die no second time.
proof fn lemma_no_news(slots: Seq<Option<Character>>, dead: Seq<CharacterKey>, n: nat)
    requires
        n <= dead.len(),
        forall|v: int|
            0 <= v < dead.len() ==> (slots[(#[trigger] dead[v]).slot as int]->0).is_killed,
    ensures
        collect(n, death_news(slots, dead)).len() == 0,
    decreases n,
{
    if n > 0 {
        lemma_no_news(slots, dead, (n - 1) as nat);
        assert((slots[dead[n - 1].slot as int]->0).is_killed);
    }
}

/// A roster without any of the dead stays as it is.
proof fn lemma_all_spared(roster: Seq<CharacterKey>, dead: Seq<CharacterKey>, n: nat)
    requires
        n <= roster.len(),
        forall|i: int| 0 <= i < roster.len() ==> !dead.contains(#[trigger] roster[i]),
    ensures
        collect(n, spared(roster, dead)) == roster.take(n as int),
    decreases n,
{
    if n > 0 {
        lemma_all_spared(roster, dead, (n - 1) as nat);
        assert(roster.take(n as int) =~= roster.take(n - 1).push(roster[n - 1]));
    } else {
        assert(roster.take(0) =~= Seq::<CharacterKey>::empty());
    }
}

/// Everybody who was at a destroyed system is dead afterwards, and on no
/// fleet's roster.
pub proof fn law_nobody_escapes(
    before: GameWorld,
    after: GameWorld,
    system: SystemKey,
    who: CharacterKey,
)
    requires
        before.systems.has(system),
        world_cleared(before, after, system),
        before.characters.has(who),
        doomed(before, system).contains(who),
    ensures
        after.characters.has(who),
        after.characters.at(who) == (Character { is_killed: true, ..before.characters.at(who) }),
        forall|fleet: FleetKey|
            after.fleets.has(fleet) ==> !(#[trigger] after.fleets.at(fleet)).characters@.contains(
                who,
            ),
{
    let dead = doomed(before, system);
    let v = choose|v: int| 0 <= v < dead.len() && dead[v] == who;
    assert(dead[v].slot_of() == who.slot_of());
    assert forall|fleet: FleetKey| after.fleets.has(fleet) implies !(#[trigger] after.fleets.at(
        fleet,
    )).characters@.contains(who) by {
        let s = fleet.slot_of() as int;
        let left = cleared(before.fleets@, before.systems.at(system).fleets@);
        assert(left[s] is Some);
        lemma_struck_off(left[s]->0, after.fleets@[s]->0, dead);
        assert(after.fleets.at(fleet) == after.fleets@[s]->0);
    }
}

/// Whoever is on the ground of a destroyed system is among the doomed.
pub proof fn law_ground_is_no_refuge(world: GameWorld, system: SystemKey, who: CharacterKey)
    requires
        world.characters.has(who),
        world.characters.at(who).current_system == Some(system),
    ensures
        doomed(world, system).contains(who),
{
    let f = resident(world, system);
    let n = world.characters@.len();
    lemma_collect_covers(n, f);
    assert(f(who.slot as int) == Some(who));
    let listed = collect(n, f);
    assert(listed.contains(who));
    let k = choose|k: int| 0 <= k < listed.len() && listed[k] == who;
    let all = doomed(world, system);
    assert(all[all.len() - listed.len() + k] == who);
}

} // verus!
