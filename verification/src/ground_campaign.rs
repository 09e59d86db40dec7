//! What battles and landings do to a system: strengths, landings,
//! bombardment, occupation.

use crate::arena::{occupied, without};
use crate::bombardment::{
    attack_stats, defense_stats, own_system, pair_fits, strike_damage, BombardmentResult,
    BombardmentSystem,
};
use crate::combat::{CombatSide, GroundCombatResult, TroopDamageEvent};
use crate::dat::Faction;
use crate::ground::garrison_known;
use crate::ids::{CharacterKey, FleetKey, SystemKey, TroopKey};
use crate::messages::{
    faction_word, name_system, note_at, system_name, word_faction, MessageCategory, MessageLog,
    Note,
};
use crate::select::{collect, tally};
use crate::space::classes_known;
use crate::text::{decimal, join2, join3, join5, number};
use crate::world::{Character, ControlKind, Fleet, GameWorld, System, TroopUnit};
use vstd::prelude::*;
use vstd::string::*;

verus! {

// ---- Strengths -------------------------------------------------------------

/// The regiments after the first `n` reported strengths. A regiment without
/// strength is gone.
pub open spec fn strengths_kept(
    slots: Seq<Option<TroopUnit>>,
    reported: Seq<(TroopKey, i16)>,
    n: nat,
) -> Seq<Option<TroopUnit>>
    decreases n,
{
    if n == 0 {
        slots
    } else {
        let before = strengths_kept(slots, reported, (n - 1) as nat);
        let (troop, strength) = reported[n - 1];
        if strength <= 0 {
            without(before, troop.slot as nat)
        } else if occupied(before, troop.slot as int) {
            before.update(
                troop.slot as int,
                Some(TroopUnit { regiment_strength: strength, ..before[troop.slot as int]->0 }),
            )
        } else {
            before
        }
    }
}

/// The `i`th regiment of a roster, if it lives and has strength.
pub open spec fn able(slots: Seq<Option<TroopUnit>>, roster: Seq<TroopKey>) -> spec_fn(
    int,
) -> Option<TroopKey> {
    |i: int|
        if occupied(slots, roster[i].slot as int) && (slots[roster[i].slot as int]->0).regiment_strength
            > 0 {
            Some(roster[i])
        } else {
            None
        }
}

/// A roster without the regiments that are gone or spent.
pub open spec fn able_roster(slots: Seq<Option<TroopUnit>>, roster: Seq<TroopKey>) -> Seq<TroopKey> {
    collect(roster.len(), able(slots, roster))
}

/// Writes the final strengths of a battle back. Destroyed regiments leave
/// both the world and the system's roster.
pub fn apply_tactical_ground_strengths(
    world: &mut GameWorld,
    system: SystemKey,
    regiment_strengths: &Vec<(TroopKey, i16)>,
)
    ensures
        final(world).troops@ == strengths_kept(
            old(world).troops@,
            regiment_strengths@,
            regiment_strengths@.len(),
        ),
        old(world).systems.has(system) ==> {
            let before = old(world).systems.at(system);
            let after = final(world).systems.at(system);
            &&& final(world).systems@ == old(world).systems@.update(
                system.slot as int,
                Some(after),
            )
            &&& after == (System { ground_units: after.ground_units, ..before })
            &&& after.ground_units@ == able_roster(final(world).troops@, before.ground_units@)
        },
        !old(world).systems.has(system) ==> final(world).systems@ == old(world).systems@,
        *final(world) == (GameWorld {
            troops: final(world).troops,
            systems: final(world).systems,
            ..*old(world)
        }),
{
    let ghost slots = world.troops@;
    for i in 0..regiment_strengths.len()
        invariant
            world.troops@ == strengths_kept(slots, regiment_strengths@, i as nat),
            *world == (GameWorld { troops: world.troops, ..*old(world) }),
    {
        let (troop, strength): (TroopKey, i16) = regiment_strengths[i];
        if strength > 0 {
            if let Some(unit) = world.troops.get_mut(troop) {
                unit.regiment_strength = strength;
            }
        } else {
            let _ = world.troops.remove(troop);
        }
    }
    let mut living: Vec<TroopKey> = Vec::new();
    if let Some(sys) = world.systems.get(system) {
        let ghost f = able(world.troops@, sys.ground_units@);
        for i in 0..sys.ground_units.len()
            invariant
                f == able(world.troops@, sys.ground_units@),
                living@ == collect(i as nat, f),
        {
            let key: TroopKey = sys.ground_units[i];
            if let Some(unit) = world.troops.get(key) {
                if unit.regiment_strength > 0 {
                    living.push(key);
                }
            }
        }
    }
    if let Some(sys) = world.systems.get_mut(system) {
        sys.ground_units = living;
    }
}

/// A regiment that is gone stays gone, however many reports follow.
pub proof fn law_spent_regiments_stay_gone(
    slots: Seq<Option<TroopUnit>>,
    reported: Seq<(TroopKey, i16)>,
    n: nat,
    m: nat,
    slot: int,
)
    requires
        n <= m <= reported.len(),
        0 <= slot < slots.len(),
        strengths_kept(slots, reported, n)[slot] is None,
    ensures
        strengths_kept(slots, reported, m)[slot] is None,
        strengths_kept(slots, reported, m).len() == slots.len(),
    decreases m,
{
    if m > n {
        law_spent_regiments_stay_gone(slots, reported, n, (m - 1) as nat, slot);
    } else if m > 0 {
        lemma_strengths_len(slots, reported, m);
    }
}

proof fn lemma_strengths_len(
    slots: Seq<Option<TroopUnit>>,
    reported: Seq<(TroopKey, i16)>,
    n: nat,
)
    ensures
        strengths_kept(slots, reported, n).len() == slots.len(),
    decreases n,
{
    if n > 0 {
        lemma_strengths_len(slots, reported, (n - 1) as nat);
    }
}

// ---- Landings --------------------------------------------------------------

/// The `i`th fleet in orbit, if it is of the side and carries regiments.
pub open spec fn lands(world: GameWorld, sys: System, loaded: Seq<FleetKey>, side: bool) -> spec_fn(
    int,
) -> Option<FleetKey> {
    |i: int|
        if world.fleets.has(sys.fleets@[i]) && world.fleets.at(sys.fleets@[i]).is_alliance == side
            && loaded.contains(sys.fleets@[i]) {
            Some(sys.fleets@[i])
        } else {
            None
        }
}

/// The fleets of a side that put regiments ashore at a system.
pub fn landing_fleets(
    world: &GameWorld,
    loaded: &Vec<FleetKey>,
    system: SystemKey,
    is_alliance: bool,
) -> (fleets: Vec<FleetKey>)
    ensures
        fleets@ == if world.systems.has(system) {
            let sys = world.systems.at(system);
            collect(sys.fleets@.len(), lands(*world, sys, loaded@, is_alliance))
        } else {
            Seq::empty()
        },
{
    let mut fleets: Vec<FleetKey> = Vec::new();
    if let Some(sys) = world.systems.get(system) {
        let ghost f = lands(*world, *sys, loaded@, is_alliance);
        for i in 0..sys.fleets.len()
            invariant
                f == lands(*world, *sys, loaded@, is_alliance),
                fleets@ == collect(i as nat, f),
        {
            let key: FleetKey = sys.fleets[i];
            if let Some(fleet) = world.fleets.get(key) {
                if fleet.is_alliance == is_alliance && listed(loaded, key) {
                    fleets.push(key);
                }
            }
        }
    }
    fleets
}

/// Whether a fleet is in a list.
fn listed(list: &Vec<FleetKey>, key: FleetKey) -> (found: bool)
    ensures
        found == list@.contains(key),
{
    for i in 0..list.len()
        invariant
            forall|j: int| 0 <= j < i ==> list@[j] != key,
    {
        if list[i] == key {
            assert(list@[i as int] == key);
            return true;
        }
    }
    false
}

/// Tells how many regiments landed, if any did.
pub fn report_landing(
    world: &GameWorld,
    system: SystemKey,
    landed: usize,
    tick: u64,
    log: &mut MessageLog,
)
    ensures
        final(log)@ == if landed > 0 {
            old(log)@.push(
                note_at(
                    tick,
                    decimal(landed as nat) + " regiment(s) landed at "@ + system_name(
                        *world,
                        system,
                        "unknown"@,
                    ),
                    MessageCategory::Combat,
                    system,
                ),
            )
        } else {
            old(log)@
        },
{
    if landed > 0 {
        let count: String = number(landed as u64);
        let text: String = join3(
            count.as_str(),
            " regiment(s) landed at ",
            name_system(world, system, "unknown"),
        );
        log.say_at(tick, text, MessageCategory::Combat, system);
    }
}

// ---- Bombardment -----------------------------------------------------------

/// The side that a fleet fights for.
pub open spec fn fleet_side(fleet: Fleet) -> Faction {
    if fleet.is_alliance {
        Faction::Alliance
    } else {
        Faction::Empire
    }
}

/// Whether the strike of a fleet against a system can be worked out.
pub open spec fn strike_ready(world: GameWorld, fleet: FleetKey, system: SystemKey) -> bool {
    world.fleets.has(fleet) && world.systems.has(system) && !own_system(
        world.fleets.at(fleet),
        world.systems.at(system),
    ) ==> {
        &&& classes_known(world, world.fleets.at(fleet))
        &&& garrison_known(world, world.systems.at(system))
        &&& pair_fits(
            attack_stats(world, world.fleets.at(fleet)),
        )
        &&& pair_fits(
            defense_stats(world, world.systems.at(system)),
        )
    }
}

/// The strike that follows an uncontested win in orbit, and who struck.
/// Nothing happens when the fleet or the system is gone.
pub fn automatic_bombardment(
    world: &GameWorld,
    fleet: FleetKey,
    system: SystemKey,
    tick: u64,
) -> (strike: Option<(Faction, BombardmentResult)>)
    requires
        strike_ready(*world, fleet, system),
    ensures
        strike is Some <==> world.fleets.has(fleet) && world.systems.has(system),
        strike matches Some((attacker, result)) ==> {
            &&& attacker == fleet_side(world.fleets.at(fleet))
            &&& result.system == system
            &&& result.tick == tick
            &&& strike_damage(
                *world,
                world.fleets.at(fleet),
                world.systems.at(system),
                world.difficulty_index,
                result.damage as int,
            )
        },
{
    if !world.fleets.contains_key(fleet) || !world.systems.contains_key(system) {
        return None;
    }
    let attacker: Faction = if world.fleets.at_key(fleet).is_alliance {
        Faction::Alliance
    } else {
        Faction::Empire
    };
    let result: BombardmentResult = BombardmentSystem::resolve_bombardment(
        world,
        fleet,
        system,
        world.difficulty_index,
        tick,
    );
    Some((attacker, result))
}

/// What a strike adds to the log.
pub open spec fn strike_notes(
    world: GameWorld,
    system: SystemKey,
    damage: i32,
    headquarters_destroyed: bool,
    tick: u64,
) -> Seq<Note> {
    let name = system_name(world, system, "unknown"@);
    let hit = if damage > 0 {
        seq![
            note_at(
                tick,
                "Orbital bombardment at "@ + name + " — "@ + decimal(damage as nat) + " damage"@,
                MessageCategory::Combat,
                system,
            ),
        ]
    } else {
        Seq::empty()
    };
    if headquarters_destroyed {
        hit.push(
            note_at(
                tick,
                "Alliance headquarters destroyed at "@ + name,
                MessageCategory::Combat,
                system,
            ),
        )
    } else {
        hit
    }
}

/// Tells what a strike did.
pub fn report_bombardment(
    world: &GameWorld,
    system: SystemKey,
    damage: i32,
    headquarters_destroyed: bool,
    tick: u64,
    log: &mut MessageLog,
)
    ensures
        final(log)@ == old(log)@ + strike_notes(
            *world,
            system,
            damage,
            headquarters_destroyed,
            tick,
        ),
{
    let ghost said = log@;
    if damage > 0 {
        let points: String = number(damage as u64);
        let text: String = join5(
            "Orbital bombardment at ",
            name_system(world, system, "unknown"),
            " — ",
            points.as_str(),
            " damage",
        );
        log.say_at(tick, text, MessageCategory::Combat, system);
    }
    if headquarters_destroyed {
        let text: String = join2(
            "Alliance headquarters destroyed at ",
            name_system(world, system, "unknown"),
        );
        log.say_at(tick, text, MessageCategory::Combat, system);
    }
    assert(log@ =~= said + strike_notes(*world, system, damage, headquarters_destroyed, tick));
}

// ---- Occupation ------------------------------------------------------------

/// Whether a character is at a system that its enemy has just occupied.
pub open spec fn trapped(c: Character, system: SystemKey, winner: Faction) -> bool {
    &&& c.current_system == Some(system)
    &&& !c.is_killed
    &&& match winner {
        Faction::Alliance => c.is_empire,
        Faction::Empire => c.is_alliance,
        Faction::Neutral => false,
    }
}

/// A character after an occupation.
pub open spec fn after_occupation(
    c: Character,
    system: SystemKey,
    winner: Faction,
    tick: u64,
) -> Character {
    if trapped(c, system, winner) {
        Character {
            is_captive: true,
            captured_by: Some(winner),
            capture_tick: Some(tick),
            current_fleet: None,
            ..c
        }
    } else {
        c
    }
}

/// All characters after an occupation.
pub open spec fn all_after_occupation(
    slots: Seq<Option<Character>>,
    system: SystemKey,
    winner: Faction,
    tick: u64,
) -> Seq<Option<Character>> {
    Seq::new(
        slots.len(),
        |s: int|
            match slots[s] {
                Some(c) => Some(after_occupation(c, system, winner, tick)),
                None => None,
            },
    )
}

/// Hands a system to the winner of the fight for it, and the enemy's people
/// there with it.
pub fn apply_system_occupation(
    world: &mut GameWorld,
    system: SystemKey,
    winner: Faction,
    tick: u64,
    log: &mut MessageLog,
)
    ensures
        final(world).systems@ == if old(world).systems.has(system) {
            old(world).systems@.update(
                system.slot as int,
                Some(
                    System {
                        control: ControlKind::Controlled(winner),
                        ..old(world).systems.at(system)
                    },
                ),
            )
        } else {
            old(world).systems@
        },
        final(world).characters@ == all_after_occupation(
            old(world).characters@,
            system,
            winner,
            tick,
        ),
        *final(world) == (GameWorld {
            systems: final(world).systems,
            characters: final(world).characters,
            ..*old(world)
        }),
        final(log)@ == if old(world).systems.has(system) && old(world).systems.at(system).control
            == ControlKind::Controlled(winner) {
            old(log)@
        } else {
            old(log)@.push(
                note_at(
                    tick,
                    system_name(*old(world), system, "unknown"@) + " occupied by "@ + faction_word(
                        winner,
                    ),
                    MessageCategory::Combat,
                    system,
                ),
            )
        },
{
    let mut held: bool = false;
    if let Some(sys) = world.systems.get_mut(system) {
        held = sys.control.is_controlled_by(winner);
        sys.control = ControlKind::Controlled(winner);
    }
    if !held {
        let text: String = join3(
            name_system(world, system, "unknown"),
            " occupied by ",
            word_faction(winner),
        );
        log.say_at(tick, text, MessageCategory::Combat, system);
    }
    let ghost people = world.characters@;
    let count: usize = world.characters.slot_count();
    for i in 0..count
        invariant
            count == people.len(),
            world.characters@.len() == people.len(),
            forall|s: int|
                0 <= s < i ==> #[trigger] world.characters@[s] == all_after_occupation(
                    people,
                    system,
                    winner,
                    tick,
                )[s],
            forall|s: int| i <= s < people.len() ==> #[trigger] world.characters@[s] == people[s],
            people == old(world).characters@,
            *world == (GameWorld {
                systems: world.systems,
                characters: world.characters,
                ..*old(world)
            }),
            world.systems@ == if old(world).systems.has(system) {
                old(world).systems@.update(
                    system.slot as int,
                    Some(
                        System {
                            control: ControlKind::Controlled(winner),
                            ..old(world).systems.at(system)
                        },
                    ),
                )
            } else {
                old(world).systems@
            },
    {
        if let Some(c) = world.characters.get_mut(CharacterKey { slot: i }) {
            let enemy: bool = match winner {
                Faction::Alliance => c.is_empire,
                Faction::Empire => c.is_alliance,
                Faction::Neutral => false,
            };
            let here: bool = match c.current_system {
                Some(place) => place == system,
                None => false,
            };
            if here && enemy && !c.is_killed {
                c.is_captive = true;
                c.captured_by = Some(winner);
                c.capture_tick = Some(tick);
                c.current_fleet = None;
            }
        }
    }
    assert(world.characters@ =~= all_after_occupation(people, system, winner, tick));
}

/// Occupying a system a second time changes nothing more than the first did:
/// whoever was taken stays as taken.
pub proof fn law_occupation_settles(c: Character, system: SystemKey, winner: Faction, tick: u64)
    ensures
        after_occupation(after_occupation(c, system, winner, tick), system, winner, tick)
            == after_occupation(c, system, winner, tick),
{
}

/// Nobody changes sides, dies or moves to another system by being captured.
pub proof fn law_captives_keep_their_side(
    c: Character,
    system: SystemKey,
    winner: Faction,
    tick: u64,
)
    ensures
        ({
            let after = after_occupation(c, system, winner, tick);
            &&& after.is_alliance == c.is_alliance
            &&& after.is_empire == c.is_empire
            &&& after.is_killed == c.is_killed
            &&& after.current_system == c.current_system
            &&& c.is_captive ==> after.is_captive
        }),
{
}

// ---- The ground campaign ---------------------------------------------------

/// How a landing begins.
#[derive(Debug, Clone, Copy, PartialEq, Eq, Structural)]
pub enum GroundOpening {
    /// Both sides have regiments: they fight.
    Battle,
    /// One side alone is on the ground after a landing.
    Unopposed(Faction),
    /// Nothing to decide.
    Quiet,
}

/// Whether the `i`th regiment of a garrison can fight for a side.
pub open spec fn fights(world: GameWorld, sys: System, side: bool) -> spec_fn(int) -> bool {
    |i: int|
        world.troops.has(sys.ground_units@[i]) && world.troops.at(
            sys.ground_units@[i],
        ).regiment_strength > 0 && world.troops.at(sys.ground_units@[i]).is_alliance == side
}

/// How many regiments of a side can fight at a system.
pub open spec fn fighting(world: GameWorld, system: SystemKey, side: bool) -> nat {
    if world.systems.has(system) {
        let sys = world.systems.at(system);
        tally(sys.ground_units@.len(), fights(world, sys, side))
    } else {
        0
    }
}

/// How many regiments of each side can fight at a system, the Alliance first.
pub fn ground_forces(world: &GameWorld, system: SystemKey) -> (counts: (usize, usize))
    ensures
        counts.0 == fighting(*world, system, true),
        counts.1 == fighting(*world, system, false),
{
    let mut alliance: usize = 0;
    let mut empire: usize = 0;
    if let Some(sys) = world.systems.get(system) {
        let ghost fa = fights(*world, *sys, true);
        let ghost fe = fights(*world, *sys, false);
        for i in 0..sys.ground_units.len()
            invariant
                fa == fights(*world, *sys, true),
                fe == fights(*world, *sys, false),
                alliance <= i,
                empire <= i,
                alliance == tally(i as nat, fa),
                empire == tally(i as nat, fe),
        {
            if let Some(unit) = world.troops.get(sys.ground_units[i]) {
                if unit.regiment_strength > 0 {
                    if unit.is_alliance {
                        alliance = alliance + 1;
                    } else {
                        empire = empire + 1;
                    }
                }
            }
        }
    }
    (alliance, empire)
}

/// Decides how a landing begins, once `landed` regiments are ashore.
pub fn open_ground_campaign(world: &GameWorld, system: SystemKey, landed: usize) -> (opening:
    GroundOpening)
    ensures
        opening == match (
            fighting(*world, system, true) > 0,
            fighting(*world, system, false) > 0,
        ) {
            (true, true) => GroundOpening::Battle,
            (true, false) => if landed > 0 {
                GroundOpening::Unopposed(Faction::Alliance)
            } else {
                GroundOpening::Quiet
            },
            (false, true) => if landed > 0 {
                GroundOpening::Unopposed(Faction::Empire)
            } else {
                GroundOpening::Quiet
            },
            (false, false) => GroundOpening::Quiet,
        },
{
    let (alliance, empire): (usize, usize) = ground_forces(world, system);
    if alliance > 0 && empire > 0 {
        GroundOpening::Battle
    } else if alliance > 0 && landed > 0 {
        GroundOpening::Unopposed(Faction::Alliance)
    } else if empire > 0 && landed > 0 {
        GroundOpening::Unopposed(Faction::Empire)
    } else {
        GroundOpening::Quiet
    }
}

/// The most rounds that a ground battle lasts.
pub const MAX_GROUND_ROUNDS: u32 = 256;

/// Whether a round wore anybody down.
pub open spec fn progress(events: Seq<TroopDamageEvent>) -> bool {
    exists|i: int|
        0 <= i < events.len() && (#[trigger] events[i]).strength_after < events[i].strength_before
}

/// Whether a round wore anybody down.
pub fn made_progress(result: &GroundCombatResult) -> (worn: bool)
    ensures
        worn == progress(result.troop_damage@),
{
    for i in 0..result.troop_damage.len()
        invariant
            forall|j: int|
                0 <= j < i ==> !((#[trigger] result.troop_damage@[j]).strength_after
                    < result.troop_damage@[j].strength_before),
    {
        let event: TroopDamageEvent = result.troop_damage[i];
        if event.strength_after < event.strength_before {
            assert(result.troop_damage@[i as int] == event);
            return true;
        }
    }
    false
}

/// Whether a ground battle goes on after its latest of `rounds` rounds.
pub fn next_round(result: &GroundCombatResult, rounds: u32) -> (again: bool)
    ensures
        again == (rounds < MAX_GROUND_ROUNDS && result.winner == CombatSide::Draw && progress(
            result.troop_damage@,
        )),
{
    rounds < MAX_GROUND_ROUNDS && result.winner == CombatSide::Draw && made_progress(result)
}

/// The name of a side of a battle.
pub open spec fn combat_side_word(side: CombatSide) -> Seq<char> {
    match side {
        CombatSide::Attacker => "Attacker"@,
        CombatSide::Defender => "Defender"@,
        CombatSide::Draw => "Draw"@,
    }
}

/// The faction that a battle went to.
pub open spec fn victor(winner: CombatSide, attacker_is_alliance: bool) -> Option<Faction> {
    match winner {
        CombatSide::Draw => None,
        CombatSide::Attacker => Some(
            if attacker_is_alliance {
                Faction::Alliance
            } else {
                Faction::Empire
            },
        ),
        CombatSide::Defender => Some(
            if attacker_is_alliance {
                Faction::Empire
            } else {
                Faction::Alliance
            },
        ),
    }
}

/// Tells how a ground battle ended and says who takes the system.
pub fn close_ground_battle(
    world: &GameWorld,
    system: SystemKey,
    winner: CombatSide,
    rounds: u32,
    attacker_is_alliance: bool,
    tick: u64,
    log: &mut MessageLog,
) -> (occupier: Option<Faction>)
    ensures
        occupier == victor(winner, attacker_is_alliance),
        final(log)@ == old(log)@.push(
            note_at(
                tick,
                "Ground battle at "@ + system_name(*world, system, "unknown"@) + ": "@
                    + combat_side_word(winner) + " after "@ + decimal(rounds as nat)
                    + " round(s)"@,
                MessageCategory::Combat,
                system,
            ),
        ),
{
    let side: &'static str = match winner {
        CombatSide::Attacker => "Attacker",
        CombatSide::Defender => "Defender",
        CombatSide::Draw => "Draw",
    };
    let count: String = number(rounds as u64);
    let mut text: String = join5(
        "Ground battle at ",
        name_system(world, system, "unknown"),
        ": ",
        side,
        " after ",
    );
    text.append(count.as_str());
    text.append(" round(s)");
    log.say_at(tick, text, MessageCategory::Combat, system);
    match winner {
        CombatSide::Attacker => Some(
            if attacker_is_alliance {
                Faction::Alliance
            } else {
                Faction::Empire
            },
        ),
        CombatSide::Defender => Some(
            if attacker_is_alliance {
                Faction::Empire
            } else {
                Faction::Alliance
            },
        ),
        CombatSide::Draw => None,
    }
}

/// What is to be done next in the fight for a system.
#[derive(Debug, Clone, Copy, PartialEq, Eq, Structural)]
pub enum GroundStep {
    /// Fight another round and apply it.
    Fight,
    /// Hand the system over.
    Occupy(Faction),
    Stop,
}

/// A fight for a system.
#[derive(Debug, Clone, Copy, PartialEq, Eq, Structural)]
pub struct GroundCampaign {
    pub system: SystemKey,
    pub attacker_is_alliance: bool,
    /// Rounds fought so far.
    pub rounds: u32,
}

/// The step that an opening leads to.
pub open spec fn opening_step(opening: GroundOpening) -> GroundStep {
    match opening {
        GroundOpening::Battle => GroundStep::Fight,
        GroundOpening::Unopposed(side) => GroundStep::Occupy(side),
        GroundOpening::Quiet => GroundStep::Stop,
    }
}

/// How a landing begins.
pub open spec fn opening_of(world: GameWorld, system: SystemKey, landed: usize) -> GroundOpening {
    if fighting(world, system, true) > 0 && fighting(world, system, false) > 0 {
        GroundOpening::Battle
    } else if fighting(world, system, true) > 0 && landed > 0 {
        GroundOpening::Unopposed(Faction::Alliance)
    } else if fighting(world, system, false) > 0 && landed > 0 {
        GroundOpening::Unopposed(Faction::Empire)
    } else {
        GroundOpening::Quiet
    }
}

/// Whether a fight goes on after its latest round.
pub open spec fn fights_on(
    rounds: u32,
    winner: CombatSide,
    events: Seq<TroopDamageEvent>,
) -> bool {
    rounds < MAX_GROUND_ROUNDS && winner == CombatSide::Draw && progress(events)
}

/// The step that a finished fight leads to.
pub open spec fn closing_step(winner: CombatSide, attacker_is_alliance: bool) -> GroundStep {
    match victor(winner, attacker_is_alliance) {
        Some(side) => GroundStep::Occupy(side),
        None => GroundStep::Stop,
    }
}

/// The line about a finished fight.
pub open spec fn closing_note(
    world: GameWorld,
    system: SystemKey,
    winner: CombatSide,
    rounds: nat,
    tick: u64,
) -> Note {
    note_at(
        tick,
        "Ground battle at "@ + system_name(world, system, "unknown"@) + ": "@ + combat_side_word(
            winner,
        ) + " after "@ + decimal(rounds) + " round(s)"@,
        MessageCategory::Combat,
        system,
    )
}

impl GroundCampaign {
    /// Begins the fight for a system, once `landed` regiments are ashore.
    pub fn begin(
        world: &GameWorld,
        system: SystemKey,
        attacker_is_alliance: bool,
        landed: usize,
    ) -> (start: (GroundCampaign, GroundStep))
        ensures
            start.0 == (GroundCampaign { system, attacker_is_alliance, rounds: 0 }),
            start.1 == opening_step(opening_of(*world, system, landed)),
    {
        let step: GroundStep = match open_ground_campaign(world, system, landed) {
            GroundOpening::Battle => GroundStep::Fight,
            GroundOpening::Unopposed(side) => GroundStep::Occupy(side),
            GroundOpening::Quiet => GroundStep::Stop,
        };
        (GroundCampaign { system, attacker_is_alliance, rounds: 0 }, step)
    }

    /// Goes on after a round that has been applied to the world. The fight
    /// ends with a winner, when nobody was worn down, or after its last round.
    pub fn after_round(
        &mut self,
        result: &GroundCombatResult,
        world: &GameWorld,
        tick: u64,
        log: &mut MessageLog,
    ) -> (step: GroundStep)
        requires
            old(self).rounds < MAX_GROUND_ROUNDS,
        ensures
            *final(self) == (GroundCampaign { rounds: (old(self).rounds + 1) as u32, ..*old(self) }),
            fights_on(final(self).rounds, result.winner, result.troop_damage@) ==> {
                &&& step == GroundStep::Fight
                &&& final(log)@ == old(log)@
            },
            !fights_on(final(self).rounds, result.winner, result.troop_damage@) ==> {
                &&& step == closing_step(result.winner, old(self).attacker_is_alliance)
                &&& final(log)@ == old(log)@.push(
                    closing_note(
                        *world,
                        old(self).system,
                        result.winner,
                        final(self).rounds as nat,
                        tick,
                    ),
                )
            },
    {
        self.rounds = self.rounds + 1;
        if next_round(result, self.rounds) {
            return GroundStep::Fight;
        }
        let occupier: Option<Faction> = close_ground_battle(
            world,
            self.system,
            result.winner,
            self.rounds,
            self.attacker_is_alliance,
            tick,
            log,
        );
        match occupier {
            Some(side) => GroundStep::Occupy(side),
            None => GroundStep::Stop,
        }
    }
}

/// A fight never goes on after its last round, whatever the rounds bring.
pub proof fn law_fights_end(rounds: u32, winner: CombatSide, events: Seq<TroopDamageEvent>)
    ensures
        fights_on(rounds, winner, events) ==> rounds < MAX_GROUND_ROUNDS,
        rounds >= MAX_GROUND_ROUNDS ==> !fights_on(rounds, winner, events),
{
}

/// Only a side that has regiments on the ground takes a system: unopposed,
/// after a landing of its own or the enemy's, and never when nobody landed.
pub proof fn law_occupiers_are_there(world: GameWorld, system: SystemKey, landed: usize)
    ensures
        opening_of(world, system, landed) matches GroundOpening::Unopposed(side) ==> {
            &&& landed > 0
            &&& side == Faction::Alliance || side == Faction::Empire
            &&& fighting(world, system, side == Faction::Alliance) > 0
            &&& fighting(world, system, side != Faction::Alliance) == 0
        },
{
}

} // verus!
