//! A whole space battle.

use crate::combat::{
    decide, winner_of, CombatPhaseFlags, CombatSide, CombatSystem, FighterLossEvent,
    ShipDamageEvent, SpaceCombatResult,
};
use crate::ids::{FleetKey, SystemKey};
use crate::select::collect;
use crate::space::{
    absorbed, all_wf, any_alive_snap, any_left, blow_at, classes_known, emperor_aboard,
    find_emperor, fire_of, fired_on, ion_of, list_places, living_places, roster, snaps, some_alive,
    some_left, spur, spurred, struck, volley_fits, ShipSnap,
};
use crate::space_fighters::{
    carrier_capacity, dueled, engaged, entry, launched, raided_by, recalled, screen_of, screened,
};
use crate::world::{Fleet, GameWorld};
use vstd::prelude::*;

verus! {

/// What the rolls of a battle amount to.
#[derive(Debug)]
pub struct SpaceDice {
    /// How far the fire on each living defender departs from its share.
    pub fire_on_defender: Vec<i64>,
    /// How far the fire on each living attacker departs from its share.
    pub fire_on_attacker: Vec<i64>,
    /// Hull damage to each attacker after the difficulty modifier.
    pub attacker_blows: Vec<i32>,
    /// Hull damage to each defender after the difficulty modifier.
    pub defender_blows: Vec<i32>,
    /// Which living defender each attacking fighter group goes for.
    pub attacker_picks: Vec<usize>,
    /// Which living attacker each defending fighter group goes for.
    pub defender_picks: Vec<usize>,
    /// Whether the attackers' screen catches one more squadron.
    pub attacker_screen: bool,
    /// Whether the defenders' screen catches one more squadron.
    pub defender_screen: bool,
    /// Squadrons the attackers lose in the dogfight.
    pub attacker_losses: u32,
    /// Squadrons the defenders lose in the dogfight.
    pub defender_losses: u32,
}

/// Both sides of a battle at one moment.
pub struct Standing {
    pub atk_ships: Seq<ShipSnap>,
    pub def_ships: Seq<ShipSnap>,
    pub atk_fighters: Seq<u32>,
    pub def_fighters: Seq<u32>,
}

// ---- Fighter engagement ----------------------------------------------------

/// The battle after the fighter engagement: launch, attacks on ships, screening
/// fire, dogfight, recall.
pub open spec fn fighters_done(
    world: GameWorld,
    attacker: Fleet,
    defender: Fleet,
    b: Standing,
    dice: SpaceDice,
    generator_runs: bool,
) -> Standing {
    let atk_local = b.atk_ships.len() == 0;
    let def_local = b.def_ships.len() == 0;
    let atk_up = launched(
        b.atk_fighters,
        carrier_capacity(world, attacker, b.atk_ships, atk_local),
    );
    let def_up = launched(
        b.def_fighters,
        carrier_capacity(world, defender, b.def_ships, def_local),
    );
    let def_ships = raided_by(
        world,
        attacker,
        atk_up,
        b.def_ships,
        dice.attacker_picks@,
        generator_runs,
    );
    let atk_ships = raided_by(
        world,
        defender,
        def_up,
        b.atk_ships,
        dice.defender_picks@,
        generator_runs,
    );
    let def_met = screened(def_up, screen_of(world, attacker, atk_ships), dice.attacker_screen);
    let atk_met = screened(atk_up, screen_of(world, defender, def_ships), dice.defender_screen);
    let fight = engaged(world, attacker, atk_met, defender, def_met);
    let atk_back = if fight {
        dueled(atk_met, dice.attacker_losses)
    } else {
        atk_met
    };
    let def_back = if fight {
        dueled(def_met, dice.defender_losses)
    } else {
        def_met
    };
    Standing {
        atk_ships,
        def_ships,
        atk_fighters: recalled(
            b.atk_fighters,
            atk_back,
            atk_up,
            carrier_capacity(world, attacker, atk_ships, atk_local),
        ),
        def_fighters: recalled(
            b.def_fighters,
            def_back,
            def_up,
            carrier_capacity(world, defender, def_ships, def_local),
        ),
    }
}

/// A copy of a list of counts.
fn copy_counts(list: &Vec<u32>) -> (copy: Vec<u32>)
    ensures
        copy@ == list@,
{
    let mut copy: Vec<u32> = Vec::new();
    for i in 0..list.len()
        invariant
            copy@ == list@.take(i as int),
    {
        copy.push(list[i]);
        assert(copy@ =~= list@.take(i + 1));
    }
    assert(copy@ =~= list@);
    copy
}

impl CombatSystem {
    /// The fighter engagement.
    pub fn phase_fighter_engage(
        world: &GameWorld,
        attacker: FleetKey,
        defender: FleetKey,
        atk_fighters: &mut Vec<u32>,
        def_fighters: &mut Vec<u32>,
        atk_ships: &mut Vec<ShipSnap>,
        def_ships: &mut Vec<ShipSnap>,
        dice: &SpaceDice,
        death_star_shield_active: bool,
    )
        requires
            world.fleets.has(attacker),
            world.fleets.has(defender),
            classes_known(*world, world.fleets.at(attacker)),
            classes_known(*world, world.fleets.at(defender)),
            all_wf(old(atk_ships)@),
            all_wf(old(def_ships)@),
        ensures
            (Standing {
                atk_ships: final(atk_ships)@,
                def_ships: final(def_ships)@,
                atk_fighters: final(atk_fighters)@,
                def_fighters: final(def_fighters)@,
            }) == fighters_done(
                *world,
                world.fleets.at(attacker),
                world.fleets.at(defender),
                Standing {
                    atk_ships: old(atk_ships)@,
                    def_ships: old(def_ships)@,
                    atk_fighters: old(atk_fighters)@,
                    def_fighters: old(def_fighters)@,
                },
                *dice,
                death_star_shield_active,
            ),
    {
        let atk_local: bool = atk_ships.len() == 0;
        let def_local: bool = def_ships.len() == 0;
        let atk_capacity: u128 = CombatSystem::compute_carrier_capacity(
            world,
            attacker,
            atk_ships,
            atk_local,
        );
        let def_capacity: u128 = CombatSystem::compute_carrier_capacity(
            world,
            defender,
            def_ships,
            def_local,
        );
        let atk_up: Vec<u32> = CombatSystem::launch_fighters(atk_fighters, atk_capacity);
        let def_up: Vec<u32> = CombatSystem::launch_fighters(def_fighters, def_capacity);
        let mut atk_air: Vec<u32> = copy_counts(&atk_up);
        let mut def_air: Vec<u32> = copy_counts(&def_up);
        let atk_fleet: &Fleet = world.fleets.at_key(attacker);
        let def_fleet: &Fleet = world.fleets.at_key(defender);
        CombatSystem::fighters_attack_ships(
            &atk_up,
            atk_fleet,
            def_ships,
            world,
            &dice.attacker_picks,
            death_star_shield_active,
        );
        CombatSystem::fighters_attack_ships(
            &def_up,
            def_fleet,
            atk_ships,
            world,
            &dice.defender_picks,
            death_star_shield_active,
        );
        CombatSystem::capital_ships_attack_fighters(
            world,
            attacker,
            atk_ships,
            &mut def_air,
            dice.attacker_screen,
        );
        CombatSystem::capital_ships_attack_fighters(
            world,
            defender,
            def_ships,
            &mut atk_air,
            dice.defender_screen,
        );
        CombatSystem::fighter_dogfight(
            &mut atk_air,
            atk_fleet,
            &mut def_air,
            def_fleet,
            world,
            dice.attacker_losses,
            dice.defender_losses,
        );
        let atk_room: u128 = CombatSystem::compute_carrier_capacity(
            world,
            attacker,
            atk_ships,
            atk_local,
        );
        let def_room: u128 = CombatSystem::compute_carrier_capacity(
            world,
            defender,
            def_ships,
            def_local,
        );
        CombatSystem::recall_fighters(atk_fighters, &atk_air, &atk_up, atk_room);
        CombatSystem::recall_fighters(def_fighters, &def_air, &def_up, def_room);
    }
}

// ---- Result ----------------------------------------------------------------

/// The `i`th hull's damage, if it took any. `places` gives every hull's place
/// among the ships of its fleet.
pub open spec fn hull_event(
    fleet: FleetKey,
    ships: Seq<ShipSnap>,
    initial: Seq<i32>,
    places: Seq<usize>,
) -> spec_fn(int) -> Option<ShipDamageEvent> {
    |i: int|
        {
            let before = if i < initial.len() {
                initial[i]
            } else {
                ships[i].hull_max
            };
            if ships[i].hull_current < before {
                Some(
                    ShipDamageEvent {
                        fleet,
                        ship_index: if i < places.len() {
                            places[i]
                        } else {
                            i as usize
                        },
                        hull_before: before,
                        hull_after: ships[i].hull_current,
                    },
                )
            } else {
                None
            }
        }
}

/// The `i`th group's losses, if it had any.
pub open spec fn loss_event(fleet: FleetKey, groups: Seq<u32>, initial: Seq<u32>) -> spec_fn(
    int,
) -> Option<FighterLossEvent> {
    |i: int|
        if initial[i] > entry(groups, i) {
            Some(
                FighterLossEvent {
                    fleet,
                    fighter_index: i as usize,
                    squads_before: initial[i],
                    squads_after: entry(groups, i),
                },
            )
        } else {
            None
        }
}

/// All hull damage of one side.
pub open spec fn hull_events(
    fleet: FleetKey,
    ships: Seq<ShipSnap>,
    initial: Seq<i32>,
    places: Seq<usize>,
) -> Seq<ShipDamageEvent> {
    collect(ships.len(), hull_event(fleet, ships, initial, places))
}

/// All fighter losses of one side.
pub open spec fn loss_events(fleet: FleetKey, groups: Seq<u32>, initial: Seq<u32>) -> Seq<
    FighterLossEvent,
> {
    collect(initial.len(), loss_event(fleet, groups, initial))
}

/// Adds one side's hull damage to a list.
fn list_hull_events(
    fleet: FleetKey,
    ships: &Vec<ShipSnap>,
    initial: &Vec<i32>,
    places: &Vec<usize>,
    events: &mut Vec<ShipDamageEvent>,
)
    ensures
        final(events)@ == old(events)@ + hull_events(fleet, ships@, initial@, places@),
{
    let ghost before = events@;
    let ghost f = hull_event(fleet, ships@, initial@, places@);
    assert(before + Seq::<ShipDamageEvent>::empty() =~= before);
    for i in 0..ships.len()
        invariant
            f == hull_event(fleet, ships@, initial@, places@),
            events@ == before + collect(i as nat, f),
    {
        let hull_before: i32 = if i < initial.len() {
            initial[i]
        } else {
            ships[i].hull_max
        };
        let hull_after: i32 = ships[i].hull_current;
        let ghost sofar = collect(i as nat, f);
        if hull_after < hull_before {
            let event: ShipDamageEvent = ShipDamageEvent {
                fleet,
                ship_index: if i < places.len() {
                    places[i]
                } else {
                    i
                },
                hull_before,
                hull_after,
            };
            events.push(event);
            assert((before + sofar).push(event) =~= before + sofar.push(event));
        }
    }
}

/// Adds one side's fighter losses to a list.
fn list_loss_events(
    fleet: FleetKey,
    groups: &Vec<u32>,
    initial: &Vec<u32>,
    events: &mut Vec<FighterLossEvent>,
)
    ensures
        final(events)@ == old(events)@ + loss_events(fleet, groups@, initial@),
{
    let ghost before = events@;
    let ghost f = loss_event(fleet, groups@, initial@);
    assert(before + Seq::<FighterLossEvent>::empty() =~= before);
    for i in 0..initial.len()
        invariant
            f == loss_event(fleet, groups@, initial@),
            events@ == before + collect(i as nat, f),
    {
        let squads_after: u32 = if i < groups.len() {
            groups[i]
        } else {
            0
        };
        let ghost sofar = collect(i as nat, f);
        if initial[i] > squads_after {
            let event: FighterLossEvent = FighterLossEvent {
                fleet,
                fighter_index: i,
                squads_before: initial[i],
                squads_after,
            };
            events.push(event);
            assert((before + sofar).push(event) =~= before + sofar.push(event));
        }
    }
}

impl CombatSystem {
    /// Lists what changed during a battle.
    pub fn build_space_result(
        attacker: FleetKey,
        defender: FleetKey,
        system: SystemKey,
        atk_ships: &Vec<ShipSnap>,
        def_ships: &Vec<ShipSnap>,
        atk_initial_hulls: &Vec<i32>,
        def_initial_hulls: &Vec<i32>,
        atk_places: &Vec<usize>,
        def_places: &Vec<usize>,
        atk_fighters: &Vec<u32>,
        def_fighters: &Vec<u32>,
        atk_initial_fighters: &Vec<u32>,
        def_initial_fighters: &Vec<u32>,
        winner: CombatSide,
        tick: u64,
    ) -> (result: SpaceCombatResult)
        ensures
            result.attacker_fleet == attacker,
            result.defender_fleet == defender,
            result.system == system,
            result.winner == winner,
            result.tick == tick,
            result.ship_damage@ == hull_events(
                attacker,
                atk_ships@,
                atk_initial_hulls@,
                atk_places@,
            ) + hull_events(defender, def_ships@, def_initial_hulls@, def_places@),
            result.fighter_losses@ == loss_events(
                attacker,
                atk_fighters@,
                atk_initial_fighters@,
            ) + loss_events(defender, def_fighters@, def_initial_fighters@),
    {
        let mut ship_damage: Vec<ShipDamageEvent> = Vec::new();
        list_hull_events(attacker, atk_ships, atk_initial_hulls, atk_places, &mut ship_damage);
        list_hull_events(defender, def_ships, def_initial_hulls, def_places, &mut ship_damage);
        let mut fighter_losses: Vec<FighterLossEvent> = Vec::new();
        list_loss_events(attacker, atk_fighters, atk_initial_fighters, &mut fighter_losses);
        list_loss_events(defender, def_fighters, def_initial_fighters, &mut fighter_losses);
        assert(ship_damage@ =~= hull_events(
            attacker,
            atk_ships@,
            atk_initial_hulls@,
            atk_places@,
        ) + hull_events(defender, def_ships@, def_initial_hulls@, def_places@));
        assert(fighter_losses@ =~= loss_events(attacker, atk_fighters@, atk_initial_fighters@)
            + loss_events(defender, def_fighters@, def_initial_fighters@));
        SpaceCombatResult {
            attacker_fleet: attacker,
            defender_fleet: defender,
            system,
            winner,
            ship_damage,
            fighter_losses,
            tick,
        }
    }
}

// ---- The battle ------------------------------------------------------------

/// Both sides before the first shot.
pub open spec fn before_battle(world: GameWorld, attacker: Fleet, defender: Fleet) -> Standing {
    Standing {
        atk_ships: snaps(world, attacker),
        def_ships: snaps(world, defender),
        atk_fighters: roster(attacker),
        def_fighters: roster(defender),
    }
}

/// Whether some hull can fire.
pub open spec fn some_armed(ships: Seq<ShipSnap>) -> bool {
    exists|i: int|
        0 <= i < ships.len() && (#[trigger] ships[i]).alive && ships[i].weapon_nibble > 0
}

/// Both sides after the exchange of fire and the Emperor's influence on it.
pub open spec fn after_fire(
    world: GameWorld,
    attacker: Fleet,
    defender: Fleet,
    dice: SpaceDice,
) -> Standing {
    let b = before_battle(world, attacker, defender);
    let armed = some_armed(b.atk_ships) || some_armed(b.def_ships);
    let def_hit = if armed {
        fired_on(
            b.def_ships,
            fire_of(world, attacker, b.atk_ships),
            ion_of(world, attacker, b.atk_ships),
            dice.fire_on_defender@,
        )
    } else {
        b.def_ships
    };
    let atk_hit = if armed {
        fired_on(
            b.atk_ships,
            fire_of(world, defender, def_hit),
            ion_of(world, defender, def_hit),
            dice.fire_on_attacker@,
        )
    } else {
        b.atk_ships
    };
    Standing {
        atk_ships: if emperor_aboard(world, defender) {
            spurred(atk_hit)
        } else {
            atk_hit
        },
        def_ships: if emperor_aboard(world, attacker) {
            spurred(def_hit)
        } else {
            def_hit
        },
        ..b
    }
}

/// A list of hulls after shields and hull damage.
pub open spec fn through_shields(ships: Seq<ShipSnap>) -> Seq<ShipSnap> {
    Seq::new(ships.len(), |i: int| absorbed(ships[i]))
}

/// A list of hulls after hull damage.
pub open spec fn through_hulls(ships: Seq<ShipSnap>, blows: Seq<i32>, generator_runs: bool) -> Seq<
    ShipSnap,
> {
    Seq::new(ships.len(), |i: int| struck(ships[i], blow_at(ships, blows, i), generator_runs))
}

/// Both sides after shields have absorbed and hulls have been struck.
pub open spec fn after_blows(s: Standing, dice: SpaceDice, generator_runs: bool) -> Standing {
    Standing {
        atk_ships: through_hulls(
            through_shields(s.atk_ships),
            dice.attacker_blows@,
            generator_runs,
        ),
        def_ships: through_hulls(
            through_shields(s.def_ships),
            dice.defender_blows@,
            generator_runs,
        ),
        ..s
    }
}

/// Both sides after the battle. Without armed ships or fighters nothing more
/// happens after the exchange of fire.
pub open spec fn after_battle(
    world: GameWorld,
    attacker: Fleet,
    defender: Fleet,
    dice: SpaceDice,
    generator_runs: bool,
) -> Standing {
    let b = before_battle(world, attacker, defender);
    let s = after_fire(world, attacker, defender, dice);
    if some_armed(b.atk_ships) || some_armed(b.def_ships) || some_left(b.atk_fighters) || some_left(
        b.def_fighters,
    ) {
        fighters_done(
            world,
            attacker,
            defender,
            after_blows(s, dice, generator_runs),
            dice,
            generator_runs,
        )
    } else {
        s
    }
}

/// The hull values of a list.
pub open spec fn hulls(ships: Seq<ShipSnap>) -> Seq<i32> {
    Seq::new(ships.len(), |i: int| ships[i].hull_current)
}

/// Whether a battle can be fought: the fleets exist, their classes are known,
/// and the fire fits the arithmetic.
pub open spec fn battle_ready(
    world: GameWorld,
    attacker: FleetKey,
    defender: FleetKey,
    dice: SpaceDice,
) -> bool {
    &&& world.fleets.has(attacker)
    &&& world.fleets.has(defender)
    &&& classes_known(world, world.fleets.at(attacker))
    &&& classes_known(world, world.fleets.at(defender))
    &&& {
        let a = world.fleets.at(attacker);
        let d = world.fleets.at(defender);
        let b = before_battle(world, a, d);
        let fire = fire_of(world, a, b.atk_ships);
        let ion = ion_of(world, a, b.atk_ships);
        let def_hit = fired_on(b.def_ships, fire, ion, dice.fire_on_defender@);
        let back = fire_of(world, d, def_hit);
        let back_ion = ion_of(world, d, def_hit);
        &&& fire + ion <= i64::MAX
        &&& volley_fits(b.def_ships, fire, ion, dice.fire_on_defender@)
        &&& back + back_ion <= i64::MAX
        &&& volley_fits(b.atk_ships, back, back_ion, dice.fire_on_attacker@)
    }
}

/// Checks whether some hull can fire.
fn any_armed(ships: &Vec<ShipSnap>) -> (found: bool)
    ensures
        found == some_armed(ships@),
{
    for i in 0..ships.len()
        invariant
            forall|j: int|
                0 <= j < i ==> !((#[trigger] ships@[j]).alive && ships@[j].weapon_nibble > 0),
    {
        if ships[i].alive && ships[i].weapon_nibble > 0 {
            assert(ships@[i as int].alive);
            return true;
        }
    }
    false
}

/// Copies the hull values.
fn copy_hulls(ships: &Vec<ShipSnap>) -> (list: Vec<i32>)
    ensures
        list@ == hulls(ships@),
{
    let mut list: Vec<i32> = Vec::new();
    for i in 0..ships.len()
        invariant
            list@ == hulls(ships@).take(i as int),
    {
        list.push(ships[i].hull_current);
        assert(list@ =~= hulls(ships@).take(i + 1));
    }
    assert(list@ =~= hulls(ships@));
    list
}

/// Fresh hulls carry no pending damage.
proof fn lemma_snaps_wf(world: GameWorld, fleet: Fleet, n: nat)
    ensures
        all_wf(collect(n, crate::space::living_snap(world, fleet))),
    decreases n,
{
    if n > 0 {
        let m = (n - 1) as nat;
        let f = crate::space::living_snap(world, fleet);
        lemma_snaps_wf(world, fleet, m);
        assert forall|i: int| 0 <= i < collect(n, f).len() implies (#[trigger] collect(
            n,
            f,
        )[i]).wf() by {
            if i < collect(m, f).len() {
                assert(collect(n, f)[i] == collect(m, f)[i]);
            } else {
                assert(f(m as int) == Some(collect(n, f)[i]));
            }
        }
    }
}

impl CombatSystem {
    /// Fights a space battle between two fleets. The world is left alone; the
    /// result lists what changed.
    pub fn resolve_space(
        world: &GameWorld,
        attacker: FleetKey,
        defender: FleetKey,
        system: SystemKey,
        dice: &SpaceDice,
        tick: u64,
        death_star_shield_active: bool,
    ) -> (result: SpaceCombatResult)
        requires
            battle_ready(*world, attacker, defender, *dice),
        ensures
            result.attacker_fleet == attacker,
            result.defender_fleet == defender,
            result.system == system,
            result.tick == tick,
            ({
                let a = world.fleets.at(attacker);
                let d = world.fleets.at(defender);
                let b = before_battle(*world, a, d);
                let e = after_battle(*world, a, d, *dice, death_star_shield_active);
                &&& result.winner == winner_of(
                    some_alive(e.atk_ships) || some_left(e.atk_fighters),
                    some_alive(e.def_ships) || some_left(e.def_fighters),
                )
                &&& result.winner == CombatSide::Attacker <==> (some_alive(e.atk_ships)
                    || some_left(e.atk_fighters)) && !some_alive(e.def_ships) && !some_left(
                    e.def_fighters,
                )
                &&& result.winner == CombatSide::Defender <==> (some_alive(e.def_ships)
                    || some_left(e.def_fighters)) && !some_alive(e.atk_ships) && !some_left(
                    e.atk_fighters,
                )
                &&& result.ship_damage@ == hull_events(
                    attacker,
                    e.atk_ships,
                    hulls(b.atk_ships),
                    living_places(a),
                ) + hull_events(defender, e.def_ships, hulls(b.def_ships), living_places(d))
                &&& result.fighter_losses@ == loss_events(
                    attacker,
                    e.atk_fighters,
                    b.atk_fighters,
                ) + loss_events(defender, e.def_fighters, b.def_fighters)
            }),
    {
        let (mut atk_ships, mut atk_fighters): (Vec<ShipSnap>, Vec<u32>) =
            CombatSystem::snapshot_fleet(world, attacker);
        let (mut def_ships, mut def_fighters): (Vec<ShipSnap>, Vec<u32>) =
            CombatSystem::snapshot_fleet(world, defender);
        let atk_fleet: &Fleet = world.fleets.at_key(attacker);
        let def_fleet: &Fleet = world.fleets.at_key(defender);
        proof {
            lemma_snaps_wf(*world, *atk_fleet, atk_fleet.capital_ships@.len());
            lemma_snaps_wf(*world, *def_fleet, def_fleet.capital_ships@.len());
        }
        let atk_initial_hulls: Vec<i32> = copy_hulls(&atk_ships);
        let def_initial_hulls: Vec<i32> = copy_hulls(&def_ships);
        let atk_places: Vec<usize> = list_places(atk_fleet);
        let def_places: Vec<usize> = list_places(def_fleet);
        let atk_initial_fighters: Vec<u32> = copy_counts(&atk_fighters);
        let def_initial_fighters: Vec<u32> = copy_counts(&def_fighters);
        let mut flags: CombatPhaseFlags = CombatPhaseFlags::new(CombatPhaseFlags::ACTIVE);
        proof {
            assert(0x0001u32 & 0x0001u32 != 0) by (bit_vector);
            assert(0x0001u32 & 0x0040u32 == 0) by (bit_vector);
            assert((0x0001u32 | 0x0040u32) & 0x0040u32 != 0) by (bit_vector);
        }
        let armed: bool = any_armed(&atk_ships) || any_armed(&def_ships);
        let flying: bool = any_left(&atk_fighters) || any_left(&def_fighters);
        if flags.contains(CombatPhaseFlags::ACTIVE) && !flags.contains(
            CombatPhaseFlags::PHASES_ENABLED,
        ) && armed {
            CombatSystem::phase_weapon_fire(
                world,
                attacker,
                &atk_ships,
                &mut def_ships,
                &dice.fire_on_defender,
            );
            CombatSystem::phase_weapon_fire(
                world,
                defender,
                &def_ships,
                &mut atk_ships,
                &dice.fire_on_attacker,
            );
        }
        if find_emperor(world, atk_fleet) {
            spur(&mut def_ships);
        }
        if find_emperor(world, def_fleet) {
            spur(&mut atk_ships);
        }
        let ghost fired = after_fire(*world, *atk_fleet, *def_fleet, *dice);
        assert(atk_ships@ == fired.atk_ships);
        assert(def_ships@ == fired.def_ships);
        if armed || flying {
            flags.set(CombatPhaseFlags::PHASES_ENABLED);
        }
        if flags.contains(CombatPhaseFlags::PHASES_ENABLED) {
            CombatSystem::phase_shield_absorb(&mut atk_ships);
            CombatSystem::phase_shield_absorb(&mut def_ships);
            CombatSystem::phase_hull_damage(
                &mut atk_ships,
                &dice.attacker_blows,
                death_star_shield_active,
            );
            CombatSystem::phase_hull_damage(
                &mut def_ships,
                &dice.defender_blows,
                death_star_shield_active,
            );
            let ghost blown = after_blows(fired, *dice, death_star_shield_active);
            assert(atk_ships@ =~= blown.atk_ships);
            assert(def_ships@ =~= blown.def_ships);
            CombatSystem::phase_fighter_engage(
                world,
                attacker,
                defender,
                &mut atk_fighters,
                &mut def_fighters,
                &mut atk_ships,
                &mut def_ships,
                dice,
                death_star_shield_active,
            );
        }
        let winner: CombatSide = decide(
            any_alive_snap(&atk_ships) || any_left(&atk_fighters),
            any_alive_snap(&def_ships) || any_left(&def_fighters),
        );
        CombatSystem::build_space_result(
            attacker,
            defender,
            system,
            &atk_ships,
            &def_ships,
            &atk_initial_hulls,
            &def_initial_hulls,
            &atk_places,
            &def_places,
            &atk_fighters,
            &def_fighters,
            &atk_initial_fighters,
            &def_initial_fighters,
            winner,
            tick,
        )
    }
}

} // verus!
