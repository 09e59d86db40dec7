//! What the computer player builds, in terms of the world it looks at.

use crate::ai::{AiFaction, Order};
use crate::ai_production::{
    best_capital_ship, best_fighter, build_choice, build_order, first_of_side, flown, means,
    own_defense, own_troop, own_yard, pattern_defense, pattern_troop, pattern_yard, sailed,
    ships_of, squadrons, squadrons_of, fleet_ships, fleet_squadrons,
};
use crate::arena::lemma_slots_bounded;
use crate::dat::Faction;
use crate::ids::{CapitalShipKey, FighterKey, SystemKey};
use crate::manufacturing::{BuildableKind, ManufacturingState};
use crate::select::{
    collect, gives, is_last_max, last_max, lemma_collect_covers, lemma_last_max_tops,
    lemma_tally_same, lemma_total_but_one, lemma_total_same, tally, total,
};
use crate::tuning::GameConfig;
use crate::world::{
    law_living_ships_count, ControlKind, FighterEntry, Fleet, GameWorld, ShipInstance,
};
use vstd::prelude::*;

verus! {

// ---- Classes ---------------------------------------------------------------

/// The capital ship class chosen is one that the faction sails, and no class
/// that it sails has a stronger hull. One is chosen whenever the faction sails
/// any; of equals it is the last.
pub proof fn law_best_ship_has_the_strongest_hull(
    world: GameWorld,
    faction: AiFaction,
    other: CapitalShipKey,
)
    ensures
        ({
            let sails = |key: CapitalShipKey|
                world.capital_ship_classes.has(key) && match faction {
                    AiFaction::Alliance => world.capital_ship_classes.at(key).is_alliance,
                    AiFaction::Empire => world.capital_ship_classes.at(key).is_empire,
                };
            let best = best_capital_ship(world, faction);
            &&& best is Some ==> sails(best->0)
            &&& sails(other) ==> {
                &&& best is Some
                &&& world.capital_ship_classes.at(other).hull <= world.capital_ship_classes.at(
                    best->0,
                ).hull
                &&& other.slot > best->0.slot ==> world.capital_ship_classes.at(other).hull
                    < world.capital_ship_classes.at(best->0).hull
            }
        }),
{
    let f = sailed(world, faction);
    let n = world.capital_ship_classes@.len();
    let found = collect(n, f);
    lemma_slots_bounded(&world.capital_ship_classes);
    lemma_collect_covers(n, f);
    lemma_collect_rises(n, f, |e: (CapitalShipKey, i128)| e.0.slot as int);
    let sails = |key: CapitalShipKey|
        world.capital_ship_classes.has(key) && match faction {
            AiFaction::Alliance => world.capital_ship_classes.at(key).is_alliance,
            AiFaction::Empire => world.capital_ship_classes.at(key).is_empire,
        };
    if sails(other) {
        assert(f(other.slot as int) is Some);
        assert(found.contains(f(other.slot as int)->0));
    }
    if found.len() > 0 {
        lemma_last_max_tops(found);
        let a = choose|a: int| #[trigger]
            is_last_max(found, a) && last_max(found) == Some(found[a].0);
        assert(gives(n, f, found[a]));
        let i = choose|i: int| 0 <= i < n && #[trigger] f(i) == Some(found[a]);
        assert(found[a].0.slot == i);
        if sails(other) {
            let b = choose|b: int| 0 <= b < found.len() && found[b] == f(other.slot as int)->0;
            assert(found[b].1 <= found[a].1);
            if other.slot > found[a].0.slot {
                if b <= a {
                    assert(b == a || found[b].0.slot < found[a].0.slot);
                }
                assert(found[b].1 < found[a].1);
            }
        }
    }
}

/// The fighter class chosen is one that the faction flies, and no class that
/// it flies costs more. One is chosen whenever the faction flies any; of
/// equals it is the last.
pub proof fn law_best_fighter_costs_most(world: GameWorld, faction: AiFaction, other: FighterKey)
    ensures
        ({
            let flies = |key: FighterKey|
                world.fighter_classes.has(key) && match faction {
                    AiFaction::Alliance => world.fighter_classes.at(key).is_alliance,
                    AiFaction::Empire => world.fighter_classes.at(key).is_empire,
                };
            let best = best_fighter(world, faction);
            &&& best is Some ==> flies(best->0)
            &&& flies(other) ==> {
                &&& best is Some
                &&& world.fighter_classes.at(other).refined_material_cost
                    <= world.fighter_classes.at(best->0).refined_material_cost
                &&& other.slot > best->0.slot ==> world.fighter_classes.at(
                    other,
                ).refined_material_cost < world.fighter_classes.at(best->0).refined_material_cost
            }
        }),
{
    let f = flown(world, faction);
    let n = world.fighter_classes@.len();
    let found = collect(n, f);
    lemma_slots_bounded(&world.fighter_classes);
    lemma_collect_covers(n, f);
    lemma_collect_rises(n, f, |e: (FighterKey, i128)| e.0.slot as int);
    let flies = |key: FighterKey|
        world.fighter_classes.has(key) && match faction {
            AiFaction::Alliance => world.fighter_classes.at(key).is_alliance,
            AiFaction::Empire => world.fighter_classes.at(key).is_empire,
        };
    if flies(other) {
        assert(f(other.slot as int) is Some);
        assert(found.contains(f(other.slot as int)->0));
    }
    if found.len() > 0 {
        lemma_last_max_tops(found);
        let a = choose|a: int| #[trigger]
            is_last_max(found, a) && last_max(found) == Some(found[a].0);
        assert(gives(n, f, found[a]));
        let i = choose|i: int| 0 <= i < n && #[trigger] f(i) == Some(found[a]);
        assert(found[a].0.slot == i);
        if flies(other) {
            let b = choose|b: int| 0 <= b < found.len() && found[b] == f(other.slot as int)->0;
            assert(found[b].1 <= found[a].1);
            if other.slot > found[a].0.slot {
                if b <= a {
                    assert(b == a || found[b].0.slot < found[a].0.slot);
                }
                assert(found[b].1 < found[a].1);
            }
        }
    }
}

/// What is collected slot by slot comes in the order of the slots.
pub(crate) proof fn lemma_collect_rises<A>(
    n: nat,
    f: spec_fn(int) -> Option<A>,
    slot: spec_fn(A) -> int,
)
    requires
        forall|i: int| 0 <= i < n && (#[trigger] f(i)) is Some ==> slot(f(i)->0) == i,
    ensures
        forall|a: int, b: int|
            0 <= a < b < collect(n, f).len() ==> slot(#[trigger] collect(n, f)[a]) < slot(
                #[trigger] collect(n, f)[b],
            ),
        forall|a: int| 0 <= a < collect(n, f).len() ==> slot(#[trigger] collect(n, f)[a]) < n,
    decreases n,
{
    if n > 0 {
        let m = (n - 1) as nat;
        lemma_collect_rises(m, f, slot);
        let before = collect(m, f);
        let after = collect(n, f);
        if f(m as int) is Some {
            assert(after == before.push(f(m as int)->0));
            assert forall|a: int, b: int| 0 <= a < b < after.len() implies slot(
                #[trigger] after[a],
            ) < slot(#[trigger] after[b]) by {
                assert(before[a] == after[a]);
                if b < before.len() {
                    assert(before[b] == after[b]);
                }
            }
            assert forall|a: int| 0 <= a < after.len() implies slot(#[trigger] after[a]) < n by {
                if a < before.len() {
                    assert(before[a] == after[a]);
                }
            }
        }
    }
}

/// The pattern for a yard, a regiment or a defense facility is of the side,
/// and none of the side comes before it; there is one whenever the side has
/// any.
pub proof fn law_patterns_are_the_first(world: GameWorld, side: bool, slot: int)
    ensures
        ({
            let yards = world.manufacturing_facilities@;
            let yard = pattern_yard(world, side);
            &&& yard is Some ==> world.manufacturing_facilities.has(yard->0)
                && world.manufacturing_facilities.at(yard->0).is_alliance == side
            &&& 0 <= slot < yards.len() && yards[slot] is Some && (yards[slot]->0).is_alliance
                == side ==> yard is Some && yard->0.slot <= slot
        }),
        ({
            let troops = world.troops@;
            let troop = pattern_troop(world, side);
            &&& troop is Some ==> world.troops.has(troop->0) && world.troops.at(
                troop->0,
            ).is_alliance == side
            &&& 0 <= slot < troops.len() && troops[slot] is Some && (troops[slot]->0).is_alliance
                == side ==> troop is Some && troop->0.slot <= slot
        }),
        ({
            let defenses = world.defense_facilities@;
            let defense = pattern_defense(world, side);
            &&& defense is Some ==> world.defense_facilities.has(defense->0)
                && world.defense_facilities.at(defense->0).is_alliance == side
            &&& 0 <= slot < defenses.len() && defenses[slot] is Some && (
            defenses[slot]->0).is_alliance == side ==> defense is Some && defense->0.slot <= slot
        }),
{
    lemma_slots_bounded(&world.manufacturing_facilities);
    lemma_slots_bounded(&world.troops);
    lemma_slots_bounded(&world.defense_facilities);
    lemma_first_of_side(
        world.manufacturing_facilities@,
        |f: crate::world::ManufacturingFacilityInstance| f.is_alliance == side,
        0,
        slot,
    );
    lemma_first_of_side(
        world.troops@,
        |t: crate::world::TroopUnit| t.is_alliance == side,
        0,
        slot,
    );
    lemma_first_of_side(
        world.defense_facilities@,
        |d: crate::world::DefenseFacilityInstance| d.is_alliance == side,
        0,
        slot,
    );
}

proof fn lemma_first_of_side<T>(
    slots: Seq<Option<T>>,
    of_side: spec_fn(T) -> bool,
    from: nat,
    slot: int,
)
    ensures
        first_of_side(slots, of_side, from) matches Some(i) ==> from <= i < slots.len() && slots[i]
            is Some && of_side(slots[i]->0),
        from <= slot < slots.len() && slots[slot] is Some && of_side(slots[slot]->0)
            ==> first_of_side(slots, of_side, from) is Some && first_of_side(
            slots,
            of_side,
            from,
        )->0 <= slot,
    decreases slots.len() - from,
{
    if from < slots.len() {
        lemma_first_of_side(slots, of_side, from + 1, slot);
    }
}

// ---- Counts ----------------------------------------------------------------

/// A ship that joins a fleet counts for the fleet's side exactly if it is
/// alive, and for the other side not at all. A galaxy without fleets has no
/// ships and no squadrons.
pub proof fn law_every_ship_counts(
    world: GameWorld,
    larger: GameWorld,
    slot: int,
    grown: Fleet,
    ship: ShipInstance,
    side: bool,
)
    requires
        0 <= slot < world.fleets@.len(),
        world.fleets@[slot] is Some,
        grown.capital_ships@ == (world.fleets@[slot]->0).capital_ships@.push(ship),
        grown.fighters@ == (world.fleets@[slot]->0).fighters@,
        grown.is_alliance == (world.fleets@[slot]->0).is_alliance,
        larger.fleets@ == world.fleets@.update(slot, Some(grown)),
    ensures
        ships_of(larger, side) - ships_of(world, side) == if ship.alive && grown.is_alliance
            == side {
            1int
        } else {
            0
        },
        squadrons_of(larger, side) == squadrons_of(world, side),
{
    let n = world.fleets@.len();
    let before = (world.fleets@[slot]->0).capital_ships@;
    law_living_ships_count(before, ship);
    lemma_total_but_one(n, fleet_ships(world, side), fleet_ships(larger, side), slot);
    lemma_total_same(n, fleet_squadrons(world, side), fleet_squadrons(larger, side));
}

/// Squadrons that join a fleet count for the fleet's side, one by one.
pub proof fn law_every_squadron_counts(
    world: GameWorld,
    larger: GameWorld,
    slot: int,
    grown: Fleet,
    group: FighterEntry,
    side: bool,
)
    requires
        0 <= slot < world.fleets@.len(),
        world.fleets@[slot] is Some,
        grown.capital_ships@ == (world.fleets@[slot]->0).capital_ships@,
        grown.fighters@ == (world.fleets@[slot]->0).fighters@.push(group),
        grown.is_alliance == (world.fleets@[slot]->0).is_alliance,
        larger.fleets@ == world.fleets@.update(slot, Some(grown)),
    ensures
        squadrons_of(larger, side) - squadrons_of(world, side) == if grown.is_alliance == side {
            group.count as int
        } else {
            0
        },
        ships_of(larger, side) == ships_of(world, side),
{
    let n = world.fleets@.len();
    let before = (world.fleets@[slot]->0).fighters@;
    let after = grown.fighters@;
    let f = |i: int| before[i].count as int;
    let g = |i: int| after[i].count as int;
    lemma_total_same(before.len(), f, g);
    assert(squadrons(after) == squadrons(before) + group.count) by {
        assert(squadrons(before) == total(before.len(), f));
        assert(squadrons(after) == total(after.len(), g));
    }
    lemma_total_but_one(n, fleet_squadrons(world, side), fleet_squadrons(larger, side), slot);
    lemma_total_same(n, fleet_ships(world, side), fleet_ships(larger, side));
}

/// Without fleets nobody has ships or squadrons.
pub proof fn law_no_fleets_no_ships(world: GameWorld, side: bool)
    requires
        forall|i: int| 0 <= i < world.fleets@.len() ==> (#[trigger] world.fleets@[i]) is None,
    ensures
        ships_of(world, side) == 0,
        squadrons_of(world, side) == 0,
{
    let zero = |i: int| 0int;
    let n = world.fleets@.len();
    lemma_total_same(n, fleet_ships(world, side), zero);
    lemma_total_same(n, fleet_squadrons(world, side), zero);
    lemma_nothing(n);
}

proof fn lemma_nothing(n: nat)
    ensures
        total(n, |i: int| 0int) == 0,
    decreases n,
{
    if n > 0 {
        lemma_nothing((n - 1) as nat);
    }
}

/// An order joins the queue of its own system and of no other.
pub proof fn law_queues_are_kept_apart(
    queues: ManufacturingState,
    longer: ManufacturingState,
    item: crate::manufacturing::QueueItem,
    system: SystemKey,
)
    requires
        longer.items@ == queues.items@.push(item),
    ensures
        longer.queue_len_spec(system) - queues.queue_len_spec(system) == if item.system == system {
            1int
        } else {
            0
        },
{
    let a = queues.items@;
    let b = longer.items@;
    lemma_tally_same(a.len(), |i: int| a[i].system == system, |i: int| b[i].system == system);
}

// ---- What is built ---------------------------------------------------------

/// Whether a system may be given something to build: the faction holds it,
/// one of the yards there is the faction's, and fewer than three orders wait.
pub open spec fn can_build(
    world: GameWorld,
    mfg: ManufacturingState,
    faction: AiFaction,
    key: SystemKey,
) -> bool {
    let sys = world.systems.at(key);
    &&& world.systems.has(key)
    &&& sys.control == ControlKind::Controlled(
        match faction {
            AiFaction::Alliance => Faction::Alliance,
            AiFaction::Empire => Faction::Empire,
        },
    )
    &&& exists|j: int|
        0 <= j < sys.manufacturing_facilities@.len() && world.manufacturing_facilities.has(
            #[trigger] sys.manufacturing_facilities@[j],
        ) && world.manufacturing_facilities.at(sys.manufacturing_facilities@[j]).is_alliance == (
        faction == AiFaction::Alliance)
    &&& mfg.queue_len_spec(key) < 3
}

/// Orders go to systems that can build, one to each, and to every system that
/// can build as long as the faction has a capital ship class.
pub proof fn law_yards_are_kept_busy(
    world: GameWorld,
    mfg: ManufacturingState,
    faction: AiFaction,
    config: GameConfig,
    key: SystemKey,
)
    ensures
        ({
            let list = collect(
                world.systems@.len(),
                build_order(world, mfg, faction.rebel(), config, means(world, faction)),
            );
            &&& forall|k: int|
                0 <= k < list.len() ==> (#[trigger] list[k]) is Production && can_build(
                    world,
                    mfg,
                    faction,
                    list[k]->Production_system,
                )
            &&& forall|j: int, k: int|
                0 <= j < k < list.len() ==> (#[trigger] list[j])->Production_system.slot < (
                #[trigger] list[k])->Production_system.slot
            &&& can_build(world, mfg, faction, key) && best_capital_ship(world, faction) is Some
                ==> exists|k: int|
                0 <= k < list.len() && (#[trigger] list[k])->Production_system == key
        }),
{
    let f = build_order(world, mfg, faction.rebel(), config, means(world, faction));
    let n = world.systems@.len();
    let list = collect(n, f);
    lemma_slots_bounded(&world.systems);
    lemma_collect_covers(n, f);
    assert forall|i: int| 0 <= i < n && (#[trigger] f(i)) is Some implies f(i)->0 is Production
        && f(i)->0->Production_system.slot == i && can_build(
        world,
        mfg,
        faction,
        f(i)->0->Production_system,
    ) by {
        let sys = world.systems@[i]->0;
        let j = choose|j: int| own_yard(world, sys, faction.rebel(), j);
        assert(own_yard(world, sys, faction.rebel(), j));
        assert(world.manufacturing_facilities.has(sys.manufacturing_facilities@[j]));
    }
    lemma_collect_rises(n, f, |o: Order| o->Production_system.slot as int);
    assert forall|k: int| 0 <= k < list.len() implies (#[trigger] list[k]) is Production
        && can_build(world, mfg, faction, list[k]->Production_system) by {
        assert(gives(n, f, list[k]));
        let i = choose|i: int| 0 <= i < n && #[trigger] f(i) == Some(list[k]);
    }
    if can_build(world, mfg, faction, key) && best_capital_ship(world, faction) is Some {
        let sys = world.systems.at(key);
        let j = choose|j: int|
            0 <= j < sys.manufacturing_facilities@.len() && world.manufacturing_facilities.has(
                #[trigger] sys.manufacturing_facilities@[j],
            ) && world.manufacturing_facilities.at(sys.manufacturing_facilities@[j]).is_alliance
                == (faction == AiFaction::Alliance);
        assert(own_yard(world, sys, faction.rebel(), j));
        let i = key.slot as int;
        assert(f(i) is Some);
        assert(list.contains(f(i)->0));
        let k = choose|k: int| 0 <= k < list.len() && list[k] == f(i)->0;
        assert(list[k]->Production_system == key);
    }
}

/// How many of a system's regiments are of a side.
pub open spec fn regiments_of(world: GameWorld, key: SystemKey, side: bool) -> nat {
    let list = world.systems.at(key).ground_units@;
    tally(
        list.len(),
        |i: int| world.troops.has(list[i]) && world.troops.at(list[i]).is_alliance == side,
    )
}

/// How many of a system's defense facilities are of a side.
pub open spec fn defenses_of(world: GameWorld, key: SystemKey, side: bool) -> nat {
    let list = world.systems.at(key).defense_facilities@;
    tally(
        list.len(),
        |i: int|
            world.defense_facilities.has(list[i]) && world.defense_facilities.at(
                list[i],
            ).is_alliance == side,
    )
}

/// What a system that can build is told to build. Short of ships, it builds
/// the best capital ship. With ships enough, or none to build, it builds the
/// best fighter as long as there are fewer squadrons than the ships call for,
/// or no ships to build at all. Only then come regiments and defenses, each
/// until there are two, and yards up to the limit; and capital ships again
/// where nothing is lacking.
pub proof fn law_what_is_lacking_is_built(
    world: GameWorld,
    mfg: ManufacturingState,
    faction: AiFaction,
    config: GameConfig,
    key: SystemKey,
)
    requires
        can_build(world, mfg, faction, key),
    ensures
        ({
            let side = faction == AiFaction::Alliance;
            let list = collect(
                world.systems@.len(),
                build_order(world, mfg, faction.rebel(), config, means(world, faction)),
            );
            let told = |kind: BuildableKind, ticks: u32|
                list.contains(Order::Production { system: key, kind, ticks });
            let ship = best_capital_ship(world, faction);
            let ship_cost = world.capital_ship_classes.at(ship->0).refined_material_cost;
            let ship_days: u32 = if ship_cost < 20 {
                20
            } else {
                ship_cost
            };
            let wing = best_fighter(world, faction);
            let wing_cost = world.fighter_classes.at(wing->0).refined_material_cost;
            let wing_days: u32 = if wing_cost < 5 {
                5
            } else {
                wing_cost
            };
            let short_of_ships = ship is Some && ships_of(world, side)
                < config.production.capship_threshold;
            let short_of_wings = wing is Some && (ship is None || squadrons_of(world, side)
                < ships_of(world, side) * config.production.fighter_ratio);
            let troop = pattern_troop(world, side);
            let short_of_troops = troop is Some && regiments_of(world, key, side) <= 1;
            let fort = pattern_defense(world, side);
            let short_of_forts = fort is Some && defenses_of(world, key, side) <= 1;
            let yard = pattern_yard(world, side);
            let short_of_yards = yard is Some && world.systems.at(
                key,
            ).manufacturing_facilities@.len() < config.ai.max_construction_yards;
            &&& short_of_ships ==> told(BuildableKind::CapitalShip(ship->0), ship_days)
            &&& !short_of_ships && short_of_wings ==> told(
                BuildableKind::Fighter(wing->0),
                wing_days,
            )
            &&& !short_of_ships && !short_of_wings && short_of_troops ==> told(
                BuildableKind::Troop(troop->0),
                15,
            )
            &&& !short_of_ships && !short_of_wings && !short_of_troops && short_of_forts ==> told(
                BuildableKind::DefenseFacility(fort->0),
                25,
            )
            &&& !short_of_ships && !short_of_wings && !short_of_troops && !short_of_forts
                && short_of_yards ==> told(BuildableKind::ManufacturingFacility(yard->0), 30)
            &&& ship is Some && !short_of_wings && !short_of_troops && !short_of_forts
                && !short_of_yards ==> told(BuildableKind::CapitalShip(ship->0), ship_days)
        }),
{
    let side = faction == AiFaction::Alliance;
    let m = means(world, faction);
    let f = build_order(world, mfg, faction.rebel(), config, m);
    let n = world.systems@.len();
    lemma_slots_bounded(&world.systems);
    lemma_collect_covers(n, f);
    let sys = world.systems.at(key);
    let j = choose|j: int|
        0 <= j < sys.manufacturing_facilities@.len() && world.manufacturing_facilities.has(
            #[trigger] sys.manufacturing_facilities@[j],
        ) && world.manufacturing_facilities.at(sys.manufacturing_facilities@[j]).is_alliance == (
        faction == AiFaction::Alliance);
    assert(own_yard(world, sys, side, j));
    let troops = sys.ground_units@;
    lemma_tally_same(
        troops.len(),
        own_troop(world, sys, side),
        |i: int| world.troops.has(troops[i]) && world.troops.at(troops[i]).is_alliance == side,
    );
    let forts = sys.defense_facilities@;
    lemma_tally_same(
        forts.len(),
        own_defense(world, sys, side),
        |i: int|
            world.defense_facilities.has(forts[i]) && world.defense_facilities.at(
                forts[i],
            ).is_alliance == side,
    );
    let i = key.slot as int;
    assert(f(i) == build_choice(world, side, config, m, key, sys));
    if f(i) is Some {
        assert(collect(n, f).contains(f(i)->0));
    }
}

} // verus!
