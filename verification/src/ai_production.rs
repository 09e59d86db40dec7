//! What the computer player builds.

use crate::ai::{issue, orders, AIAction, AISystem, AiFaction, Order};
use crate::ai_strength::{faction_of, side_faction};
use crate::arena::occupied;
use crate::ids::{
    CapitalShipKey, DefenseFacilityKey, FighterKey, ManufacturingFacilityKey, SystemKey, TroopKey,
};
use crate::manufacturing::{BuildableKind, ManufacturingState};
use crate::select::{collect, last_max, lemma_total_monotone, pick_last_max, tally, total};
use crate::tuning::GameConfig;
use crate::world::{alive_ships, CapitalShipClass, FighterClass, FighterEntry, GameWorld, System};
use vstd::prelude::*;

verus! {

// ---- Classes to build ------------------------------------------------------

/// Fighter class `i` with its cost, if the faction flies it.
pub open spec fn flown(world: GameWorld, faction: AiFaction) -> spec_fn(int) -> Option<
    (FighterKey, i128),
> {
    |i: int|
        if occupied(world.fighter_classes@, i) && (if faction.rebel() {
            (world.fighter_classes@[i]->0).is_alliance
        } else {
            (world.fighter_classes@[i]->0).is_empire
        }) {
            Some(
                (
                    FighterKey { slot: i as usize },
                    (world.fighter_classes@[i]->0).refined_material_cost as i128,
                ),
            )
        } else {
            None
        }
}

/// Capital ship class `i` with its hull, if the faction sails it.
pub open spec fn sailed(world: GameWorld, faction: AiFaction) -> spec_fn(int) -> Option<
    (CapitalShipKey, i128),
> {
    |i: int|
        if occupied(world.capital_ship_classes@, i) && (if faction.rebel() {
            (world.capital_ship_classes@[i]->0).is_alliance
        } else {
            (world.capital_ship_classes@[i]->0).is_empire
        }) {
            Some(
                (
                    CapitalShipKey { slot: i as usize },
                    (world.capital_ship_classes@[i]->0).hull as i128,
                ),
            )
        } else {
            None
        }
}

/// The faction's most expensive fighter class.
pub open spec fn best_fighter(world: GameWorld, faction: AiFaction) -> Option<FighterKey> {
    last_max(collect(world.fighter_classes@.len(), flown(world, faction)))
}

/// The faction's capital ship class with the strongest hull.
pub open spec fn best_capital_ship(world: GameWorld, faction: AiFaction) -> Option<CapitalShipKey> {
    last_max(collect(world.capital_ship_classes@.len(), sailed(world, faction)))
}

/// Whether some entity among the first `n` slots is of the side.
pub open spec fn first_of_side<T>(
    slots: Seq<Option<T>>,
    of_side: spec_fn(T) -> bool,
    from: nat,
) -> Option<int>
    decreases slots.len() - from,
{
    if from >= slots.len() {
        None
    } else if slots[from as int] is Some && of_side(slots[from as int]->0) {
        Some(from as int)
    } else {
        first_of_side(slots, of_side, from + 1)
    }
}

/// The first manufacturing facility of a side.
pub open spec fn pattern_yard(world: GameWorld, side: bool) -> Option<ManufacturingFacilityKey> {
    match first_of_side(
        world.manufacturing_facilities@,
        |f: crate::world::ManufacturingFacilityInstance| f.is_alliance == side,
        0,
    ) {
        Some(i) => Some(ManufacturingFacilityKey { slot: i as usize }),
        None => None,
    }
}

/// The first regiment of a side.
pub open spec fn pattern_troop(world: GameWorld, side: bool) -> Option<TroopKey> {
    match first_of_side(world.troops@, |t: crate::world::TroopUnit| t.is_alliance == side, 0) {
        Some(i) => Some(TroopKey { slot: i as usize }),
        None => None,
    }
}

/// The first defense facility of a side.
pub open spec fn pattern_defense(world: GameWorld, side: bool) -> Option<DefenseFacilityKey> {
    match first_of_side(
        world.defense_facilities@,
        |d: crate::world::DefenseFacilityInstance| d.is_alliance == side,
        0,
    ) {
        Some(i) => Some(DefenseFacilityKey { slot: i as usize }),
        None => None,
    }
}

impl AISystem {
    /// The faction's most expensive fighter class.
    pub fn best_fighter_class(world: &GameWorld, faction: AiFaction) -> (best: Option<
        (FighterKey, &FighterClass),
    >)
        ensures
            best is Some <==> best_fighter(*world, faction) is Some,
            best matches Some((key, class)) ==> {
                &&& best_fighter(*world, faction) == Some(key)
                &&& world.fighter_classes.has(key)
                &&& *class == world.fighter_classes.at(key)
            },
    {
        let ghost f = flown(*world, faction);
        let mut found: Vec<(FighterKey, i128)> = Vec::new();
        let count: usize = world.fighter_classes.slot_count();
        for i in 0..count
            invariant
                count == world.fighter_classes@.len(),
                f == flown(*world, faction),
                found@ == collect(i as nat, f),
                forall|k: int|
                    0 <= k < found@.len() ==> world.fighter_classes.has((#[trigger] found@[k]).0),
        {
            if let Some(class) = world.fighter_classes.slot(i) {
                let ours: bool = match faction {
                    AiFaction::Alliance => class.is_alliance,
                    AiFaction::Empire => class.is_empire,
                };
                if ours {
                    found.push((FighterKey { slot: i }, class.refined_material_cost as i128));
                }
            }
        }
        match pick_last_max(&found) {
            Some(key) => {
                proof {
                    crate::select::lemma_last_max_listed(found@);
                }
                Some((key, world.fighter_classes.at_key(key)))
            },
            None => None,
        }
    }

    /// The faction's capital ship class with the strongest hull.
    pub fn best_capital_ship_class(world: &GameWorld, faction: AiFaction) -> (best: Option<
        (CapitalShipKey, &CapitalShipClass),
    >)
        ensures
            best is Some <==> best_capital_ship(*world, faction) is Some,
            best matches Some((key, class)) ==> {
                &&& best_capital_ship(*world, faction) == Some(key)
                &&& world.capital_ship_classes.has(key)
                &&& *class == world.capital_ship_classes.at(key)
            },
    {
        let ghost f = sailed(*world, faction);
        let mut found: Vec<(CapitalShipKey, i128)> = Vec::new();
        let count: usize = world.capital_ship_classes.slot_count();
        for i in 0..count
            invariant
                count == world.capital_ship_classes@.len(),
                f == sailed(*world, faction),
                found@ == collect(i as nat, f),
                forall|k: int|
                    0 <= k < found@.len() ==> world.capital_ship_classes.has(
                        (#[trigger] found@[k]).0,
                    ),
        {
            if let Some(class) = world.capital_ship_classes.slot(i) {
                let ours: bool = match faction {
                    AiFaction::Alliance => class.is_alliance,
                    AiFaction::Empire => class.is_empire,
                };
                if ours {
                    found.push((CapitalShipKey { slot: i }, class.hull as i128));
                }
            }
        }
        match pick_last_max(&found) {
            Some(key) => {
                proof {
                    crate::select::lemma_last_max_listed(found@);
                }
                Some((key, world.capital_ship_classes.at_key(key)))
            },
            None => None,
        }
    }

    /// The first manufacturing facility of the faction, as a pattern to copy.
    pub fn find_manufacturing_facility_class(world: &GameWorld, faction: AiFaction) -> (found: Option<
        ManufacturingFacilityKey,
    >)
        ensures
            found == pattern_yard(*world, faction.rebel()),
    {
        let side: bool = faction.is_alliance();
        let ghost p = |f: crate::world::ManufacturingFacilityInstance| f.is_alliance == side;
        let slots: usize = world.manufacturing_facilities.slot_count();
        let mut i: usize = 0;
        while i < slots
            invariant
                i <= slots,
                slots == world.manufacturing_facilities@.len(),
                p == (|f: crate::world::ManufacturingFacilityInstance| f.is_alliance == side),
                first_of_side(world.manufacturing_facilities@, p, 0) == first_of_side(
                    world.manufacturing_facilities@,
                    p,
                    i as nat,
                ),
                side == faction.rebel(),
            decreases slots - i,
        {
            if let Some(f) = world.manufacturing_facilities.slot(i) {
                if f.is_alliance == side {
                    return Some(ManufacturingFacilityKey { slot: i });
                }
            }
            i = i + 1;
        }
        None
    }

    /// The first regiment of the faction, as a pattern to copy.
    pub fn find_troop_class(world: &GameWorld, faction: AiFaction) -> (found: Option<TroopKey>)
        ensures
            found == pattern_troop(*world, faction.rebel()),
    {
        let side: bool = faction.is_alliance();
        let ghost p = |t: crate::world::TroopUnit| t.is_alliance == side;
        let slots: usize = world.troops.slot_count();
        let mut i: usize = 0;
        while i < slots
            invariant
                i <= slots,
                slots == world.troops@.len(),
                p == (|t: crate::world::TroopUnit| t.is_alliance == side),
                first_of_side(world.troops@, p, 0) == first_of_side(world.troops@, p, i as nat),
                side == faction.rebel(),
            decreases slots - i,
        {
            if let Some(t) = world.troops.slot(i) {
                if t.is_alliance == side {
                    return Some(TroopKey { slot: i });
                }
            }
            i = i + 1;
        }
        None
    }

    /// The first defense facility of the faction, as a pattern to copy.
    pub fn find_defense_facility_class(world: &GameWorld, faction: AiFaction) -> (found: Option<
        DefenseFacilityKey,
    >)
        ensures
            found == pattern_defense(*world, faction.rebel()),
    {
        let side: bool = faction.is_alliance();
        let ghost p = |d: crate::world::DefenseFacilityInstance| d.is_alliance == side;
        let slots: usize = world.defense_facilities.slot_count();
        let mut i: usize = 0;
        while i < slots
            invariant
                i <= slots,
                slots == world.defense_facilities@.len(),
                p == (|d: crate::world::DefenseFacilityInstance| d.is_alliance == side),
                first_of_side(world.defense_facilities@, p, 0) == first_of_side(
                    world.defense_facilities@,
                    p,
                    i as nat,
                ),
                side == faction.rebel(),
            decreases slots - i,
        {
            if let Some(d) = world.defense_facilities.slot(i) {
                if d.is_alliance == side {
                    return Some(DefenseFacilityKey { slot: i });
                }
            }
            i = i + 1;
        }
        None
    }
}

// ---- What the faction has --------------------------------------------------

/// Living capital ships of fleet `i`, if it is of the side.
pub open spec fn fleet_ships(world: GameWorld, side: bool) -> spec_fn(int) -> int {
    |i: int|
        if occupied(world.fleets@, i) && (world.fleets@[i]->0).is_alliance == side {
            alive_ships(
                (world.fleets@[i]->0).capital_ships@,
                (world.fleets@[i]->0).capital_ships@.len(),
            ) as int
        } else {
            0
        }
}

/// Squadrons in a list of fighter entries.
pub open spec fn squadrons(entries: Seq<FighterEntry>) -> int {
    total(entries.len(), |i: int| entries[i].count as int)
}

/// Squadrons of fleet `i`, if it is of the side.
pub open spec fn fleet_squadrons(world: GameWorld, side: bool) -> spec_fn(int) -> int {
    |i: int|
        if occupied(world.fleets@, i) && (world.fleets@[i]->0).is_alliance == side {
            squadrons((world.fleets@[i]->0).fighters@)
        } else {
            0
        }
}

/// A side's living capital ships.
pub open spec fn ships_of(world: GameWorld, side: bool) -> int {
    total(world.fleets@.len(), fleet_ships(world, side))
}

/// A side's squadrons.
pub open spec fn squadrons_of(world: GameWorld, side: bool) -> int {
    total(world.fleets@.len(), fleet_squadrons(world, side))
}

/// Whether the side's totals, and the squadrons it wants, fit a machine word.
pub open spec fn countable(world: GameWorld, side: bool, config: GameConfig) -> bool {
    &&& ships_of(world, side) <= usize::MAX
    &&& squadrons_of(world, side) <= usize::MAX
    &&& ships_of(world, side) * config.production.fighter_ratio <= usize::MAX
}

/// Squadron counts are never negative.
proof fn lemma_squadrons(entries: Seq<FighterEntry>, m: nat, n: nat)
    requires
        m <= n,
    ensures
        0 <= total(m, |i: int| entries[i].count as int) <= total(
            n,
            |i: int| entries[i].count as int,
        ),
{
    lemma_total_monotone(m, n, |i: int| entries[i].count as int);
}

/// Counts a side's living capital ships and squadrons.
fn count_assets(world: &GameWorld, side: bool) -> (counts: (usize, usize))
    requires
        ships_of(*world, side) <= usize::MAX,
        squadrons_of(*world, side) <= usize::MAX,
    ensures
        counts.0 == ships_of(*world, side),
        counts.1 == squadrons_of(*world, side),
{
    let ghost fs = fleet_ships(*world, side);
    let ghost fq = fleet_squadrons(*world, side);
    assert forall|i: int| #[trigger] fq(i) >= 0 by {
        let entries = (world.fleets@[i]->0).fighters@;
        lemma_squadrons(entries, entries.len(), entries.len());
    }
    let mut ships: usize = 0;
    let mut wings: usize = 0;
    let count: usize = world.fleets.slot_count();
    for i in 0..count
        invariant
            count == world.fleets@.len(),
            total(count as nat, fs) <= usize::MAX,
            total(count as nat, fq) <= usize::MAX,
            fs == fleet_ships(*world, side),
            fq == fleet_squadrons(*world, side),
            forall|i: int| #[trigger] fs(i) >= 0,
            forall|i: int| #[trigger] fq(i) >= 0,
            ships == total(i as nat, fs),
            wings == total(i as nat, fq),
    {
        proof {
            lemma_total_monotone((i + 1) as nat, count as nat, fs);
            lemma_total_monotone((i + 1) as nat, count as nat, fq);
        }
        if let Some(fleet) = world.fleets.slot(i) {
            if fleet.is_alliance == side {
                assert(fs(i as int) == alive_ships(
                    fleet.capital_ships@,
                    fleet.capital_ships@.len(),
                ));
                ships = ships + fleet.ship_count();
                assert(fq(i as int) == squadrons(fleet.fighters@));
                let ghost base = wings;
                let ghost entries = fleet.fighters@;
                let ghost fe = |j: int| entries[j].count as int;
                for j in 0..fleet.fighters.len()
                    invariant
                        entries == fleet.fighters@,
                        fe == (|j: int| entries[j].count as int),
                        forall|j: int| #[trigger] fe(j) >= 0,
                        base + total(entries.len(), fe) <= usize::MAX,
                        wings == base + total(j as nat, fe),
                {
                    proof {
                        lemma_total_monotone((j + 1) as nat, entries.len(), fe);
                    }
                    assert(fe(j as int) == fleet.fighters@[j as int].count);
                    wings = wings + fleet.fighters[j].count as usize;
                }
            }
        }
    }
    (ships, wings)
}

// ---- What a system builds --------------------------------------------------

/// Whether the `i`th yard of a system is of the side.
pub open spec fn own_yard(world: GameWorld, sys: System, side: bool, i: int) -> bool {
    let key = sys.manufacturing_facilities@[i];
    &&& 0 <= i < sys.manufacturing_facilities@.len()
    &&& world.manufacturing_facilities.has(key)
    &&& world.manufacturing_facilities.at(key).is_alliance == side
}

/// Whether the `i`th regiment of a system is of the side.
pub open spec fn own_troop(world: GameWorld, sys: System, side: bool) -> spec_fn(int) -> bool {
    |i: int|
        {
            let key = sys.ground_units@[i];
            world.troops.has(key) && world.troops.at(key).is_alliance == side
        }
}

/// Whether the `i`th defense facility of a system is of the side.
pub open spec fn own_defense(world: GameWorld, sys: System, side: bool) -> spec_fn(int) -> bool {
    |i: int|
        {
            let key = sys.defense_facilities@[i];
            world.defense_facilities.has(key) && world.defense_facilities.at(key).is_alliance
                == side
        }
}

/// The larger of two build times.
pub open spec fn at_least(ticks: u32, floor: u32) -> u32 {
    if ticks > floor {
        ticks
    } else {
        floor
    }
}

/// What the faction can build and what it has.
pub struct Means {
    pub fighter: Option<FighterKey>,
    pub capital_ship: Option<CapitalShipKey>,
    pub yard: Option<ManufacturingFacilityKey>,
    pub troop: Option<TroopKey>,
    pub defense: Option<DefenseFacilityKey>,
    pub ships: int,
    pub squadrons: int,
}

/// The means of a faction.
pub open spec fn means(world: GameWorld, faction: AiFaction) -> Means {
    Means {
        fighter: best_fighter(world, faction),
        capital_ship: best_capital_ship(world, faction),
        yard: pattern_yard(world, faction.rebel()),
        troop: pattern_troop(world, faction.rebel()),
        defense: pattern_defense(world, faction.rebel()),
        ships: ships_of(world, faction.rebel()),
        squadrons: squadrons_of(world, faction.rebel()),
    }
}

/// The build order for a capital ship.
pub open spec fn ship_order(world: GameWorld, system: SystemKey, class: CapitalShipKey) -> Order {
    Order::Production {
        system,
        kind: BuildableKind::CapitalShip(class),
        ticks: at_least(world.capital_ship_classes.at(class).refined_material_cost, 20),
    }
}

/// What a system of ours with a yard and room in its queue builds next:
/// capital ships until there are enough, fighters until the carriers are full,
/// then two regiments, two defenses, more yards, and capital ships again.
pub open spec fn build_choice(
    world: GameWorld,
    side: bool,
    config: GameConfig,
    m: Means,
    system: SystemKey,
    sys: System,
) -> Option<Order> {
    let troops = tally(sys.ground_units@.len(), own_troop(world, sys, side));
    let defenses = tally(sys.defense_facilities@.len(), own_defense(world, sys, side));
    let wants_fighters = m.capital_ship is None || m.squadrons < m.ships
        * config.production.fighter_ratio;
    if m.ships < config.production.capship_threshold && m.capital_ship is Some {
        Some(ship_order(world, system, m.capital_ship->0))
    } else if wants_fighters && m.fighter is Some {
        Some(
            Order::Production {
                system,
                kind: BuildableKind::Fighter(m.fighter->0),
                ticks: at_least(world.fighter_classes.at(m.fighter->0).refined_material_cost, 5),
            },
        )
    } else if troops < 2 && m.troop is Some {
        Some(
            Order::Production { system, kind: BuildableKind::Troop(m.troop->0), ticks: 15 },
        )
    } else if defenses < 2 && m.defense is Some {
        Some(
            Order::Production {
                system,
                kind: BuildableKind::DefenseFacility(m.defense->0),
                ticks: 25,
            },
        )
    } else if sys.manufacturing_facilities@.len() < config.ai.max_construction_yards && m.yard
        is Some {
        Some(
            Order::Production {
                system,
                kind: BuildableKind::ManufacturingFacility(m.yard->0),
                ticks: 30,
            },
        )
    } else if m.capital_ship is Some {
        Some(ship_order(world, system, m.capital_ship->0))
    } else {
        None
    }
}

/// The build order for system `i`, if it is ours, has a yard of ours and fewer
/// than three orders waiting.
pub open spec fn build_order(
    world: GameWorld,
    mfg: ManufacturingState,
    side: bool,
    config: GameConfig,
    m: Means,
) -> spec_fn(int) -> Option<Order> {
    |i: int|
        {
            let key = SystemKey { slot: i as usize };
            let sys = world.systems@[i]->0;
            if occupied(world.systems@, i) && sys.control.held_by(faction_of(side)) && (exists|
                j: int,
            |
                own_yard(world, sys, side, j)) && mfg.queue_len_spec(key) < 3 {
                build_choice(world, side, config, m, key, sys)
            } else {
                None
            }
        }
}

/// Checks whether a system has a yard of the side.
fn has_yard(world: &GameWorld, sys: &System, side: bool) -> (found: bool)
    ensures
        found == exists|j: int| own_yard(*world, *sys, side, j),
{
    for i in 0..sys.manufacturing_facilities.len()
        invariant
            forall|j: int| 0 <= j < i ==> !own_yard(*world, *sys, side, j),
    {
        if let Some(f) = world.manufacturing_facilities.get(sys.manufacturing_facilities[i]) {
            if f.is_alliance == side {
                assert(own_yard(*world, *sys, side, i as int));
                return true;
            }
        }
    }
    false
}

/// Counts a side's regiments at a system.
fn count_troops(world: &GameWorld, sys: &System, side: bool) -> (count: usize)
    ensures
        count == tally(sys.ground_units@.len(), own_troop(*world, *sys, side)),
{
    let ghost f = own_troop(*world, *sys, side);
    let mut count: usize = 0;
    for i in 0..sys.ground_units.len()
        invariant
            f == own_troop(*world, *sys, side),
            count <= i,
            count == tally(i as nat, f),
    {
        if let Some(t) = world.troops.get(sys.ground_units[i]) {
            if t.is_alliance == side {
                count = count + 1;
            }
        }
    }
    count
}

/// Counts a side's defense facilities at a system.
fn count_defenses(world: &GameWorld, sys: &System, side: bool) -> (count: usize)
    ensures
        count == tally(sys.defense_facilities@.len(), own_defense(*world, *sys, side)),
{
    let ghost f = own_defense(*world, *sys, side);
    let mut count: usize = 0;
    for i in 0..sys.defense_facilities.len()
        invariant
            f == own_defense(*world, *sys, side),
            count <= i,
            count == tally(i as nat, f),
    {
        if let Some(d) = world.defense_facilities.get(sys.defense_facilities[i]) {
            if d.is_alliance == side {
                count = count + 1;
            }
        }
    }
    count
}

impl AISystem {
    /// Gives idle yards something to build.
    pub fn evaluate_production(
        world: &GameWorld,
        mfg_state: &ManufacturingState,
        faction: AiFaction,
        config: &GameConfig,
        actions: &mut Vec<AIAction>,
    )
        requires
            countable(*world, faction.rebel(), *config),
        ensures
            orders(final(actions)@) == orders(old(actions)@) + collect(
                world.systems@.len(),
                build_order(
                    *world,
                    *mfg_state,
                    faction.rebel(),
                    *config,
                    means(*world, faction),
                ),
            ),
    {
        let side: bool = faction.is_alliance();
        let fighter: Option<(FighterKey, &FighterClass)> = AISystem::best_fighter_class(
            world,
            faction,
        );
        let capital: Option<(CapitalShipKey, &CapitalShipClass)> =
            AISystem::best_capital_ship_class(world, faction);
        let yard: Option<ManufacturingFacilityKey> = AISystem::find_manufacturing_facility_class(
            world,
            faction,
        );
        let troop: Option<TroopKey> = AISystem::find_troop_class(world, faction);
        let defense: Option<DefenseFacilityKey> = AISystem::find_defense_facility_class(
            world,
            faction,
        );
        let (ships, wings): (usize, usize) = count_assets(world, side);
        let wanted: usize = ships * config.production.fighter_ratio;
        let ghost m = means(*world, faction);
        let ghost f = build_order(*world, *mfg_state, side, *config, m);
        let ghost before = orders(actions@);
        assert(before + Seq::<Order>::empty() =~= before);
        let count: usize = world.systems.slot_count();
        for i in 0..count
            invariant
                count == world.systems@.len(),
                m == means(*world, faction),
                f == build_order(*world, *mfg_state, side, *config, m),
                m.yard == yard,
                m.troop == troop,
                m.defense == defense,
                m.ships == ships,
                m.squadrons == wings,
                wanted == ships * config.production.fighter_ratio,
                fighter is Some <==> m.fighter is Some,
                fighter matches Some((key, class)) ==> m.fighter == Some(key) && *class
                    == world.fighter_classes.at(key),
                capital is Some <==> m.capital_ship is Some,
                capital matches Some((key, class)) ==> m.capital_ship == Some(key) && *class
                    == world.capital_ship_classes.at(key),
                orders(actions@) == before + collect(i as nat, f),
        {
            let ghost sofar = collect(i as nat, f);
            if let Some(sys) = world.systems.slot(i) {
                let key: SystemKey = SystemKey { slot: i };
                if sys.control.is_controlled_by(side_faction(side)) && has_yard(world, sys, side)
                    && mfg_state.queue_len(key) < 3 {
                    let choice: Option<(BuildableKind, u32)> = if ships
                        < config.production.capship_threshold && capital.is_some() {
                        AISystem::ship_choice(capital)
                    } else if (capital.is_none() || wings < wanted) && fighter.is_some() {
                        match fighter {
                            Some((class_key, class)) => Some(
                                (
                                    BuildableKind::Fighter(class_key),
                                    if class.refined_material_cost > 5 {
                                        class.refined_material_cost
                                    } else {
                                        5
                                    },
                                ),
                            ),
                            None => None,
                        }
                    } else if troop.is_some() && count_troops(world, sys, side) < 2 {
                        match troop {
                            Some(pattern) => Some((BuildableKind::Troop(pattern), 15)),
                            None => None,
                        }
                    } else if defense.is_some() && count_defenses(world, sys, side) < 2 {
                        match defense {
                            Some(pattern) => Some((BuildableKind::DefenseFacility(pattern), 25)),
                            None => None,
                        }
                    } else if yard.is_some() && sys.manufacturing_facilities.len()
                        < config.ai.max_construction_yards {
                        match yard {
                            Some(pattern) => Some(
                                (BuildableKind::ManufacturingFacility(pattern), 30),
                            ),
                            None => None,
                        }
                    } else {
                        AISystem::ship_choice(capital)
                    };
                    if let Some((kind, ticks)) = choice {
                        issue(actions, AIAction::EnqueueProduction { system: key, kind, ticks });
                        assert(f(i as int) == Some(Order::Production { system: key, kind, ticks }));
                        assert((before + sofar).push(
                            Order::Production { system: key, kind, ticks },
                        ) =~= before + sofar.push(Order::Production { system: key, kind, ticks }));
                    }
                }
            }
        }
    }

    /// A capital ship and its build time.
    fn ship_choice(capital: Option<(CapitalShipKey, &CapitalShipClass)>) -> (choice: Option<
        (BuildableKind, u32),
    >)
        ensures
            choice == match capital {
                Some((key, class)) => Some(
                    (
                        BuildableKind::CapitalShip(key),
                        at_least(class.refined_material_cost, 20),
                    ),
                ),
                None => None,
            },
    {
        match capital {
            Some((key, class)) => Some(
                (
                    BuildableKind::CapitalShip(key),
                    if class.refined_material_cost > 20 {
                        class.refined_material_cost
                    } else {
                        20
                    },
                ),
            ),
            None => None,
        }
    }
}

} // verus!
