//! How the computer player sees the galaxy: strengths, holdings, and what the
//! Death Star does.

use crate::ai::{FleetMoveReason, Order};
use crate::ai_build_laws::lemma_collect_rises;
use crate::ai_fleets::{
    death_star_fleet, death_star_of, death_star_order, death_star_target, escorted, escorts, haven,
    spare_escort,
};
use crate::ai_strength::{
    by_garrison, enemy_orbit, fleet_strength_of, galaxy_of, ground_term, hull_points,
    lemma_strength_fits, orbit_term, ours_bare, ours_calm, ours_contested, ours_seat, picked_system,
    side_present, strength_of, systems_where, their_seat, theirs, unheld, wing_term, Galaxy,
};
use crate::arena::lemma_slots_bounded;
use crate::dat::Faction;
use crate::ids::{FleetKey, SystemKey, TroopKey};
use crate::movement::{in_transit, MovementState};
use crate::select::{
    collect, gives, lemma_collect_covers, lemma_lowest, lemma_total_same, stable_sort, total,
};
use crate::world::{
    distance_squared, lemma_square_bound, ControlKind, FighterEntry, Fleet, GameWorld, ShipInstance,
    System,
};
use vstd::prelude::*;

verus! {

// ---- Strength --------------------------------------------------------------

/// A sum as far as its word holds it.
pub open spec fn up_to_limit(x: int) -> int {
    if x <= u32::MAX {
        x
    } else {
        u32::MAX as int
    }
}

/// One ship more adds the hull it has left, and a wreck adds nothing.
pub proof fn law_hulls_add_up(ships: Seq<ShipInstance>, ship: ShipInstance)
    ensures
        ({
            let gain = hull_points(ships.push(ship)) - hull_points(ships);
            &&& ship.alive && ship.hull_current >= 0 ==> gain == ship.hull_current
            &&& !ship.alive || ship.hull_current < 0 ==> gain == 0
        }),
        hull_points(Seq::empty()) == 0,
{
    let more = ships.push(ship);
    let f = |i: int|
        if ships[i].alive && ships[i].hull_current > 0 {
            ships[i].hull_current as int
        } else {
            0
        };
    let g = |i: int|
        if more[i].alive && more[i].hull_current > 0 {
            more[i].hull_current as int
        } else {
            0
        };
    lemma_total_same(ships.len(), f, g);
    assert(hull_points(ships) == total(ships.len(), f));
    assert(hull_points(more) == total(more.len(), g));
}

/// The strength of a garrison is what its fleets, regiments and facilities
/// add: a fleet of the side the hulls of its ships, a regiment of the side its
/// strength, and any defense facility or yard ten. Nothing else counts, and
/// the sum stops at what its word holds.
pub proof fn law_garrisons_add_up(
    world: GameWorld,
    sys: System,
    larger: System,
    side: bool,
    fleet: FleetKey,
    troop: TroopKey,
)
    ensures
        ({
            let before = strength_of(world, sys, side);
            let after = strength_of(world, larger, side);
            let same_fleets = larger.fleets@ == sys.fleets@;
            let same_troops = larger.ground_units@ == sys.ground_units@;
            let same_forts = larger.defense_facilities@ == sys.defense_facilities@;
            let same_yards = larger.manufacturing_facilities@ == sys.manufacturing_facilities@;
            let strength = world.troops.at(troop).regiment_strength;
            &&& larger.fleets@ == sys.fleets@.push(fleet) && same_troops && same_forts
                && same_yards ==> after == if world.fleets.has(fleet) && world.fleets.at(
                fleet,
            ).is_alliance == side {
                up_to_limit(before + hull_points(world.fleets.at(fleet).capital_ships@))
            } else {
                before
            }
            &&& larger.ground_units@ == sys.ground_units@.push(troop) && same_fleets && same_forts
                && same_yards && strength >= 0 ==> after == if world.troops.has(troop)
                && world.troops.at(troop).is_alliance == side {
                up_to_limit(before + strength)
            } else {
                before
            }
            &&& larger.defense_facilities@.len() == sys.defense_facilities@.len() + 1 && same_fleets
                && same_troops && same_yards ==> after == up_to_limit(before + 10)
            &&& larger.manufacturing_facilities@.len() == sys.manufacturing_facilities@.len() + 1
                && same_fleets && same_troops && same_forts ==> after == up_to_limit(before + 10)
            &&& sys.fleets@.len() == 0 && sys.ground_units@.len() == 0
                && sys.defense_facilities@.len() == 0 && sys.manufacturing_facilities@.len() == 0
                ==> before == 0
        }),
{
    lemma_hull_sums(world, sys, side, sys.fleets@.len());
    lemma_hull_sums(world, larger, side, larger.fleets@.len());
    crate::select::lemma_total_monotone(
        0,
        sys.ground_units@.len(),
        ground_term(world, sys, side),
    );
    if larger.fleets@ == sys.fleets@.push(fleet) || larger.fleets@ == sys.fleets@ {
        lemma_total_same(
            sys.fleets@.len(),
            orbit_term(world, sys, side),
            orbit_term(world, larger, side),
        );
    }
    if larger.ground_units@ == sys.ground_units@.push(troop) || larger.ground_units@
        == sys.ground_units@ {
        lemma_total_same(
            sys.ground_units@.len(),
            ground_term(world, sys, side),
            ground_term(world, larger, side),
        );
    }
    lemma_hulls_positive(world.fleets.at(fleet).capital_ships@);
}

proof fn lemma_hulls_positive(ships: Seq<ShipInstance>)
    ensures
        hull_points(ships) >= 0,
{
    let f = |i: int|
        if ships[i].alive && ships[i].hull_current > 0 {
            ships[i].hull_current as int
        } else {
            0
        };
    crate::select::lemma_total_monotone(0, ships.len(), f);
    assert(hull_points(ships) == total(ships.len(), f));
}

proof fn lemma_hull_sums(world: GameWorld, sys: System, side: bool, n: nat)
    ensures
        total(n, orbit_term(world, sys, side)) >= 0,
    decreases n,
{
    if n > 0 {
        lemma_hull_sums(world, sys, side, (n - 1) as nat);
        let ships = world.fleets.at(sys.fleets@[n - 1]).capital_ships@;
        lemma_hulls_positive(ships);
    }
}

/// The strength of a fleet is the hulls of its ships and, for every squadron,
/// the attack rating of its class, one at the least or where the class is not
/// known. The sum stops at what its word holds.
pub proof fn law_fleets_add_up(
    world: GameWorld,
    fleet: Fleet,
    larger: Fleet,
    ship: ShipInstance,
    group: FighterEntry,
)
    ensures
        ({
            let before = fleet_strength_of(world, fleet);
            let after = fleet_strength_of(world, larger);
            let class = world.fighter_classes.at(group.class);
            let rating: int = if world.fighter_classes.has(group.class)
                && class.overall_attack_strength > 0 {
                class.overall_attack_strength as int
            } else {
                1
            };
            &&& larger.capital_ships@ == fleet.capital_ships@.push(ship) && larger.fighters@
                == fleet.fighters@ ==> after == if ship.alive && ship.hull_current >= 0 {
                up_to_limit(before + ship.hull_current)
            } else {
                before
            }
            &&& larger.fighters@ == fleet.fighters@.push(group) && larger.capital_ships@
                == fleet.capital_ships@ ==> after == up_to_limit(before + rating * group.count)
            &&& fleet.capital_ships@.len() == 0 && fleet.fighters@.len() == 0 ==> before == 0
        }),
{
    law_hulls_add_up(fleet.capital_ships@, ship);
    assert(fleet.capital_ships@.len() == 0 ==> fleet.capital_ships@ =~= Seq::<
        ShipInstance,
    >::empty());
    lemma_hulls_positive(fleet.capital_ships@);
    lemma_wing_sum(world, fleet, fleet.fighters@.len());
    if larger.fighters@ == fleet.fighters@.push(group) || larger.fighters@ == fleet.fighters@ {
        lemma_total_same(
            fleet.fighters@.len(),
            wing_term(world, fleet),
            wing_term(world, larger),
        );
    }
    let class = world.fighter_classes.at(group.class);
    let rating: int = if world.fighter_classes.has(group.class) && class.overall_attack_strength
        > 0 {
        class.overall_attack_strength as int
    } else {
        1
    };
    let count = group.count as int;
    assert(rating * count >= 0) by (nonlinear_arith)
        requires
            rating >= 1,
            count >= 0,
    ;
}

/// A fleet's strength fits its word.
pub(crate) proof fn lemma_fleet_fits(world: GameWorld, fleet: Fleet)
    ensures
        0 <= fleet_strength_of(world, fleet) <= u32::MAX,
{
    lemma_hulls_positive(fleet.capital_ships@);
    lemma_wing_sum(world, fleet, fleet.fighters@.len());
}

proof fn lemma_wing_sum(world: GameWorld, fleet: Fleet, n: nat)
    ensures
        total(n, wing_term(world, fleet)) >= 0,
    decreases n,
{
    if n > 0 {
        lemma_wing_sum(world, fleet, (n - 1) as nat);
        let entry = fleet.fighters@[n - 1];
        let rating: int = if world.fighter_classes.has(entry.class) && world.fighter_classes.at(
            entry.class,
        ).overall_attack_strength > 1 {
            world.fighter_classes.at(entry.class).overall_attack_strength as int
        } else {
            1
        };
        let count = entry.count as int;
        assert(rating * count >= 0) by (nonlinear_arith)
            requires
                rating >= 1,
                count >= 0,
        ;
    }
}

// ---- Holdings --------------------------------------------------------------

/// Whether a fleet of a side stands over a system.
pub open spec fn flown_over(world: GameWorld, key: SystemKey, side: bool) -> bool {
    exists|i: int|
        0 <= i < world.systems.at(key).fleets@.len() && world.fleets.has(
            #[trigger] world.systems.at(key).fleets@[i],
        ) && world.fleets.at(world.systems.at(key).fleets@[i]).is_alliance == side
}

/// Whether a side holds a system.
pub open spec fn holds(world: GameWorld, key: SystemKey, side: bool) -> bool {
    world.systems.has(key) && world.systems.at(key).control == ControlKind::Controlled(
        if side {
            Faction::Alliance
        } else {
            Faction::Empire
        },
    )
}

/// Every system is listed where it belongs: ours without an enemy fleet as
/// controlled, with one as contested, and without any fleet, unless it is the
/// headquarters, as undefended; the enemy's as the enemy's; one that nobody
/// holds as unoccupied. Systems that stand and have an enemy fleet over them
/// are listed as such, whoever holds them.
pub proof fn law_every_system_is_placed(world: GameWorld, side: bool, key: SystemKey)
    ensures
        ({
            let g = galaxy_of(world, side);
            let foe = flown_over(world, key, !side);
            let friend = flown_over(world, key, side);
            let s = world.systems.at(key);
            &&& g.our_controlled.contains(key) <==> holds(world, key, side) && !foe
            &&& g.contested.contains(key) <==> holds(world, key, side) && foe
            &&& g.our_undefended.contains(key) <==> holds(world, key, side) && !foe && !friend
                && !s.is_headquarters
            &&& g.enemy_controlled.contains(key) <==> holds(world, key, !side)
            &&& g.unoccupied.contains(key) <==> world.systems.has(key) && !holds(world, key, side)
                && !holds(world, key, !side)
            &&& g.enemy_fleet_systems.contains(key) <==> world.systems.has(key) && foe
                && !s.is_destroyed
        }),
{
    lemma_slots_bounded(&world.systems);
    lemma_listed(world, ours_calm(world, side), key);
    lemma_listed(world, ours_contested(world, side), key);
    lemma_listed(world, ours_bare(world, side), key);
    lemma_listed(world, unheld(side), key);
    lemma_listed(world, enemy_orbit(world, side), key);
    lemma_listed(world, theirs(side), key);
    lemma_enemy_list(world, side);
    assert(flown_over(world, key, side) == side_present(world, world.systems.at(key), side));
    assert(flown_over(world, key, !side) == side_present(world, world.systems.at(key), !side));
    let g = galaxy_of(world, side);
    let plain = systems_where(world, theirs(side));
    if g.enemy_controlled.contains(key) {
        let k = choose|k: int| 0 <= k < g.enemy_controlled.len() && g.enemy_controlled[k] == key;
        assert(plain.contains(g.enemy_controlled[k]));
    }
    if plain.contains(key) {
        let k = choose|k: int| 0 <= k < plain.len() && plain[k] == key;
        assert(g.enemy_controlled.contains(plain[k]));
    }
}

proof fn lemma_listed(world: GameWorld, p: spec_fn(System) -> bool, key: SystemKey)
    requires
        world.systems@.len() <= usize::MAX,
    ensures
        systems_where(world, p).contains(key) <==> world.systems.has(key) && p(
            world.systems.at(key),
        ),
{
    let f = picked_system(world, p);
    let n = world.systems@.len();
    lemma_collect_covers(n, f);
    let list = systems_where(world, p);
    if list.contains(key) {
        let k = choose|k: int| 0 <= k < list.len() && list[k] == key;
        assert(gives(n, f, list[k]));
        let i = choose|i: int| 0 <= i < n && #[trigger] f(i) == Some(list[k]);
    }
    if world.systems.has(key) && p(world.systems.at(key)) {
        assert(f(key.slot as int) == Some(key));
    }
}

proof fn lemma_enemy_list(world: GameWorld, side: bool)
    requires
        world.systems@.len() <= usize::MAX,
    ensures
        ({
            let list = galaxy_of(world, side).enemy_controlled;
            let plain = systems_where(world, theirs(side));
            let strength = |s: SystemKey| strength_of(world, world.systems.at(s), !side);
            &&& forall|k: int| 0 <= k < list.len() ==> plain.contains(#[trigger] list[k])
            &&& forall|k: int| 0 <= k < plain.len() ==> list.contains(#[trigger] plain[k])
            &&& forall|j: int, k: int|
                0 <= j < k < list.len() ==> strength(#[trigger] list[j]) < strength(
                    #[trigger] list[k],
                ) || (strength(list[j]) == strength(list[k]) && list[j].slot < list[k].slot)
        }),
{
    let f = picked_system(world, theirs(side));
    let n = world.systems@.len();
    let plain = systems_where(world, theirs(side));
    lemma_collect_covers(n, f);
    lemma_collect_rises(n, f, |s: SystemKey| s.slot as int);
    let entries = by_garrison(world, side, plain);
    let g = |i: int|
        if f(i) is Some {
            Some((f(i)->0, strength_of(world, world.systems.at(f(i)->0), !side) as i128))
        } else {
            None
        };
    lemma_garrisons(world, side, n);
    assert(entries =~= collect(n, g));
    crate::select::lemma_sorted_slots(n, g, |s: SystemKey| s.slot as int);
    let sorted = stable_sort(entries);
    let list = galaxy_of(world, side).enemy_controlled;
    let strength = |s: SystemKey| strength_of(world, world.systems.at(s), !side);
    assert forall|k: int| 0 <= k < list.len() implies plain.contains(#[trigger] list[k]) by {
        assert(list[k] == sorted[k].0);
        let i = sorted[k].0.slot as int;
        assert(g(i) == Some(sorted[k]));
        assert(f(i) is Some);
    }
    assert forall|k: int| 0 <= k < plain.len() implies list.contains(#[trigger] plain[k]) by {
        assert(gives(n, f, plain[k]));
        let i = choose|i: int| 0 <= i < n && #[trigger] f(i) == Some(plain[k]);
        assert(g(i) is Some);
        let l = choose|l: int| 0 <= l < sorted.len() && sorted[l] == g(i)->0;
        assert(list[l] == plain[k]);
    }
    assert forall|j: int, k: int| 0 <= j < k < list.len() implies strength(#[trigger] list[j])
        < strength(#[trigger] list[k]) || (strength(list[j]) == strength(list[k]) && list[j].slot
        < list[k].slot) by {
        assert(list[j] == sorted[j].0 && list[k] == sorted[k].0);
        assert(g(sorted[j].0.slot as int) == Some(sorted[j]));
        assert(g(sorted[k].0.slot as int) == Some(sorted[k]));
        lemma_strength_fits(world, world.systems.at(list[j]), !side);
        lemma_strength_fits(world, world.systems.at(list[k]), !side);
    }
}

proof fn lemma_garrisons(world: GameWorld, side: bool, n: nat)
    requires
        n <= world.systems@.len() <= usize::MAX,
    ensures
        ({
            let f = picked_system(world, theirs(side));
            let g = |i: int|
                if f(i) is Some {
                    Some((f(i)->0, strength_of(world, world.systems.at(f(i)->0), !side) as i128))
                } else {
                    None
                };
            collect(n, g) =~= by_garrison(world, side, collect(n, f))
        }),
    decreases n,
{
    if n > 0 {
        lemma_garrisons(world, side, (n - 1) as nat);
    }
}

/// The enemy's systems are listed by what holds them, the weakest first, and
/// in the order of the slots where they are held alike.
pub proof fn law_the_weakest_come_first(world: GameWorld, side: bool, j: int, k: int)
    requires
        0 <= j < k < galaxy_of(world, side).enemy_controlled.len(),
    ensures
        ({
            let list = galaxy_of(world, side).enemy_controlled;
            let a = strength_of(world, world.systems.at(list[j]), !side);
            let b = strength_of(world, world.systems.at(list[k]), !side);
            a < b || (a == b && list[j].slot < list[k].slot)
        }),
{
    lemma_slots_bounded(&world.systems);
    lemma_enemy_list(world, side);
    let list = galaxy_of(world, side).enemy_controlled;
    assert(list[j] == list[j] && list[k] == list[k]);
}

/// A headquarters is known as long as its side holds it, ours only while no
/// enemy fleet stands over it; of several the last one counts.
pub proof fn law_headquarters_are_known(world: GameWorld, side: bool, key: SystemKey)
    ensures
        ({
            let g = galaxy_of(world, side);
            let ours = |k: SystemKey|
                holds(world, k, side) && world.systems.at(k).is_headquarters && !flown_over(
                    world,
                    k,
                    !side,
                );
            let seat = |k: SystemKey| holds(world, k, !side) && world.systems.at(k).is_headquarters;
            &&& g.our_hq matches Some(hq) ==> ours(hq)
            &&& g.enemy_hq matches Some(hq) ==> seat(hq)
            &&& ours(key) ==> g.our_hq is Some && g.our_hq->0.slot >= key.slot
            &&& seat(key) ==> g.enemy_hq is Some && g.enemy_hq->0.slot >= key.slot
        }),
{
    lemma_slots_bounded(&world.systems);
    lemma_last_listed(world, ours_seat(world, side), key);
    lemma_last_listed(world, their_seat(side), key);
    let g = galaxy_of(world, side);
    assert(flown_over(world, key, !side) == side_present(world, world.systems.at(key), !side));
    if g.our_hq is Some {
        assert(flown_over(world, g.our_hq->0, !side) == side_present(
            world,
            world.systems.at(g.our_hq->0),
            !side,
        ));
    }
}

proof fn lemma_last_listed(world: GameWorld, p: spec_fn(System) -> bool, key: SystemKey)
    requires
        world.systems@.len() <= usize::MAX,
    ensures
        ({
            let list = systems_where(world, p);
            &&& list.len() > 0 ==> world.systems.has(list.last()) && p(
                world.systems.at(list.last()),
            )
            &&& world.systems.has(key) && p(world.systems.at(key)) ==> list.len() > 0
                && list.last().slot >= key.slot
        }),
{
    let f = picked_system(world, p);
    let n = world.systems@.len();
    lemma_listed(world, p, key);
    lemma_collect_rises(n, f, |s: SystemKey| s.slot as int);
    let list = systems_where(world, p);
    if list.len() > 0 {
        lemma_listed(world, p, list.last());
        assert(list.contains(list[list.len() - 1]));
    }
    if list.contains(key) {
        let k = choose|k: int| 0 <= k < list.len() && list[k] == key;
        assert(k == list.len() - 1 || list[k].slot < list[list.len() - 1].slot);
    }
}

// ---- The Death Star --------------------------------------------------------

/// Whether a fleet is under way.
pub open spec fn under_way(movement: MovementState, key: FleetKey) -> bool {
    exists|i: int|
        0 <= i < movement.orders@.len() && (#[trigger] movement.orders@[i]).fleet == key
}

/// The side's Death Star is the first fleet of the side that has one.
pub proof fn law_the_first_death_star_counts(world: GameWorld, side: bool, other: int)
    ensures
        ({
            let found = death_star_of(world, side);
            &&& found matches Some(key) ==> world.fleets.has(key) && world.fleets.at(
                key,
            ).has_death_star && world.fleets.at(key).is_alliance == side
            &&& 0 <= other < world.fleets@.len() && world.fleets@[other] is Some && (
            world.fleets@[other]->0).has_death_star && (world.fleets@[other]->0).is_alliance
                == side ==> found is Some && found->0.slot <= other
        }),
{
    let f = death_star_fleet(world, side);
    let n = world.fleets@.len();
    lemma_slots_bounded(&world.fleets);
    lemma_collect_covers(n, f);
    lemma_collect_rises(n, f, |k: FleetKey| k.slot as int);
    let list = collect(n, f);
    if list.len() > 0 {
        assert(gives(n, f, list[0]));
        let i = choose|i: int| 0 <= i < n && #[trigger] f(i) == Some(list[0]);
    }
    if 0 <= other < n && f(other) is Some {
        let k = choose|k: int| 0 <= k < list.len() && list[k] == f(other)->0;
        assert(k == 0 || list[0].slot < list[k].slot);
    }
}

/// A Death Star under way is left alone. One that is outgunned by an enemy at
/// its system falls back to a standing system of its side elsewhere, and none
/// of those is nearer; of equals it is the first.
pub proof fn law_an_outgunned_death_star_falls_back(
    world: GameWorld,
    movement: MovementState,
    side: bool,
    outgunned: bool,
    refuge: SystemKey,
)
    requires
        death_star_of(world, side) is Some,
    ensures
        ({
            let ds = death_star_of(world, side)->0;
            let at = world.fleets.at(ds).location;
            let list = death_star_order(world, movement, side, outgunned);
            let pressed = outgunned && world.systems.has(at) && strength_of(
                world,
                world.systems.at(at),
                !side,
            ) > 0;
            let safe = |s: SystemKey|
                s.slot != at.slot && holds(world, s, side) && !world.systems.at(s).is_destroyed;
            let far = |s: SystemKey|
                distance_squared(world.systems.at(s), world.systems.at(at));
            &&& under_way(movement, ds) ==> list.len() == 0
            &&& !under_way(movement, ds) && pressed && safe(refuge) ==> {
                let to = list[0]->Move_to_system;
                &&& list.len() == 1
                &&& list[0] == (Order::Move {
                    fleet: ds,
                    to_system: to,
                    reason: FleetMoveReason::Reinforce,
                    troops: Seq::empty(),
                })
                &&& safe(to)
                &&& far(to) <= far(refuge)
                &&& refuge.slot < to.slot ==> far(to) < far(refuge)
            }
        }),
{
    let ds = death_star_of(world, side)->0;
    let at = world.fleets.at(ds).location;
    lemma_slots_bounded(&world.systems);
    lemma_lowest(
        world.systems@.len(),
        haven(world, side, at),
        |s: SystemKey| s.slot as int,
        refuge.slot as int,
    );
    lemma_near(world, refuge, at);
    let best = crate::select::first_min(collect(world.systems@.len(), haven(world, side, at)));
    if best is Some {
        lemma_near(world, best->0, at);
    }
    assert(under_way(movement, ds) == in_transit(movement.orders@, ds));
}

proof fn lemma_near(world: GameWorld, a: SystemKey, b: SystemKey)
    ensures
        0 <= distance_squared(world.systems.at(a), world.systems.at(b)) <= 0x1_fffc_0002,
{
    let x = world.systems.at(a);
    let y = world.systems.at(b);
    lemma_square_bound(x.x - y.x);
    lemma_square_bound(x.y - y.y);
}

/// A Death Star that does not fall back and stands alone is joined by an idle
/// fleet of its side with anything in it, and none of those is nearer; of
/// equals it is the first. With company it needs nobody.
pub proof fn law_a_lone_death_star_is_joined(
    world: GameWorld,
    movement: MovementState,
    side: bool,
    other: FleetKey,
)
    requires
        death_star_of(world, side) is Some,
        !under_way(movement, death_star_of(world, side)->0),
    ensures
        ({
            let ds = death_star_of(world, side)->0;
            let at = world.fleets.at(ds).location;
            let list = death_star_order(world, movement, side, false);
            let ours = |k: FleetKey|
                world.fleets.has(k) && k.slot != ds.slot && world.fleets.at(k).is_alliance == side
                    && (world.fleets.at(k).capital_ships@.len() > 0 || world.fleets.at(
                    k,
                ).fighters@.len() > 0);
            let idle = |k: FleetKey|
                ours(k) && !under_way(movement, k) && world.fleets.at(k).location != at;
            let far = |k: FleetKey|
                distance_squared(
                    world.systems.at(world.fleets.at(k).location),
                    world.systems.at(at),
                );
            &&& ours(other) && world.fleets.at(other).location == at ==> list.len() == 0
            &&& (forall|k: FleetKey|
                ours(k) ==> (#[trigger] world.fleets.at(k)).location != at) && idle(other) ==> {
                let sent = list[0]->Move_fleet;
                &&& list.len() == 1
                &&& list[0] == (Order::Move {
                    fleet: sent,
                    to_system: at,
                    reason: FleetMoveReason::Reinforce,
                    troops: Seq::empty(),
                })
                &&& idle(sent)
                &&& far(sent) <= far(other)
                &&& other.slot < sent.slot ==> far(sent) < far(other)
            }
        }),
{
    let ds = death_star_of(world, side)->0;
    let at = world.fleets.at(ds).location;
    lemma_slots_bounded(&world.fleets);
    lemma_lowest(
        world.fleets@.len(),
        spare_escort(world, movement, side, ds, at),
        |k: FleetKey| k.slot as int,
        other.slot as int,
    );
    assert(under_way(movement, ds) == in_transit(movement.orders@, ds));
    assert(under_way(movement, other) == in_transit(movement.orders@, other));
    let best = crate::select::first_min(
        collect(world.fleets@.len(), spare_escort(world, movement, side, ds, at)),
    );
    lemma_near(world, world.fleets.at(other).location, at);
    if best is Some {
        lemma_near(world, world.fleets.at(best->0).location, at);
        assert(under_way(movement, best->0) == in_transit(movement.orders@, best->0));
    }
    if world.fleets.has(other) && other.slot != ds.slot && world.fleets.at(other).is_alliance
        == side && !world.fleets.at(other).bare() && world.fleets.at(other).location == at {
        assert(escorts(world, side, ds, at, other.slot as int));
    }
    if escorted(world, side, ds, at) {
        let i = choose|i: int| escorts(world, side, ds, at, i);
        let k = FleetKey { slot: i as usize };
        assert(world.fleets.at(k).location == at);
    }
}

/// The Death Star goes for the enemy's headquarters as long as that stands,
/// wherever it is and whatever else there is; and nowhere if it is itself at
/// no system and knows no headquarters.
pub proof fn law_headquarters_first(
    world: GameWorld,
    g: Galaxy,
    from: SystemKey,
    side: bool,
    hq: SystemKey,
)
    ensures
        g.enemy_hq == Some(hq) && world.systems.has(hq) && !world.systems.at(hq).is_destroyed
            ==> death_star_target(world, g, from, side) == Some(hq),
        g.enemy_hq is None && !world.systems.has(from) ==> death_star_target(
            world,
            g,
            from,
            side,
        ) is None,
        g.enemy_hq is None && g.enemy_controlled.len() == 0 ==> death_star_target(
            world,
            g,
            from,
            side,
        ) is None,
{
}

} // verus!
