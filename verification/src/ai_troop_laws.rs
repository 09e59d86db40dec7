//! How the computer player hands out regiments, and that no order it thinks of
//! is lost on the way.

use crate::ai::{AIState, Advice, AiFaction, FleetMoveReason, Order};
use crate::ai_advance::{early_orders, evaluation};
use crate::ai_covert::{calming_orders, covert_plan, recon_plan, rescue_orders, research_orders};
use crate::ai_deploy::{deploy_all, deploy_one, deployment_orders, pile_all, pile_one, Deploy};
use crate::ai_fleets::death_star_order;
use crate::ai_missions::{officer_orders, openings};
use crate::ai_production::{build_order, means};
use crate::ai_strength::Galaxy;
use crate::ai_troops::{
    allotment, berth, donor, donors, first_offer, first_transport, free_transport, friendly,
    frontline, garrison, has_berth, in_key_order, last_unclaimed, load_all, load_one, loaded,
    mustered, receiver, receivers, relieve_all, relieve_one, threatens, troop_room, unclaimed,
    Muster,
};
use crate::ai_view_laws::{holds, under_way};
use crate::arena::lemma_slots_bounded;
use crate::ids::{FleetKey, SystemKey, TroopKey};
use crate::manufacturing::ManufacturingState;
use crate::movement::{in_transit, MovementState};
use crate::research::ResearchState;
use crate::select::{
    collect, gives, lemma_collect_covers, lemma_collect_same, lemma_sorted_slots, lemma_total_same,
    stable_sort, tally,
};
use crate::tuning::GameConfig;
use crate::world::{distance_squared, Fleet, GameWorld, ShipInstance, System};
use vstd::prelude::*;

verus! {

// ---- Garrisons -------------------------------------------------------------

/// A regiment on the ground joins the garrison of its own side, behind those
/// before it.
pub proof fn law_who_is_in_the_garrison(
    world: GameWorld,
    sys: System,
    larger: System,
    key: TroopKey,
    side: bool,
)
    requires
        larger.ground_units@ == sys.ground_units@.push(key),
    ensures
        garrison(world, larger, side) == if world.troops.has(key) && world.troops.at(
            key,
        ).is_alliance == side {
            garrison(world, sys, side).push(key)
        } else {
            garrison(world, sys, side)
        },
        sys.ground_units@.len() == 0 ==> garrison(world, sys, side).len() == 0,
{
    lemma_collect_same(
        sys.ground_units@.len(),
        friendly(world, sys, side),
        friendly(world, larger, side),
    );
}

/// Whether a system lies less than 150 from one that the enemy holds.
pub open spec fn exposed(world: GameWorld, key: SystemKey, side: bool) -> bool {
    exists|foe: SystemKey|
        holds(world, foe, !side) && distance_squared(
            world.systems.at(key),
            #[trigger] world.systems.at(foe),
        ) < 22500
}

proof fn lemma_exposed(world: GameWorld, key: SystemKey, side: bool)
    requires
        world.systems@.len() <= usize::MAX,
    ensures
        exposed(world, key, side) == frontline(world, world.systems.at(key), side),
{
    let sys = world.systems.at(key);
    if exposed(world, key, side) {
        let foe = choose|foe: SystemKey|
            holds(world, foe, !side) && distance_squared(sys, #[trigger] world.systems.at(foe))
                < 22500;
        assert(threatens(world, sys, side, foe.slot as int));
    }
    if frontline(world, sys, side) {
        let i = choose|i: int| threatens(world, sys, side, i);
        let foe = SystemKey { slot: i as usize };
        assert(holds(world, foe, !side));
        assert(distance_squared(sys, world.systems.at(foe)) < 22500);
    }
}

/// Regiments are given by exactly the systems of the side with more than the
/// donors' number, and needed by exactly those with fewer than the minimum. An
/// exposed system is served before one that is not; of two exposed alike the
/// headquarters first, and then by slot.
pub proof fn law_who_gives_and_who_needs(
    world: GameWorld,
    side: bool,
    config: GameConfig,
    key: SystemKey,
    j: int,
    k: int,
)
    ensures
        ({
            let givers = donors(world, side, config);
            let needy = receivers(world, side, config);
            let there = garrison(world, world.systems.at(key), side).len();
            let rich = there > config.ai.troop_garrison_donor_threshold;
            &&& givers.contains(key) <==> holds(world, key, side) && rich
            &&& needy.contains(key) <==> holds(world, key, side) && !rich && there
                < config.ai.troop_garrison_min
            &&& 0 <= j < k < needy.len() ==> {
                let a = exposed(world, needy[j], side);
                let b = exposed(world, needy[k], side);
                let x = world.systems.at(needy[j]).is_headquarters;
                let y = world.systems.at(needy[k]).is_headquarters;
                ||| a && !b
                ||| a == b && x && !y
                ||| a == b && x == y && needy[j].slot < needy[k].slot
            }
        }),
{
    let n = world.systems@.len();
    lemma_slots_bounded(&world.systems);
    let f = donor(world, side, config);
    let g = receiver(world, side, config);
    lemma_collect_covers(n, f);
    lemma_sorted_slots(n, g, |s: SystemKey| s.slot as int);
    let givers = donors(world, side, config);
    let needy = receivers(world, side, config);
    let sorted = stable_sort(collect(n, g));
    if givers.contains(key) {
        let l = choose|l: int| 0 <= l < givers.len() && givers[l] == key;
        assert(gives(n, f, givers[l]));
        let i = choose|i: int| 0 <= i < n && #[trigger] f(i) == Some(givers[l]);
    }
    if world.systems.has(key) && f(key.slot as int) is Some {
        assert(f(key.slot as int) == Some(key));
    }
    if needy.contains(key) {
        let l = choose|l: int| 0 <= l < needy.len() && needy[l] == key;
        assert(sorted[l].0 == key);
        assert(g(sorted[l].0.slot as int) == Some(sorted[l]));
    }
    if world.systems.has(key) && g(key.slot as int) is Some {
        let l = choose|l: int| 0 <= l < sorted.len() && sorted[l] == g(key.slot as int)->0;
        assert(needy[l] == key);
    }
    if 0 <= j < k < needy.len() {
        assert(needy[j] == sorted[j].0 && needy[k] == sorted[k].0);
        assert(g(sorted[j].0.slot as int) == Some(sorted[j]));
        assert(g(sorted[k].0.slot as int) == Some(sorted[k]));
        lemma_exposed(world, needy[j], side);
        lemma_exposed(world, needy[k], side);
    }
}

// ---- Loading ---------------------------------------------------------------

/// One ship more adds the troop room of its class, if it is alive and of a
/// known class.
pub proof fn law_every_transport_counts(
    world: GameWorld,
    fleet: Fleet,
    larger: Fleet,
    ship: ShipInstance,
)
    requires
        larger.capital_ships@ == fleet.capital_ships@.push(ship),
    ensures
        troop_room(world, larger) - troop_room(world, fleet) == if ship.alive
            && world.capital_ship_classes.has(ship.class) {
            world.capital_ship_classes.at(ship.class).troop_capacity as int
        } else {
            0
        },
        fleet.capital_ships@.len() == 0 ==> troop_room(world, fleet) == 0,
{
    lemma_total_same(fleet.capital_ships@.len(), berth(world, fleet), berth(world, larger));
}

/// An attack takes along as many regiments as it has room for, but leaves the
/// minimum behind; a reinforcement takes one, and only where it is needed and
/// the garrison has more than the donors' number.
pub proof fn law_how_many_come_along(room: int, available: nat, needed: bool, config: GameConfig)
    requires
        room >= 0,
    ensures
        ({
            let attack = allotment(room, available, FleetMoveReason::Attack, needed, config);
            let relief = allotment(room, available, FleetMoveReason::Reinforce, needed, config);
            let least = config.ai.troop_garrison_min;
            &&& 0 <= attack <= room
            &&& available <= least ==> attack == 0
            &&& available > least ==> attack <= available - least && (attack == room || attack
                == available - least)
            &&& relief == if needed && available > config.ai.troop_garrison_donor_threshold {
                1int
            } else {
                0
            }
        }),
{
}

/// Whether a regiment waits at a system for a fleet: it is of the side and
/// nobody has claimed it.
pub open spec fn waits_for_transport(
    world: GameWorld,
    sys: System,
    side: bool,
    claimed: Seq<TroopKey>,
    key: TroopKey,
) -> bool {
    &&& sys.ground_units@.contains(key)
    &&& !claimed.contains(key)
    &&& world.troops.has(key)
    &&& world.troops.at(key).is_alliance == side
}

/// A fleet that is sent off empty takes along regiments that wait at its
/// system, in the order of their keys, and never one while a waiting one with
/// a higher key stays behind.
pub proof fn law_who_comes_along(
    world: GameWorld,
    side: bool,
    config: GameConfig,
    m: Muster,
    fleet: FleetKey,
    to_system: SystemKey,
    reason: FleetMoveReason,
    left: TroopKey,
    j: int,
    k: int,
)
    requires
        world.fleets.has(fleet),
        world.systems.has(world.fleets.at(fleet).location),
        troop_room(world, world.fleets.at(fleet)) > 0,
        world.systems.at(world.fleets.at(fleet).location).ground_units@.no_duplicates(),
        world.systems.at(world.fleets.at(fleet).location).ground_units@.len() <= usize::MAX,
    ensures
        ({
            let f = world.fleets.at(fleet);
            let sys = world.systems.at(f.location);
            let aboard = loaded(world, side, config, m, fleet, to_system, reason, Seq::empty());
            let waiting = tally(
                sys.ground_units@.len(),
                |i: int| waits_for_transport(world, sys, side, m.claimed, sys.ground_units@[i]),
            );
            let limit = allotment(
                troop_room(world, f),
                waiting,
                reason,
                receivers(world, side, config).contains(to_system),
                config,
            );
            &&& aboard is Some
            &&& 0 <= limit <= waiting ==> aboard->0.len() == limit
            &&& 0 <= j < aboard->0.len() ==> waits_for_transport(
                world,
                sys,
                side,
                m.claimed,
                aboard->0[j],
            )
            &&& 0 <= j < k < aboard->0.len() ==> aboard->0[j].slot < aboard->0[k].slot
            &&& 0 <= limit <= waiting && 0 <= j < aboard->0.len() && waits_for_transport(
                world,
                sys,
                side,
                m.claimed,
                left,
            ) && !aboard->0.contains(left) ==> left.slot < aboard->0[j].slot
        }),
{
    let f = world.fleets.at(fleet);
    let sys = world.systems.at(f.location);
    let units = sys.ground_units@;
    let g = unclaimed(world, sys, side, m.claimed);
    let n = units.len();
    let found = collect(n, g);
    lemma_collect_covers(n, g);
    let waits = |i: int| waits_for_transport(world, sys, side, m.claimed, units[i]);
    assert forall|i: int| 0 <= i < n implies (#[trigger] g(i) is Some) == waits(i) by {
        assert(units.contains(units[i]));
    }
    crate::battle_laws::lemma_collect_count(n, g, waits);
    lemma_found_differ(world, sys, side, m.claimed, n);
    lemma_key_order(found);
    let sorted = in_key_order(found);
    let limit = allotment(
        troop_room(world, f),
        sorted.len(),
        reason,
        receivers(world, side, config).contains(to_system),
        config,
    );
    law_how_many_come_along(
        troop_room(world, f),
        sorted.len(),
        receivers(world, side, config).contains(to_system),
        config,
    );
    assert forall|l: int| 0 <= l < sorted.len() implies waits_for_transport(
        world,
        sys,
        side,
        m.claimed,
        #[trigger] sorted[l],
    ) by {
        assert(found.contains(sorted[l]));
        let a = choose|a: int| 0 <= a < found.len() && found[a] == sorted[l];
        assert(gives(n, g, found[a]));
        let i = choose|i: int| 0 <= i < n && #[trigger] g(i) == Some(found[a]);
        assert(units[i] == sorted[l]);
        assert(units.contains(units[i]));
    }
    lemma_limit(troop_room(world, f), sorted.len(), reason, receivers(world, side, config).contains(
        to_system,
    ), config);
    let picked = sorted.reverse().take(limit);
    assert(picked.len() == limit);
    assert forall|l: int| 0 <= l < picked.len() implies #[trigger] picked[l] == sorted[sorted.len()
        - 1 - l] by {}
    assert(Seq::<TroopKey>::empty() + picked =~= picked);
    assert forall|a: int, b: int| 0 <= a < b < picked.len() implies #[trigger] picked[a]
        != #[trigger] picked[b] by {
        assert(sorted[sorted.len() - 1 - b].slot < sorted[sorted.len() - 1 - a].slot);
    }
    lemma_key_order(picked);
    let aboard = in_key_order(picked);
    assert forall|l: int| 0 <= l < aboard.len() implies exists|p: int|
        sorted.len() - limit <= p < sorted.len() && #[trigger] sorted[p] == (
        #[trigger] aboard[l]) by {
        assert(picked.contains(aboard[l]));
        let a = choose|a: int| 0 <= a < picked.len() && picked[a] == aboard[l];
        assert(sorted[sorted.len() - 1 - a] == aboard[l]);
    }
    if 0 <= j < aboard.len() {
        let p = choose|p: int|
            sorted.len() - limit <= p < sorted.len() && #[trigger] sorted[p] == aboard[j];
        if waits_for_transport(world, sys, side, m.claimed, left) && !aboard.contains(left) {
            let i = choose|i: int| 0 <= i < n && units[i] == left;
            assert(g(i) == Some(left));
            let a = choose|a: int| 0 <= a < found.len() && found[a] == left;
            assert(sorted.contains(found[a]));
            let q = choose|q: int| 0 <= q < sorted.len() && sorted[q] == left;
            if q >= sorted.len() - limit {
                assert(picked[sorted.len() - 1 - q] == left);
                assert(aboard.contains(picked[sorted.len() - 1 - q]));
            }
            assert(sorted[q].slot < sorted[p].slot);
        }
    }
}

proof fn lemma_limit(
    room: int,
    available: nat,
    reason: FleetMoveReason,
    needed: bool,
    config: GameConfig,
)
    requires
        room >= 0,
    ensures
        0 <= allotment(room, available, reason, needed, config) <= available,
{
}

proof fn lemma_found_differ(
    world: GameWorld,
    sys: System,
    side: bool,
    claimed: Seq<TroopKey>,
    n: nat,
)
    requires
        n <= sys.ground_units@.len(),
        sys.ground_units@.no_duplicates(),
    ensures
        ({
            let found = collect(n, unclaimed(world, sys, side, claimed));
            &&& forall|a: int, b: int|
                0 <= a < b < found.len() ==> #[trigger] found[a] != #[trigger] found[b]
            &&& forall|a: int|
                0 <= a < found.len() ==> exists|i: int|
                    0 <= i < n && #[trigger] sys.ground_units@[i] == (#[trigger] found[a])
        }),
    decreases n,
{
    if n > 0 {
        let m = (n - 1) as nat;
        lemma_found_differ(world, sys, side, claimed, m);
        let before = collect(m, unclaimed(world, sys, side, claimed));
        let found = collect(n, unclaimed(world, sys, side, claimed));
        assert forall|a: int| 0 <= a < found.len() implies exists|i: int|
            0 <= i < n && #[trigger] sys.ground_units@[i] == (#[trigger] found[a]) by {
            if a < before.len() {
                assert(found[a] == before[a]);
                let i = choose|i: int|
                    0 <= i < m && #[trigger] sys.ground_units@[i] == before[a];
                assert(sys.ground_units@[i] == found[a]);
            } else {
                assert(sys.ground_units@[m as int] == found[a]);
            }
        }
        assert forall|a: int, b: int| 0 <= a < b < found.len() implies #[trigger] found[a]
            != #[trigger] found[b] by {
            assert(found[a] == before[a]);
            if b < before.len() {
                assert(found[b] == before[b]);
            } else {
                let i = choose|i: int|
                    0 <= i < m && #[trigger] sys.ground_units@[i] == before[a];
                assert(found[b] == sys.ground_units@[m as int]);
            }
        }
    }
}

/// Ordering by key keeps the same regiments, with rising keys where none is
/// named twice.
proof fn lemma_key_order(list: Seq<TroopKey>)
    requires
        forall|a: int, b: int| 0 <= a < b < list.len() ==> #[trigger] list[a] != #[trigger] list[b],
    ensures
        in_key_order(list).len() == list.len(),
        forall|a: int, b: int|
            0 <= a < b < list.len() ==> (#[trigger] in_key_order(list)[a]).slot < (
            #[trigger] in_key_order(list)[b]).slot,
        forall|a: int| 0 <= a < list.len() ==> list.contains(#[trigger] in_key_order(list)[a]),
        forall|a: int| 0 <= a < list.len() ==> in_key_order(list).contains(#[trigger] list[a]),
{
    broadcast use vstd::seq_lib::group_to_multiset_ensures;

    let entries = Seq::new(list.len(), |i: int| (list[i], list[i].slot as i128));
    let sorted = stable_sort(entries);
    crate::select::law_sort_orders(entries);
    assert(entries.no_duplicates());
    entries.lemma_multiset_has_no_duplicates();
    sorted.lemma_multiset_has_no_duplicates_conv();
    let order = in_key_order(list);
    assert forall|a: int| 0 <= a < list.len() implies list.contains(#[trigger] order[a])
        && sorted[a].1 == order[a].slot by {
        assert(sorted.contains(sorted[a]));
        assert(sorted.to_multiset().count(sorted[a]) > 0);
        assert(entries.contains(sorted[a]));
        let i = choose|i: int| 0 <= i < entries.len() && entries[i] == sorted[a];
        assert(list[i] == order[a]);
    }
    assert forall|a: int| 0 <= a < list.len() implies order.contains(#[trigger] list[a]) by {
        assert(entries[a].0 == list[a]);
        assert(entries.contains(entries[a]));
        assert(entries.to_multiset().count(entries[a]) > 0);
        assert(sorted.contains(entries[a]));
        let i = choose|i: int| 0 <= i < sorted.len() && sorted[i] == entries[a];
        assert(order[i] == list[a]);
    }
    assert forall|a: int, b: int| 0 <= a < b < list.len() implies (#[trigger] order[a]).slot < (
    #[trigger] order[b]).slot by {
        assert(sorted[a].1 <= sorted[b].1);
        assert(sorted[a] != sorted[b]);
        assert(sorted[a].1 == order[a].slot && sorted[b].1 == order[b].slot);
    }
}

// ---- Relief ----------------------------------------------------------------

/// Whether a fleet can take a regiment somewhere: it is of the side, is
/// neither under way nor under orders, and has a living ship with troop room.
pub open spec fn can_transport(
    world: GameWorld,
    movement: MovementState,
    side: bool,
    taken: Seq<FleetKey>,
    key: FleetKey,
) -> bool {
    let fleet = world.fleets.at(key);
    &&& world.fleets.has(key)
    &&& fleet.is_alliance == side
    &&& !under_way(movement, key)
    &&& !taken.contains(key)
    &&& exists|i: int|
        0 <= i < fleet.capital_ships@.len() && (#[trigger] fleet.capital_ships@[i]).alive
            && world.capital_ship_classes.has(fleet.capital_ships@[i].class)
            && world.capital_ship_classes.at(fleet.capital_ships@[i].class).troop_capacity > 0
}

/// A system in need that no reinforcement is bound for is sent a regiment as
/// long as one of the donors has both a regiment that nobody claimed and a
/// fleet to take it; both come from the same donor and are under orders from
/// then on. Otherwise nothing happens.
pub proof fn law_the_needy_are_relieved(
    world: GameWorld,
    movement: MovementState,
    side: bool,
    givers: Seq<SystemKey>,
    m: Muster,
    to_system: SystemKey,
    d: int,
    fleet: FleetKey,
    troop: TroopKey,
)
    ensures
        ({
            let after = relieve_one(world, movement, side, givers, m, to_system);
            let able = |g: SystemKey, f: FleetKey, t: TroopKey|
                world.systems.at(g).fleets@.contains(f) && can_transport(
                    world,
                    movement,
                    side,
                    m.moved,
                    f,
                ) && garrison(world, world.systems.at(g), side).contains(t) && !m.claimed.contains(
                    t,
                );
            let sent = after.orders.last();
            &&& m.reinforced.contains(to_system) ==> after == m
            &&& !m.reinforced.contains(to_system) && 0 <= d < givers.len() && able(
                givers[d],
                fleet,
                troop,
            ) ==> {
                &&& after.orders == m.orders.push(sent)
                &&& sent is Move
                &&& sent->Move_to_system == to_system
                &&& sent->Move_reason == FleetMoveReason::Reinforce
                &&& sent->Move_troops.len() == 1
                &&& after.claimed == m.claimed.push(sent->Move_troops[0])
                &&& after.moved == m.moved.push(sent->Move_fleet)
                &&& exists|g: int|
                    0 <= g <= d && able(
                        #[trigger] givers[g],
                        sent->Move_fleet,
                        sent->Move_troops[0],
                    )
            }
            &&& after != m ==> exists|g: int|
                0 <= g < givers.len() && able(
                    #[trigger] givers[g],
                    sent->Move_fleet,
                    sent->Move_troops[0],
                )
        }),
{
    lemma_offer(world, movement, side, m, givers, 0, d, fleet, troop);
}

proof fn lemma_offer(
    world: GameWorld,
    movement: MovementState,
    side: bool,
    m: Muster,
    givers: Seq<SystemKey>,
    from: nat,
    d: int,
    fleet: FleetKey,
    troop: TroopKey,
)
    ensures
        ({
            let offer = first_offer(world, movement, side, m, givers, from);
            let able = |g: SystemKey, f: FleetKey, t: TroopKey|
                world.systems.at(g).fleets@.contains(f) && can_transport(
                    world,
                    movement,
                    side,
                    m.moved,
                    f,
                ) && garrison(world, world.systems.at(g), side).contains(t) && !m.claimed.contains(
                    t,
                );
            &&& offer matches Some(o) ==> exists|g: int|
                from <= g < givers.len() && able(#[trigger] givers[g], o.0, o.1)
            &&& from <= d < givers.len() && able(givers[d], fleet, troop) ==> offer is Some && exists|
                g: int,
            |
                from <= g <= d && able(#[trigger] givers[g], (offer->0).0, (offer->0).1)
        }),
    decreases givers.len() - from,
{
    if from < givers.len() {
        let g = givers[from as int];
        let sys = world.systems.at(g);
        let troops = garrison(world, sys, side);
        lemma_last_unclaimed(troops, m.claimed, troops.len(), troop);
        lemma_first_transport(world, movement, side, m.moved, sys.fleets@, 0, fleet);
        lemma_offer(world, movement, side, m, givers, from + 1, d, fleet, troop);
        assert(givers[from as int] == g);
    }
}

proof fn lemma_last_unclaimed(list: Seq<TroopKey>, claimed: Seq<TroopKey>, n: nat, troop: TroopKey)
    requires
        n <= list.len(),
    ensures
        last_unclaimed(list, claimed, n) matches Some(t) ==> list.contains(t) && !claimed.contains(
            t,
        ),
        (exists|i: int| 0 <= i < n && #[trigger] list[i] == troop) && !claimed.contains(troop)
            ==> last_unclaimed(list, claimed, n) is Some,
    decreases n,
{
    if n > 0 {
        lemma_last_unclaimed(list, claimed, (n - 1) as nat, troop);
        assert(list.contains(list[n - 1]));
    }
}

proof fn lemma_first_transport(
    world: GameWorld,
    movement: MovementState,
    side: bool,
    taken: Seq<FleetKey>,
    list: Seq<FleetKey>,
    from: nat,
    key: FleetKey,
)
    ensures
        first_transport(world, movement, side, taken, list, from) matches Some(f)
            ==> list.contains(f) && can_transport(world, movement, side, taken, f),
        (exists|i: int| from <= i < list.len() && #[trigger] list[i] == key) && can_transport(
            world,
            movement,
            side,
            taken,
            key,
        ) ==> first_transport(world, movement, side, taken, list, from) is Some,
    decreases list.len() - from,
{
    if from < list.len() {
        lemma_first_transport(world, movement, side, taken, list, from + 1, key);
        lemma_transport(world, movement, side, taken, list[from as int]);
        lemma_transport(world, movement, side, taken, key);
        assert(list.contains(list[from as int]));
    }
}

proof fn lemma_transport(
    world: GameWorld,
    movement: MovementState,
    side: bool,
    taken: Seq<FleetKey>,
    key: FleetKey,
)
    ensures
        free_transport(world, movement, side, taken, key) == can_transport(
            world,
            movement,
            side,
            taken,
            key,
        ),
{
    let fleet = world.fleets.at(key);
    assert(under_way(movement, key) == in_transit(movement.orders@, key));
    if exists|i: int| has_berth(world, fleet, i) {
        let i = choose|i: int| has_berth(world, fleet, i);
        assert(fleet.capital_ships@[i].alive);
    }
    if exists|i: int|
        0 <= i < fleet.capital_ships@.len() && (#[trigger] fleet.capital_ships@[i]).alive
            && world.capital_ship_classes.has(fleet.capital_ships@[i].class)
            && world.capital_ship_classes.at(fleet.capital_ships@[i].class).troop_capacity > 0 {
        let i = choose|i: int|
            0 <= i < fleet.capital_ships@.len() && (#[trigger] fleet.capital_ships@[i]).alive
                && world.capital_ship_classes.has(fleet.capital_ships@[i].class)
                && world.capital_ship_classes.at(fleet.capital_ships@[i].class).troop_capacity > 0;
        assert(has_berth(world, fleet, i));
    }
}

// ---- Nothing is lost -------------------------------------------------------

/// Whether one order is another, but for the regiments that a fleet takes.
pub open spec fn same_but_troops(a: Order, b: Order) -> bool {
    match (a, b) {
        (
            Order::Move { fleet, to_system, reason, troops },
            Order::Move { fleet: f, to_system: s, reason: r, troops: t },
        ) => fleet == f && to_system == s && reason == r,
        _ => a == b,
    }
}

/// Handing out regiments keeps every order in its place and changes nothing
/// about it but who comes along; orders of its own come behind.
pub proof fn law_mustering_keeps_orders(
    world: GameWorld,
    movement: MovementState,
    side: bool,
    config: GameConfig,
    given: Seq<Order>,
    k: int,
)
    requires
        0 <= k < given.len(),
    ensures
        ({
            let all = mustered(world, movement, side, config, given);
            all.len() >= given.len() && same_but_troops(given[k], all[k])
        }),
{
    lemma_loading_keeps(world, side, config, given, given.len());
    let m = load_all(world, side, config, given, given.len());
    let needy = receivers(world, side, config);
    lemma_relief_adds(
        world,
        movement,
        side,
        donors(world, side, config),
        needy,
        m,
        needy.len(),
    );
    let all = mustered(world, movement, side, config, given);
    assert(all[k] == m.orders[k]);
}

proof fn lemma_loading_keeps(
    world: GameWorld,
    side: bool,
    config: GameConfig,
    given: Seq<Order>,
    n: nat,
)
    requires
        n <= given.len(),
    ensures
        ({
            let m = load_all(world, side, config, given, n);
            m.orders.len() == n && forall|k: int|
                0 <= k < n ==> same_but_troops(given[k], #[trigger] m.orders[k])
        }),
    decreases n,
{
    if n > 0 {
        lemma_loading_keeps(world, side, config, given, (n - 1) as nat);
        let before = load_all(world, side, config, given, (n - 1) as nat);
        let after = load_all(world, side, config, given, n);
        assert forall|k: int| 0 <= k < n implies same_but_troops(
            given[k],
            #[trigger] after.orders[k],
        ) by {
            if k < n - 1 {
                assert(after.orders[k] == before.orders[k]);
            }
        }
    }
}

proof fn lemma_relief_adds(
    world: GameWorld,
    movement: MovementState,
    side: bool,
    givers: Seq<SystemKey>,
    needy: Seq<SystemKey>,
    m: Muster,
    n: nat,
)
    ensures
        ({
            let after = relieve_all(world, movement, side, givers, needy, m, n);
            after.orders.len() >= m.orders.len() && forall|k: int|
                0 <= k < m.orders.len() ==> #[trigger] after.orders[k] == m.orders[k]
        }),
    decreases n,
{
    if n > 0 {
        lemma_relief_adds(world, movement, side, givers, needy, m, (n - 1) as nat);
    }
}

/// Whether an order is among others, but for regiments.
pub open spec fn among(order: Order, all: Seq<Order>) -> bool {
    exists|j: int| 0 <= j < all.len() && same_but_troops(order, #[trigger] all[j])
}

/// Whether every order of a list is among others, but for regiments.
pub open spec fn all_among(part: Seq<Order>, all: Seq<Order>) -> bool {
    forall|k: int| 0 <= k < part.len() ==> among(#[trigger] part[k], all)
}

/// An evaluation leaves nothing out: whatever is thought of for officers,
/// operatives, captives, scouts, laboratories, yards, restless systems, the
/// Death Star and the fleets is among its orders.
pub proof fn law_an_evaluation_leaves_nothing_out(
    state: AIState,
    world: GameWorld,
    mfg: ManufacturingState,
    movement: MovementState,
    config: GameConfig,
    research: ResearchState,
    advice: Advice,
    faction: AiFaction,
)
    ensures
        ({
            let side = faction == AiFaction::Alliance;
            let all = evaluation(
                state,
                world,
                mfg,
                movement,
                config,
                research,
                advice,
                faction,
            );
            let early = early_orders(
                state,
                world,
                mfg,
                movement,
                config,
                research,
                advice,
                faction,
            );
            &&& all_among(
                officer_orders(
                    state,
                    world,
                    faction,
                    config,
                    openings(world, faction, config),
                    world.characters@.len(),
                ).0,
                all,
            )
            &&& all_among(covert_plan(state, world, faction, config, advice).orders, all)
            &&& all_among(rescue_orders(state, world, faction), all)
            &&& all_among(recon_plan(state, world, faction, config, advice).orders, all)
            &&& all_among(research_orders(state, world, research, faction, advice), all)
            &&& all_among(
                collect(
                    world.systems@.len(),
                    build_order(world, mfg, side, config, means(world, faction)),
                ),
                all,
            )
            &&& all_among(calming_orders(state, world, faction, config), all)
            &&& all_among(
                death_star_order(world, movement, side, advice.death_star_outgunned),
                all,
            )
            &&& all_among(deployment_orders(world, movement, faction, advice, early), all)
        }),
{
    let side = faction == AiFaction::Alliance;
    let early = early_orders(state, world, mfg, movement, config, research, advice, faction);
    let late = deployment_orders(world, movement, faction, advice, early);
    let given = early + late;
    let all = evaluation(state, world, mfg, movement, config, research, advice, faction);
    let p1 = officer_orders(
        state,
        world,
        faction,
        config,
        openings(world, faction, config),
        world.characters@.len(),
    ).0;
    let p2 = covert_plan(state, world, faction, config, advice).orders;
    let p3 = rescue_orders(state, world, faction);
    let p4 = recon_plan(state, world, faction, config, advice).orders;
    let p5 = research_orders(state, world, research, faction, advice);
    let p6 = collect(
        world.systems@.len(),
        build_order(world, mfg, side, config, means(world, faction)),
    );
    let p7 = calming_orders(state, world, faction, config);
    let p8 = death_star_order(world, movement, side, advice.death_star_outgunned);
    assert(early == p1 + p2 + p3 + p4 + p5 + p6 + p7 + p8);
    assert forall|k: int| 0 <= k < given.len() implies same_but_troops(
        #[trigger] given[k],
        all[k],
    ) && k < all.len() by {
        law_mustering_keeps_orders(world, movement, side, config, given, k);
    }
    lemma_part(given, all, p1, 0);
    lemma_part(given, all, p2, p1.len() as int);
    lemma_part(given, all, p3, (p1 + p2).len() as int);
    lemma_part(given, all, p4, (p1 + p2 + p3).len() as int);
    lemma_part(given, all, p5, (p1 + p2 + p3 + p4).len() as int);
    lemma_part(given, all, p6, (p1 + p2 + p3 + p4 + p5).len() as int);
    lemma_part(given, all, p7, (p1 + p2 + p3 + p4 + p5 + p6).len() as int);
    lemma_part(given, all, p8, (p1 + p2 + p3 + p4 + p5 + p6 + p7).len() as int);
    lemma_part(given, all, late, early.len() as int);
}

proof fn lemma_part(given: Seq<Order>, all: Seq<Order>, part: Seq<Order>, at: int)
    requires
        0 <= at,
        at + part.len() <= given.len(),
        forall|k: int| 0 <= k < part.len() ==> #[trigger] part[k] == given[at + k],
        forall|k: int|
            0 <= k < given.len() ==> same_but_troops(#[trigger] given[k], all[k]) && k < all.len(),
    ensures
        all_among(part, all),
{
    assert forall|k: int| 0 <= k < part.len() implies among(#[trigger] part[k], all) by {
        assert(part[k] == given[at + k]);
        assert(same_but_troops(part[k], all[at + k]));
    }
}

/// Research is ordered for all three trees, each for as long as was advised.
pub proof fn law_all_trees_are_researched(
    state: AIState,
    world: GameWorld,
    research: ResearchState,
    faction: AiFaction,
    advice: Advice,
)
    ensures
        ({
            let all = research_orders(state, world, research, faction, advice);
            let tree = |tech: crate::research::TechType, ticks: u32|
                all_among(
                    crate::ai_covert::research_order(
                        state,
                        world,
                        research,
                        faction,
                        tech,
                        ticks,
                    ),
                    all,
                );
            &&& tree(crate::research::TechType::Ship, advice.ship_research_ticks)
            &&& tree(crate::research::TechType::Troop, advice.troop_research_ticks)
            &&& tree(crate::research::TechType::Facility, advice.facility_research_ticks)
        }),
{
    let a = crate::ai_covert::research_order(
        state,
        world,
        research,
        faction,
        crate::research::TechType::Ship,
        advice.ship_research_ticks,
    );
    let b = crate::ai_covert::research_order(
        state,
        world,
        research,
        faction,
        crate::research::TechType::Troop,
        advice.troop_research_ticks,
    );
    let c = crate::ai_covert::research_order(
        state,
        world,
        research,
        faction,
        crate::research::TechType::Facility,
        advice.facility_research_ticks,
    );
    let all = research_orders(state, world, research, faction, advice);
    assert(all == a + b + c);
    lemma_part(all, all, a, 0);
    lemma_part(all, all, b, a.len() as int);
    lemma_part(all, all, c, (a + b).len() as int);
}

/// Idle fleets are deployed one after the other, and so are those that wait.
pub proof fn law_fleets_take_turns(
    world: GameWorld,
    faction: AiFaction,
    g: Galaxy,
    max_fronts: nat,
    advice: Advice,
    start: Deploy,
    idle: Seq<(FleetKey, SystemKey)>,
    n: nat,
)
    ensures
        deploy_all(world, faction, g, max_fronts, advice, start, idle, 0) == start,
        n < idle.len() ==> deploy_all(world, faction, g, max_fronts, advice, start, idle, n + 1)
            == deploy_one(
            world,
            faction,
            g,
            max_fronts,
            advice,
            deploy_all(world, faction, g, max_fronts, advice, start, idle, n),
            idle[n as int],
        ),
        pile_all(start, 0) == start,
        n < start.waiting.len() ==> pile_all(start, n + 1) == pile_one(
            pile_all(start, n),
            start.waiting[n as int],
        ),
{
}

/// A fleet that is loaded is under orders, those it takes along are claimed,
/// and a system that it reinforces with anybody is noted. Other orders change
/// nothing of that.
pub proof fn law_loading_is_noted(
    world: GameWorld,
    side: bool,
    config: GameConfig,
    m: Muster,
    order: Order,
)
    ensures
        ({
            let after = load_one(world, side, config, m, order);
            match order {
                Order::Move { fleet, to_system, reason, troops } => {
                    let sent = after.orders.last()->Move_troops;
                    let aboard = loaded(world, side, config, m, fleet, to_system, reason, troops);
                    let helped = reason == FleetMoveReason::Reinforce && aboard is Some
                        && aboard->0.len() > 0;
                    &&& after.orders == m.orders.push(
                        Order::Move { fleet, to_system, reason, troops: sent },
                    )
                    &&& aboard is Some ==> sent == aboard->0 && after.claimed == m.claimed + sent
                    &&& aboard is None ==> sent == troops && after.claimed == m.claimed
                    &&& after.moved == m.moved.push(fleet)
                    &&& helped ==> after.reinforced == m.reinforced.push(to_system)
                    &&& !helped ==> after.reinforced == m.reinforced
                },
                _ => after == (Muster { orders: m.orders.push(order), ..m }),
            }
        }),
{
}

/// Orders are loaded one after the other, and then the needy are relieved one
/// after the other.
pub proof fn law_mustering_takes_turns(
    world: GameWorld,
    movement: MovementState,
    side: bool,
    config: GameConfig,
    given: Seq<Order>,
    givers: Seq<SystemKey>,
    needy: Seq<SystemKey>,
    m: Muster,
    n: nat,
)
    ensures
        n < given.len() ==> load_all(world, side, config, given, n + 1) == load_one(
            world,
            side,
            config,
            load_all(world, side, config, given, n),
            given[n as int],
        ),
        n < needy.len() ==> relieve_all(world, movement, side, givers, needy, m, n + 1)
            == relieve_one(
            world,
            movement,
            side,
            givers,
            relieve_all(world, movement, side, givers, needy, m, n),
            needy[n as int],
        ),
        relieve_all(world, movement, side, givers, needy, m, 0) == m,
        ({
            let start = load_all(world, side, config, given, 0);
            start.orders.len() == 0 && start.claimed.len() == 0 && start.moved.len() == 0
                && start.reinforced.len() == 0
        }),
{
}

/// The computer player evaluates on the first day, and again as soon as the
/// interval has passed since the last time.
pub proof fn law_evaluations_come_due(state: AIState, today: u64, interval: u64)
    ensures
        today == 0 ==> state.due(today, interval),
        today >= state.last_eval_tick + interval ==> state.due(today, interval),
        0 < today && state.last_eval_tick <= today < state.last_eval_tick + interval
            ==> !state.due(today, interval),
{
}

/// A target is as good as the appraisal says, and worth nothing where it says
/// nothing.
pub proof fn law_appraisals_are_taken_as_given(advice: Advice, asked: nat, j: int)
    requires
        j >= 0,
    ensures
        asked < advice.rankings@.len() && j < advice.rankings@[asked as int]@.len() ==> advice.rank(
            asked,
            j,
        ) == advice.rankings@[asked as int]@[j],
        asked >= advice.rankings@.len() ==> advice.rank(asked, j) == 0,
        asked < advice.rankings@.len() && j >= advice.rankings@[asked as int]@.len()
            ==> advice.rank(asked, j) == 0,
{
}

} // verus!
