//! How the computer player moves fleets and regiments, in terms of the world
//! it looks at.

use crate::ai::{fleet_dispatchable, Advice, AiFaction, FleetMoveReason, Order};
use crate::ai_deploy::{
    aimed_at, aims, appraised, asks, attack_list, beyond, bound_for, crowded, deploy_all,
    deploy_one, deploy_start, deployment_orders, fair, fronts, front_limit, guard, hq_guard,
    idle_fleet, idle_fleets, largest_attack, most_crowded, moved, moves, open_question, opens_front,
    pile_all, pile_one, Deploy,
};
use crate::ai_fleets::death_star_target;
use crate::ai_strength::{fleet_strength_of, galaxy_of, side_present, strength_of, Galaxy};
use crate::ai_view_laws::{flown_over, holds, under_way, up_to_limit};
use crate::arena::lemma_slots_bounded;
use crate::ids::{FleetKey, SystemKey};
use crate::movement::{in_transit, MovementState};
use crate::select::{
    collect, first_min, gives, is_last_max, last_max, lemma_collect_covers, lemma_last_max_tops,
    lemma_tally_same, tally,
};
use crate::world::{alive_ships, Fleet, GameWorld, ShipInstance};
use vstd::prelude::*;

verus! {

// ---- Fronts ----------------------------------------------------------------

/// A further target opens a front exactly if nobody is bound for it yet, and
/// adds one to the fleets that are bound for it and for no other system.
pub proof fn law_fronts_are_different_systems(
    targets: Seq<SystemKey>,
    target: SystemKey,
    other: SystemKey,
)
    ensures
        fronts(Seq::empty()) == 0,
        fronts(targets.push(target)) == fronts(targets) + if targets.contains(target) {
            0nat
        } else {
            1nat
        },
        aimed_at(Seq::empty(), other) == 0,
        aimed_at(targets.push(target), other) == aimed_at(targets, other) + if target == other {
            1nat
        } else {
            0nat
        },
        aimed_at(targets, other) > 0 <==> targets.contains(other),
{
    let more = targets.push(target);
    let n = targets.len();
    assert forall|i: int| 0 <= i < n implies #[trigger] opens_front(targets, i) == opens_front(
        more,
        i,
    ) by {
        assert(targets[i] == more[i]);
        assert(forall|j: int| 0 <= j < i ==> targets[j] == more[j]);
    }
    lemma_tally_same(n, |i: int| opens_front(targets, i), |i: int| opens_front(more, i));
    lemma_tally_same(n, aims(targets, other), aims(more, other));
    assert(opens_front(more, n as int) == !targets.contains(target)) by {
        if targets.contains(target) {
            let j = choose|j: int| 0 <= j < n && targets[j] == target;
            assert(more[j] == more[n as int]);
        } else {
            assert forall|j: int| 0 <= j < n implies more[j] != more[n as int] by {
                assert(targets[j] == more[j]);
            }
        }
    }
    if targets.contains(other) {
        let j = choose|j: int| 0 <= j < n && targets[j] == other;
        crate::fire_laws::lemma_counted(n, aims(targets, other), j);
    }
    if aimed_at(targets, other) > 0 {
        crate::fire_laws::lemma_count_witness(n, aims(targets, other));
        let f = aims(targets, other);
        let j = choose|j: int| 0 <= j < n && #[trigger] f(j);
        assert(targets[j] == other);
    }
}

/// The fleets of a side that are under way count for the systems they are
/// bound for before any fleet is deployed.
pub proof fn law_fleets_under_way_count(
    world: GameWorld,
    movement: MovementState,
    side: bool,
    g: Galaxy,
    system: SystemKey,
)
    ensures
        ({
            let start = deploy_start(world, movement, side, g);
            &&& start.targets.contains(system) <==> exists|i: int|
                0 <= i < movement.orders@.len() && (#[trigger] movement.orders@[i]).destination
                    == system && world.fleets.has(movement.orders@[i].fleet) && world.fleets.at(
                    movement.orders@[i].fleet,
                ).is_alliance == side
            &&& start.hq_defended <==> g.our_hq is Some && world.systems.has(g.our_hq->0)
                && flown_over(world, g.our_hq->0, side)
            &&& start.orders.len() == 0
        }),
{
    let f = bound_for(world, movement, side);
    let n = movement.orders@.len();
    lemma_collect_covers(n, f);
    let list = collect(n, f);
    if list.contains(system) {
        let k = choose|k: int| 0 <= k < list.len() && list[k] == system;
        assert(gives(n, f, list[k]));
        let i = choose|i: int| 0 <= i < n && #[trigger] f(i) == Some(list[k]);
        assert(movement.orders@[i].destination == system);
    }
    if exists|i: int|
        0 <= i < movement.orders@.len() && (#[trigger] movement.orders@[i]).destination == system
            && world.fleets.has(movement.orders@[i].fleet) && world.fleets.at(
            movement.orders@[i].fleet,
        ).is_alliance == side {
        let i = choose|i: int|
            0 <= i < movement.orders@.len() && (#[trigger] movement.orders@[i]).destination
                == system && world.fleets.has(movement.orders@[i].fleet) && world.fleets.at(
                movement.orders@[i].fleet,
            ).is_alliance == side;
        assert(f(i) == Some(system));
    }
    if g.our_hq is Some {
        assert(flown_over(world, g.our_hq->0, side) == side_present(
            world,
            world.systems.at(g.our_hq->0),
            side,
        ));
    }
}

/// Attacks may be opened on as many fronts as was advised, one at least, but
/// on no more than there are idle fleets.
pub proof fn law_how_many_fronts(advice: Advice, idle: nat)
    ensures
        front_limit(advice, idle) <= idle,
        idle > 0 ==> front_limit(advice, idle) >= 1,
        advice.attack_fronts >= 1 && idle >= advice.attack_fronts ==> front_limit(advice, idle)
            == advice.attack_fronts,
        advice.attack_fronts >= 1 && idle < advice.attack_fronts ==> front_limit(advice, idle)
            == idle,
        advice.attack_fronts == 0 && idle > 0 ==> front_limit(advice, idle) == 1,
{
}

// ---- Who may go ------------------------------------------------------------

/// Whether a fleet can be left at the headquarters.
pub open spec fn home_guard(world: GameWorld, movement: MovementState, side: bool, key: FleetKey) -> bool {
    let fleet = world.fleets.at(key);
    &&& world.fleets.has(key)
    &&& fleet.is_alliance == side
    &&& !fleet.has_death_star
    &&& fleet.capital_ships@.len() > 0 || fleet.fighters@.len() > 0
    &&& !under_way(movement, key)
}

/// The headquarters keeps a fleet that is there and can guard it: of several
/// none that is weaker leaves in its place, and a single one is kept only if
/// it has one ship at the most.
pub proof fn law_the_weakest_stays_home(
    world: GameWorld,
    movement: MovementState,
    side: bool,
    hq: SystemKey,
    a: int,
    b: int,
)
    requires
        world.systems.has(hq),
    ensures
        ({
            let kept = hq_guard(world, movement, side, Some(hq));
            let there = world.systems.at(hq).fleets@;
            let guards = tally(
                there.len(),
                |i: int| home_guard(world, movement, side, there[i]),
            );
            &&& kept matches Some(key) ==> there.contains(key) && home_guard(
                world,
                movement,
                side,
                key,
            )
            &&& guards == 0 ==> kept is None
            &&& guards >= 2 ==> kept is Some
            &&& 0 <= a < there.len() && home_guard(world, movement, side, there[a]) && kept is Some
                ==> {
                let mine = fleet_strength_of(world, world.fleets.at(kept->0));
                let other = fleet_strength_of(world, world.fleets.at(there[a]));
                mine < other || (mine == other && kept->0.slot <= there[a].slot)
            }
            &&& guards == 1 && 0 <= a < there.len() && home_guard(world, movement, side, there[a])
                ==> {
                let ships = world.fleets.at(there[a]).capital_ships@;
                kept is Some <==> tally(ships.len(), |i: int| ships[i].alive) <= 1
            }
        }),
        hq_guard(world, movement, side, None) is None,
{
    let sys = world.systems.at(hq);
    let there = sys.fleets@;
    let n = there.len();
    let f = guard(world, movement, side, sys);
    let list = collect(n, f);
    let guards = |i: int| home_guard(world, movement, side, there[i]);
    assert forall|i: int| 0 <= i < n implies (#[trigger] f(i) is Some) == guards(i) by {
        assert(under_way(movement, there[i]) == in_transit(movement.orders@, there[i]));
    }
    crate::battle_laws::lemma_collect_count(n, f, guards);
    lemma_collect_covers(n, f);
    if list.len() > 0 {
        assert(gives(n, f, list[0]));
        let i0 = choose|i: int| 0 <= i < n && #[trigger] f(i) == Some(list[0]);
        assert(there[i0] == list[0].0);
        lemma_first_min(list);
        let m = choose|m: int|
            0 <= m < list.len() && first_min(list) == Some((#[trigger] list[m]).0) && (forall|j: int|
                0 <= j < list.len() ==> (#[trigger] list[j]).1 >= list[m].1);
        assert(gives(n, f, list[m]));
        let im = choose|i: int| 0 <= i < n && #[trigger] f(i) == Some(list[m]);
        assert(there[im] == list[m].0);
        if 0 <= a < n && guards(a) {
            let k = choose|k: int| 0 <= k < list.len() && list[k] == f(a)->0;
            assert(list[k].1 >= list[m].1);
            assert(list.len() == 1 ==> k == 0);
            lemma_guard_rank(world, there[a]);
            lemma_guard_rank(world, list[m].0);
            lemma_guard_rank(world, list[0].0);
            let ships = world.fleets.at(there[a]).capital_ships@;
            lemma_alive_tally(ships, ships.len());
        }
    }
}

/// A rank tells strength and slot apart.
proof fn lemma_guard_rank(world: GameWorld, key: FleetKey)
    ensures
        0 <= fleet_strength_of(world, world.fleets.at(key)) <= u32::MAX,
        0 <= key.slot < 0x1_0000_0000_0000_0000,
{
    crate::ai_view_laws::lemma_fleet_fits(world, world.fleets.at(key));
}

proof fn lemma_alive_tally(ships: Seq<ShipInstance>, n: nat)
    requires
        n <= ships.len(),
    ensures
        alive_ships(ships, n) == tally(n, |i: int| ships[i].alive),
    decreases n,
{
    if n > 0 {
        lemma_alive_tally(ships, (n - 1) as nat);
    }
}

proof fn lemma_first_min<A>(entries: Seq<(A, i128)>)
    requires
        entries.len() > 0,
    ensures
        exists|m: int|
            0 <= m < entries.len() && first_min(entries) == Some((#[trigger] entries[m]).0) && (
            forall|j: int| 0 <= j < entries.len() ==> (#[trigger] entries[j]).1 >= entries[m].1),
{
    let low = crate::select::lemma_has_first_min(entries);
    let m = choose|m: int| crate::select::is_first_min(entries, m);
    assert(crate::select::is_first_min(entries, m));
    assert(first_min(entries) == Some(entries[m].0));
}

/// A fleet is idle exactly if it is of the side, is not under way, has no
/// order yet, does not guard the headquarters, and has no enemy fleet over the
/// same system.
pub proof fn law_who_is_idle(
    world: GameWorld,
    movement: MovementState,
    side: bool,
    g: Galaxy,
    given: Seq<Order>,
    key: FleetKey,
)
    ensures
        ({
            let fleet = world.fleets.at(key);
            let ordered = exists|i: int|
                0 <= i < given.len() && (#[trigger] given[i]) is Move && given[i]->Move_fleet
                    == key;
            idle_fleets(world, movement, side, g, given).contains((key, fleet.location)) <==> {
                &&& world.fleets.has(key)
                &&& fleet.is_alliance == side
                &&& !under_way(movement, key)
                &&& !ordered
                &&& hq_guard(world, movement, side, g.our_hq) != Some(key)
                &&& !(world.systems.has(fleet.location) && flown_over(
                    world,
                    fleet.location,
                    !side,
                ))
            }
        }),
{
    let kept = hq_guard(world, movement, side, g.our_hq);
    let f = idle_fleet(world, movement, side, given, kept);
    let n = world.fleets@.len();
    lemma_slots_bounded(&world.fleets);
    lemma_collect_covers(n, f);
    let list = idle_fleets(world, movement, side, g, given);
    let fleet = world.fleets.at(key);
    let entry = (key, fleet.location);
    assert(under_way(movement, key) == in_transit(movement.orders@, key));
    assert(flown_over(world, fleet.location, !side) == side_present(
        world,
        world.systems.at(fleet.location),
        !side,
    ));
    let ordered = exists|i: int|
        0 <= i < given.len() && (#[trigger] given[i]) is Move && given[i]->Move_fleet == key;
    assert(moved(given, key) == ordered) by {
        if moved(given, key) {
            let i = choose|i: int| 0 <= i < given.len() && moves(#[trigger] given[i], key);
            assert(given[i] is Move && given[i]->Move_fleet == key);
        }
        if ordered {
            let i = choose|i: int|
                0 <= i < given.len() && (#[trigger] given[i]) is Move && given[i]->Move_fleet
                    == key;
            assert(moves(given[i], key));
        }
    }
    if list.contains(entry) {
        let k = choose|k: int| 0 <= k < list.len() && list[k] == entry;
        assert(gives(n, f, list[k]));
        let i = choose|i: int| 0 <= i < n && #[trigger] f(i) == Some(list[k]);
    }
    if world.fleets.has(key) && f(key.slot as int) is Some {
        assert(f(key.slot as int) == Some(entry));
    }
}

// ---- Where fleets go -------------------------------------------------------

/// Open to attack are the systems the enemy holds or has a fleet over, and for
/// the Empire the enemy's headquarters too.
pub proof fn law_what_is_open_to_attack(g: Galaxy, faction: AiFaction, key: SystemKey)
    ensures
        attack_list(g, faction).contains(key) <==> g.enemy_controlled.contains(key)
            || g.enemy_fleet_systems.contains(key) || (faction == AiFaction::Empire && g.enemy_hq
            == Some(key)),
{
    let held = g.enemy_controlled;
    let flown = g.enemy_fleet_systems;
    let f = beyond(held, flown);
    let rest = collect(flown.len(), f);
    lemma_collect_covers(flown.len(), f);
    let list = held + rest;
    assert(list.contains(key) <==> held.contains(key) || flown.contains(key)) by {
        if list.contains(key) {
            let k = choose|k: int| 0 <= k < list.len() && list[k] == key;
            if k < held.len() {
                assert(held[k] == key);
            } else {
                assert(rest[k - held.len()] == key);
                assert(gives(flown.len(), f, rest[k - held.len()]));
                let i = choose|i: int|
                    0 <= i < flown.len() && #[trigger] f(i) == Some(rest[k - held.len()]);
                assert(flown[i] == key);
            }
        }
        if held.contains(key) {
            let k = choose|k: int| 0 <= k < held.len() && held[k] == key;
            assert(list[k] == key);
        } else if flown.contains(key) {
            let i = choose|i: int| 0 <= i < flown.len() && flown[i] == key;
            assert(f(i) == Some(key));
            let k = choose|k: int| 0 <= k < rest.len() && rest[k] == key;
            assert(list[held.len() + k] == key);
        }
    }
    if g.enemy_hq is Some {
        let more = seq![g.enemy_hq->0] + list;
        assert(more[0] == g.enemy_hq->0);
        if list.contains(key) {
            let k = choose|k: int| 0 <= k < list.len() && list[k] == key;
            assert(more[k + 1] == key);
        }
        if more.contains(key) {
            let k = choose|k: int| 0 <= k < more.len() && more[k] == key;
            if k > 0 {
                assert(list[k - 1] == key);
            }
        }
    }
}

/// Whether a fleet may be sent against a system: that is another one than it
/// stands at, still there, and held by nothing or by no more than three times
/// the fleet's strength.
pub open spec fn may_attack(
    world: GameWorld,
    side: bool,
    fleet: Fleet,
    at: SystemKey,
    target: SystemKey,
) -> bool {
    let held = strength_of(world, world.systems.at(target), !side);
    &&& target != at
    &&& world.systems.has(target)
    &&& !world.systems.at(target).is_destroyed
    &&& held == 0 || held <= up_to_limit(3 * fleet_strength_of(world, fleet))
}

/// Whether a fleet can be deployed at all.
pub open spec fn deployable(world: GameWorld, key: FleetKey, faction: AiFaction) -> bool {
    let fleet = world.fleets.at(key);
    &&& world.fleets.has(key)
    &&& fleet.is_alliance == (faction == AiFaction::Alliance)
    &&& fleet.fighters@.len() > 0 || exists|i: int|
        0 <= i < fleet.capital_ships@.len() && (#[trigger] fleet.capital_ships@[i]).alive
    &&& world.systems.has(fleet.location)
}

/// What an idle fleet is given. One that cannot be deployed, or that holds a
/// blockade over an enemy system, stays. The Death Star goes for its target. A
/// headquarters without a fleet gets the next one. Every other fleet is sent
/// against a system open to attack that it may attack, none of which was
/// appraised higher; but against one that nobody is bound for only as long as
/// a front is left, and otherwise it waits.
pub proof fn law_what_an_idle_fleet_does(
    world: GameWorld,
    faction: AiFaction,
    g: Galaxy,
    max_fronts: nat,
    advice: Advice,
    d: Deploy,
    key: FleetKey,
    rival: int,
)
    ensures
        ({
            let side = faction == AiFaction::Alliance;
            let fleet = world.fleets.at(key);
            let at = fleet.location;
            let after = deploy_one(world, faction, g, max_fronts, advice, d, (key, at));
            let list = attack_list(g, faction);
            let offers = collect(list.len(), fair(world, side, fleet, at, list));
            let goes = |to: SystemKey, reason: FleetMoveReason|
                after.orders == d.orders.push(
                    Order::Move { fleet: key, to_system: to, reason, troops: Seq::empty() },
                );
            let star = death_star_target(world, g, at, side);
            let ready = deployable(world, key, faction);
            let plain = ready && !fleet.has_death_star && !holds(world, at, !side);
            let home = plain && !d.hq_defended && g.our_hq is Some;
            let fights = plain && !home && offers.len() > 0;
            let target = after.orders.last()->Move_to_system;
            &&& !ready || (!fleet.has_death_star && holds(world, at, !side)) ==> after == d
            &&& ready && fleet.has_death_star && star is Some && star->0 != at ==> goes(
                star->0,
                FleetMoveReason::Attack,
            ) && after.targets == d.targets.push(star->0)
            &&& ready && fleet.has_death_star && (star is None || star->0 == at) ==> after == d
            &&& home ==> after.hq_defended && after.targets == d.targets
            &&& home && at != g.our_hq->0 ==> goes(g.our_hq->0, FleetMoveReason::Reinforce)
            &&& home && at == g.our_hq->0 ==> after.orders == d.orders
            &&& plain && !home && offers.len() == 0 ==> after == d
            &&& fights ==> {
                let sent = goes(target, FleetMoveReason::Attack) && after.targets
                    == d.targets.push(target) && after.waiting == d.waiting;
                let waits = after.orders == d.orders && after.targets == d.targets && after.waiting
                    == d.waiting.push((key, at));
                &&& after.asked == d.asked + 1
                &&& sent || waits
                &&& sent ==> offers.contains(target) && (d.targets.contains(target) || fronts(
                    d.targets,
                ) < max_fronts)
                &&& waits ==> fronts(d.targets) >= max_fronts
                &&& sent && 0 <= rival < offers.len() ==> exists|j: int|
                    0 <= j < offers.len() && #[trigger] offers[j] == target && advice.rank(
                        d.asked,
                        j,
                    ) >= advice.rank(d.asked, rival) && (j < rival ==> advice.rank(d.asked, j)
                        > advice.rank(d.asked, rival))
            }
        }),
{
    let side = faction == AiFaction::Alliance;
    let fleet = world.fleets.at(key);
    let at = fleet.location;
    let list = attack_list(g, faction);
    let offers = collect(list.len(), fair(world, side, fleet, at, list));
    assert(deployable(world, key, faction) == fleet_dispatchable(world, key, faction)) by {
        if exists|i: int|
            0 <= i < fleet.capital_ships@.len() && (#[trigger] fleet.capital_ships@[i]).alive {
            assert(fleet.capital_ships@.len() > 0);
        }
    }
    if offers.len() > 0 {
        let ranked = appraised(advice, d.asked, offers);
        lemma_last_max_tops(ranked);
        let a = choose|a: int| #[trigger]
            is_last_max(ranked, a) && last_max(ranked) == Some(ranked[a].0);
        let target = offers[a];
        assert(ranked[a].0 == target);
        law_fronts_are_different_systems(d.targets, target, target);
        if 0 <= rival < offers.len() {
            assert(ranked[rival].1 <= ranked[a].1);
            assert(offers[a] == target && advice.rank(d.asked, a) >= advice.rank(d.asked, rival));
        }
    }
}

/// A fleet is offered exactly those systems open to attack that it may attack.
pub proof fn law_what_a_fleet_is_offered(
    world: GameWorld,
    side: bool,
    fleet: Fleet,
    at: SystemKey,
    list: Seq<SystemKey>,
    target: SystemKey,
)
    ensures
        collect(list.len(), fair(world, side, fleet, at, list)).contains(target)
            <==> list.contains(target) && may_attack(world, side, fleet, at, target),
{
    let f = fair(world, side, fleet, at, list);
    let n = list.len();
    lemma_collect_covers(n, f);
    let offers = collect(n, f);
    if offers.contains(target) {
        let k = choose|k: int| 0 <= k < offers.len() && offers[k] == target;
        assert(gives(n, f, offers[k]));
        let i = choose|i: int| 0 <= i < n && #[trigger] f(i) == Some(offers[k]);
        assert(list[i] == target);
    }
    if list.contains(target) && may_attack(world, side, fleet, at, target) {
        let i = choose|i: int| 0 <= i < n && list[i] == target;
        assert(f(i) == Some(target));
    }
}

/// A waiting fleet joins an attack that no other exceeds in fleets, of equals
/// the one on the first system, unless it stands there already or nobody
/// attacks anything.
pub proof fn law_waiting_fleets_join_the_largest_attack(
    d: Deploy,
    key: FleetKey,
    at: SystemKey,
    other: SystemKey,
)
    ensures
        ({
            let after = pile_one(d, (key, at));
            let to = largest_attack(d.targets);
            &&& d.targets.len() == 0 ==> after == d && to is None
            &&& d.targets.len() > 0 ==> to is Some && d.targets.contains(to->0)
            &&& d.targets.contains(other) ==> aimed_at(d.targets, other) < aimed_at(
                d.targets,
                to->0,
            ) || (aimed_at(d.targets, other) == aimed_at(d.targets, to->0) && to->0.slot
                <= other.slot)
            &&& to is Some && to->0 == at ==> after == d
            &&& to is Some && to->0 != at ==> after.targets == d.targets.push(to->0)
                && after.orders == d.orders.push(
                Order::Move {
                    fleet: key,
                    to_system: to->0,
                    reason: FleetMoveReason::Attack,
                    troops: Seq::empty(),
                },
            )
        }),
{
    let t = d.targets;
    let f = crowded(t);
    let list = collect(t.len(), f);
    lemma_collect_covers(t.len(), f);
    if t.len() > 0 {
        let top = lemma_most_crowded(t, t.len());
        assert(f(top) is Some);
        lemma_first_min(list);
        let m = choose|m: int|
            0 <= m < list.len() && first_min(list) == Some((#[trigger] list[m]).0) && (forall|j: int|
                0 <= j < list.len() ==> (#[trigger] list[j]).1 >= list[m].1);
        assert(gives(t.len(), f, list[m]));
        let i = choose|i: int| 0 <= i < t.len() && #[trigger] f(i) == Some(list[m]);
        assert(t[i] == list[m].0);
        if t.contains(other) {
            let o = choose|o: int| 0 <= o < t.len() && t[o] == other;
            assert(aimed_at(t, t[o]) <= aimed_at(t, t[i]));
            if aimed_at(t, other) == aimed_at(t, t[i]) {
                assert(most_crowded(t, t[o]));
                assert(f(o) is Some);
                let k = choose|k: int| 0 <= k < list.len() && list[k] == f(o)->0;
                assert(list[k].1 >= list[m].1);
            }
        }
    }
}

proof fn lemma_most_crowded(t: Seq<SystemKey>, n: nat) -> (top: int)
    requires
        0 < n <= t.len(),
    ensures
        0 <= top < n,
        forall|j: int| 0 <= j < n ==> aimed_at(t, #[trigger] t[j]) <= aimed_at(t, t[top]),
    decreases n,
{
    if n == 1 {
        0
    } else {
        let b = lemma_most_crowded(t, (n - 1) as nat);
        if aimed_at(t, t[n - 1]) > aimed_at(t, t[b]) {
            n - 1
        } else {
            b
        }
    }
}

/// Fleets are deployed as soon as the enemy holds or flies over anything.
/// Those left waiting join an attack exactly if the faction holds more systems
/// in peace than the enemy holds.
pub proof fn law_superiority_is_pressed(
    world: GameWorld,
    movement: MovementState,
    faction: AiFaction,
    advice: Advice,
    given: Seq<Order>,
)
    ensures
        ({
            let g = galaxy_of(world, faction == AiFaction::Alliance);
            let idle = idle_fleets(world, movement, faction == AiFaction::Alliance, g, given);
            let first = crate::ai_deploy::deploy_all(
                world,
                faction,
                g,
                front_limit(advice, idle.len()),
                advice,
                deploy_start(world, movement, faction == AiFaction::Alliance, g),
                idle,
                idle.len(),
            );
            let orders = deployment_orders(world, movement, faction, advice, given);
            let quiet = g.enemy_controlled.len() == 0 && g.enemy_fleet_systems.len() == 0;
            &&& quiet ==> orders.len() == 0
            &&& !quiet && g.our_controlled.len() <= g.enemy_controlled.len() ==> orders
                == first.orders
            &&& !quiet && g.our_controlled.len() > g.enemy_controlled.len() ==> orders == pile_all(
                first,
                first.waiting.len(),
            ).orders
        }),
{
}

/// A fleet that asks for an appraisal is counted once, and one that does not
/// is deployed the same whatever the advice says.
pub proof fn law_those_who_ask_are_counted(
    world: GameWorld,
    faction: AiFaction,
    g: Galaxy,
    max_fronts: nat,
    advice: Advice,
    other: Advice,
    d: Deploy,
    entry: (FleetKey, SystemKey),
)
    ensures
        deploy_one(world, faction, g, max_fronts, advice, d, entry).asked == d.asked + if asks(
            world,
            faction,
            g,
            d,
            entry,
        ) {
            1nat
        } else {
            0nat
        },
        !asks(world, faction, g, d, entry) ==> deploy_one(
            world,
            faction,
            g,
            max_fronts,
            advice,
            d,
            entry,
        ) == deploy_one(world, faction, g, max_fronts, other, d, entry),
{
}

/// The question left open is put by the first idle fleet that asks when every
/// appraisal given has been used up. There is one as long as any fleet does.
pub proof fn law_the_first_open_question(
    world: GameWorld,
    movement: MovementState,
    faction: AiFaction,
    advice: Advice,
    idle: Seq<(FleetKey, SystemKey)>,
    from: nat,
    i: int,
    k: int,
    at_i: Deploy,
    at_k: Deploy,
)
    requires
        from <= i < idle.len(),
        open_question(world, movement, faction, advice, idle, from) is Some ==> k == open_question(
            world,
            movement,
            faction,
            advice,
            idle,
            from,
        )->0,
        0 <= k,
        ({
            let g = galaxy_of(world, faction.rebel());
            let limit = front_limit(advice, idle.len());
            let start = deploy_start(world, movement, faction.rebel(), g);
            &&& at_i == deploy_all(world, faction, g, limit, advice, start, idle, i as nat)
            &&& at_k == deploy_all(world, faction, g, limit, advice, start, idle, k as nat)
        }),
    ensures
        ({
            let g = galaxy_of(world, faction.rebel());
            let found = open_question(world, movement, faction, advice, idle, from);
            &&& asks(world, faction, g, at_i, idle[i]) && at_i.asked >= advice.rankings@.len()
                ==> found is Some && k <= i
            &&& found is Some ==> from <= k < idle.len() && asks(world, faction, g, at_k, idle[k])
                && at_k.asked >= advice.rankings@.len()
        }),
    decreases idle.len() - from,
{
    let g = galaxy_of(world, faction.rebel());
    let limit = front_limit(advice, idle.len());
    let start = deploy_start(world, movement, faction.rebel(), g);
    let d = deploy_all(world, faction, g, limit, advice, start, idle, from);
    if asks(world, faction, g, d, idle[from as int]) && d.asked >= advice.rankings@.len() {
        assert(k == from);
    } else if from + 1 < idle.len() {
        let next = if i == from {
            i + 1
        } else {
            i
        };
        let at_next = deploy_all(world, faction, g, limit, advice, start, idle, next as nat);
        law_the_first_open_question(
            world,
            movement,
            faction,
            advice,
            idle,
            from + 1,
            next,
            k,
            at_next,
            at_k,
        );
    } else {
        assert(open_question(world, movement, faction, advice, idle, from + 1) is None);
    }
}

} // verus!
