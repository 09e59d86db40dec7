//! What every evaluation of the computer player respects, from the first
//! order to the last.

use crate::ai::{system_reachable, AIState, Advice, AiFaction, FleetMoveReason, Order};
use crate::ai_advance::{early_orders, evaluation};
use crate::ai_deploy::{
    deploy_all, deploy_one, deploy_start, deployment, deployment_orders, front_limit, hq_guard,
    idle_fleet, idle_fleets, moved, moves, pile_all, pile_one, Deploy,
};
use crate::ai_fleets::{
    death_star_fleet, death_star_of, death_star_order, death_star_target, prize, spare_escort,
    BEYOND_REACH,
};
use crate::ai_missions::incites;
use crate::ai_people_laws::{
    available, incites_once, lemma_early_moves, lemma_early_people, sends_available, sent_person,
};
use crate::ai_strength::{galaxy_of, lemma_strength_fits, strength_of, Galaxy};
use crate::ai_troops::{
    allotment, berth, donors, first_offer, first_transport, free_transport, garrison, in_key_order,
    last_unclaimed, load_all, load_one, loaded, receivers, relieve_all, relieve_one, troop_room,
    unclaimed, Muster,
};
use crate::arena::{lemma_slots_bounded, ArenaKey};
use crate::ids::{FleetKey, SystemKey, TroopKey};
use crate::manufacturing::ManufacturingState;
use crate::movement::{in_transit, MovementState};
use crate::research::ResearchState;
use crate::select::{
    collect, first_min, gives, is_first_min, is_last_max, last_max, law_sort_orders,
    lemma_collect_covers, lemma_last_max_tops, lemma_total_monotone, stable_sort,
};
use crate::tuning::GameConfig;
use crate::world::{distance_squared, lemma_square_bound, Fleet, GameWorld};
use vstd::prelude::*;

verus! {

/// Whether no fleet is moved twice by a list of orders.
pub open spec fn sent_once(list: Seq<Order>) -> bool {
    forall|i: int, j: int|
        0 <= i < j < list.len() && (#[trigger] list[i]) is Move && (#[trigger] list[j]) is Move
            ==> list[i]->Move_fleet != list[j]->Move_fleet
}

/// Whether a fleet can be moved: it lives, is of the side and is not under way.
pub open spec fn movable(world: GameWorld, movement: MovementState, side: bool, key: FleetKey) -> bool {
    &&& world.fleets.has(key)
    &&& world.fleets.at(key).is_alliance == side
    &&& !in_transit(movement.orders@, key)
}

/// Whether a list of orders moves none but movable fleets.
pub open spec fn moves_movable(
    world: GameWorld,
    movement: MovementState,
    side: bool,
    list: Seq<Order>,
) -> bool {
    forall|i: int|
        0 <= i < list.len() && (#[trigger] list[i]) is Move ==> movable(
            world,
            movement,
            side,
            list[i]->Move_fleet,
        )
}

/// Whether no order of a list carries regiments.
spec fn empty_handed(list: Seq<Order>) -> bool {
    forall|i: int|
        0 <= i < list.len() && (#[trigger] list[i]) is Move ==> list[i]->Move_troops.len() == 0
}

/// Whether no two orders of a list carry the same regiment.
pub open spec fn cargo_differs(list: Seq<Order>) -> bool {
    forall|i: int, j: int, troop: TroopKey|
        0 <= i < j < list.len() && (#[trigger] list[i]) is Move && (#[trigger] list[j]) is Move
            && list[i]->Move_troops.contains(troop) ==> !(
        #[trigger] list[j]->Move_troops.contains(troop))
}

// ---- The Death Star --------------------------------------------------------

proof fn lemma_has_first_min<A>(entries: Seq<(A, i128)>)
    requires
        entries.len() > 0,
    ensures
        exists|i: int|
            0 <= i < entries.len() && first_min(entries) == Some((#[trigger] entries[i]).0),
{
    lemma_min_from(entries, entries.len());
    let i = choose|i: int| is_first_min(entries, i);
    assert(first_min(entries) == Some(entries[i].0));
}

proof fn lemma_min_from<A>(entries: Seq<(A, i128)>, n: nat)
    requires
        0 < n <= entries.len(),
    ensures
        exists|i: int| is_first_min(entries.take(n as int), i),
        n == entries.len() ==> exists|i: int| is_first_min(entries, i),
    decreases n,
{
    let part = entries.take(n as int);
    if n == 1 {
        assert(is_first_min(part, 0));
    } else {
        lemma_min_from(entries, (n - 1) as nat);
        let before = entries.take(n - 1);
        let b = choose|b: int| is_first_min(before, b);
        assert(before[b] == part[b]);
        if part[n - 1].1 < part[b].1 {
            assert forall|j: int| 0 <= j < n - 1 implies (#[trigger] part[j]).1 > part[n - 1].1 by {
                assert(before[j] == part[j]);
            }
            assert(is_first_min(part, n - 1));
        } else {
            assert forall|j: int| 0 <= j < b implies (#[trigger] part[j]).1 > part[b].1 by {
                assert(before[j] == part[j]);
            }
            assert forall|j: int| b <= j < n implies (#[trigger] part[j]).1 >= part[b].1 by {
                if j < n - 1 {
                    assert(before[j] == part[j]);
                }
            }
            assert(is_first_min(part, b));
        }
    }
    if n == entries.len() {
        assert(part =~= entries);
    }
}

proof fn lemma_death_star(world: GameWorld, movement: MovementState, side: bool, outgunned: bool)
    requires
        world.fleets@.len() <= usize::MAX,
    ensures
        ({
            let list = death_star_order(world, movement, side, outgunned);
            &&& list.len() <= 1
            &&& moves_movable(world, movement, side, list)
            &&& empty_handed(list)
        }),
{
    let n = world.fleets@.len();
    let f = death_star_fleet(world, side);
    lemma_collect_covers(n, f);
    match death_star_of(world, side) {
        None => {},
        Some(ds) => {
            assert(gives(n, f, collect(n, f)[0]));
            let k = choose|k: int| 0 <= k < n && #[trigger] f(k) == Some(ds);
            assert(ds.slot_of() == k);
            assert(world.fleets.has(ds));
            let at = world.fleets.at(ds).location;
            let g = spare_escort(world, movement, side, ds, at);
            let spare = collect(n, g);
            lemma_collect_covers(n, g);
            if spare.len() > 0 {
                lemma_has_first_min(spare);
                let i = choose|i: int|
                    0 <= i < spare.len() && first_min(spare) == Some((#[trigger] spare[i]).0);
                assert(gives(n, g, spare[i]));
                let e = choose|e: int| 0 <= e < n && #[trigger] g(e) == Some(spare[i]);
                assert(spare[i].0.slot_of() == e);
                assert(movable(world, movement, side, spare[i].0));
            }
        },
    }
}

// ---- Deployment ------------------------------------------------------------

/// Whether a fleet waits.
spec fn waits(waiting: Seq<(FleetKey, SystemKey)>, key: FleetKey) -> bool {
    exists|i: int| 0 <= i < waiting.len() && (#[trigger] waiting[i]).0 == key
}

/// Whether a fleet is among the first `n` of a list.
spec fn among(idle: Seq<(FleetKey, SystemKey)>, n: nat, key: FleetKey) -> bool {
    exists|k: int| 0 <= k < n && (#[trigger] idle[k]).0 == key
}

/// Whether no fleet waits twice.
spec fn waiting_differ(waiting: Seq<(FleetKey, SystemKey)>) -> bool {
    forall|i: int, j: int|
        0 <= i < j < waiting.len() ==> (#[trigger] waiting[i]).0 != (#[trigger] waiting[j]).0
}

/// Whether all orders of a list are moves.
spec fn all_moves(list: Seq<Order>) -> bool {
    forall|i: int| 0 <= i < list.len() ==> (#[trigger] list[i]) is Move
}

/// What holds of a deployment after the first `n` idle fleets.
spec fn orderly(d: Deploy, idle: Seq<(FleetKey, SystemKey)>, n: nat) -> bool {
    &&& all_moves(d.orders)
    &&& empty_handed(d.orders)
    &&& sent_once(d.orders)
    &&& waiting_differ(d.waiting)
    &&& forall|key: FleetKey| #[trigger] moved(d.orders, key) ==> among(idle, n, key)
    &&& forall|key: FleetKey| #[trigger] waits(d.waiting, key) ==> among(idle, n, key)
    &&& forall|key: FleetKey| #[trigger]
        moved(d.orders, key) ==> !waits(d.waiting, key)
}

/// Whether no fleet is listed twice.
spec fn idle_differ(idle: Seq<(FleetKey, SystemKey)>) -> bool {
    forall|i: int, j: int|
        0 <= i < j < idle.len() ==> (#[trigger] idle[i]).0 != (#[trigger] idle[j]).0
}

proof fn lemma_among_next(idle: Seq<(FleetKey, SystemKey)>, n: nat, key: FleetKey)
    requires
        among(idle, n, key),
    ensures
        among(idle, n + 1, key),
{
    let k = choose|k: int| 0 <= k < n && (#[trigger] idle[k]).0 == key;
    assert(idle[k].0 == key);
}

proof fn lemma_not_among(idle: Seq<(FleetKey, SystemKey)>, n: nat)
    requires
        n < idle.len(),
        idle_differ(idle),
    ensures
        !among(idle, n, idle[n as int].0),
{
    if among(idle, n, idle[n as int].0) {
        let k = choose|k: int| 0 <= k < n && (#[trigger] idle[k]).0 == idle[n as int].0;
        assert(idle[k].0 != idle[n as int].0);
    }
}

/// A new order for a fleet that has none keeps fleets from being moved twice.
proof fn lemma_push_order(list: Seq<Order>, order: Order)
    requires
        sent_once(list),
        order is Move ==> !moved(list, order->Move_fleet),
    ensures
        sent_once(list.push(order)),
        forall|key: FleetKey| #[trigger]
            moved(list.push(order), key) == (moved(list, key) || moves(order, key)),
{
    let longer = list.push(order);
    assert forall|i: int, j: int|
        0 <= i < j < longer.len() && (#[trigger] longer[i]) is Move && (
        #[trigger] longer[j]) is Move implies longer[i]->Move_fleet != longer[j]->Move_fleet by {
        assert(longer[i] == list[i]);
        if j < list.len() {
            assert(longer[j] == list[j]);
        } else {
            assert(moves(list[i], list[i]->Move_fleet));
            assert(moved(list, list[i]->Move_fleet));
        }
    }
    assert forall|key: FleetKey| #[trigger]
        moved(longer, key) == (moved(list, key) || moves(order, key)) by {
        if moved(list, key) {
            let i = choose|i: int| 0 <= i < list.len() && moves(#[trigger] list[i], key);
            assert(moves(longer[i], key));
        }
        if moves(order, key) {
            assert(moves(longer[list.len() as int], key));
        }
        if moved(longer, key) {
            let i = choose|i: int| 0 <= i < longer.len() && moves(#[trigger] longer[i], key);
            if i < list.len() {
                assert(moves(list[i], key));
            }
        }
    }
}

proof fn lemma_push_waiting(waiting: Seq<(FleetKey, SystemKey)>, entry: (FleetKey, SystemKey))
    requires
        waiting_differ(waiting),
        !waits(waiting, entry.0),
    ensures
        waiting_differ(waiting.push(entry)),
        forall|key: FleetKey| #[trigger]
            waits(waiting.push(entry), key) == (waits(waiting, key) || key == entry.0),
{
    let longer = waiting.push(entry);
    assert forall|i: int, j: int| 0 <= i < j < longer.len() implies (#[trigger] longer[i]).0 != (
    #[trigger] longer[j]).0 by {
        assert(longer[i] == waiting[i]);
        if j < waiting.len() {
            assert(longer[j] == waiting[j]);
        } else {
            assert(waiting[i].0 != entry.0);
        }
    }
    assert forall|key: FleetKey| #[trigger]
        waits(longer, key) == (waits(waiting, key) || key == entry.0) by {
        if waits(waiting, key) {
            let i = choose|i: int| 0 <= i < waiting.len() && (#[trigger] waiting[i]).0 == key;
            assert(longer[i].0 == key);
        }
        if key == entry.0 {
            assert(longer[waiting.len() as int].0 == key);
        }
        if waits(longer, key) {
            let i = choose|i: int| 0 <= i < longer.len() && (#[trigger] longer[i]).0 == key;
            if i < waiting.len() {
                assert(waiting[i].0 == key);
            }
        }
    }
}

/// What one fleet gets keeps the deployment orderly.
proof fn lemma_deploy_step(
    before: Deploy,
    after: Deploy,
    idle: Seq<(FleetKey, SystemKey)>,
    n: nat,
    order: Option<Order>,
)
    requires
        n < idle.len(),
        idle_differ(idle),
        orderly(before, idle, n),
        match order {
            Some(o) => {
                &&& o is Move
                &&& o->Move_fleet == idle[n as int].0
                &&& o->Move_troops.len() == 0
                &&& after.orders == before.orders.push(o)
                &&& after.waiting == before.waiting
            },
            None => {
                &&& after.orders == before.orders
                &&& after.waiting == before.waiting || after.waiting == before.waiting.push(
                    idle[n as int],
                )
            },
        },
    ensures
        orderly(after, idle, n + 1),
{
    let here = idle[n as int].0;
    lemma_not_among(idle, n);
    assert(!moved(before.orders, here));
    assert(!waits(before.waiting, here));
    assert(among(idle, n + 1, here)) by {
        assert(idle[n as int].0 == here);
    }
    match order {
        Some(o) => {
            lemma_push_order(before.orders, o);
            assert forall|key: FleetKey| #[trigger] moved(after.orders, key) implies among(
                idle,
                n + 1,
                key,
            ) && !waits(after.waiting, key) by {
                if moved(before.orders, key) {
                    lemma_among_next(idle, n, key);
                }
            }
            assert forall|key: FleetKey| #[trigger] waits(after.waiting, key) implies among(
                idle,
                n + 1,
                key,
            ) by {
                lemma_among_next(idle, n, key);
            }
        },
        None => {
            if after.waiting != before.waiting {
                lemma_push_waiting(before.waiting, idle[n as int]);
            }
            assert forall|key: FleetKey| #[trigger] moved(after.orders, key) implies among(
                idle,
                n + 1,
                key,
            ) && !waits(after.waiting, key) by {
                lemma_among_next(idle, n, key);
            }
            assert forall|key: FleetKey| #[trigger] waits(after.waiting, key) implies among(
                idle,
                n + 1,
                key,
            ) by {
                if waits(before.waiting, key) {
                    lemma_among_next(idle, n, key);
                }
            }
        },
    }
}

proof fn lemma_deploy_all(
    world: GameWorld,
    faction: AiFaction,
    g: Galaxy,
    max_fronts: nat,
    advice: Advice,
    start: Deploy,
    idle: Seq<(FleetKey, SystemKey)>,
    n: nat,
)
    requires
        n <= idle.len(),
        idle_differ(idle),
        start.orders.len() == 0,
        start.waiting.len() == 0,
    ensures
        orderly(deploy_all(world, faction, g, max_fronts, advice, start, idle, n), idle, n),
    decreases n,
{
    if n > 0 {
        let m = (n - 1) as nat;
        lemma_deploy_all(world, faction, g, max_fronts, advice, start, idle, m);
        let before = deploy_all(world, faction, g, max_fronts, advice, start, idle, m);
        let after = deploy_one(world, faction, g, max_fronts, advice, before, idle[n - 1]);
        if after.orders != before.orders {
            let o = after.orders.last();
            assert(after.orders == before.orders.push(o));
            lemma_deploy_step(before, after, idle, m, Some(o));
        } else {
            lemma_deploy_step(before, after, idle, m, None);
        }
    } else {
        assert(orderly(start, idle, 0));
    }
}

/// What holds of a deployment after the first `n` waiting fleets joined in.
spec fn piled(d: Deploy, after: Deploy, n: nat) -> bool {
    &&& all_moves(after.orders)
    &&& empty_handed(after.orders)
    &&& sent_once(after.orders)
    &&& forall|key: FleetKey| #[trigger]
        moved(after.orders, key) ==> moved(d.orders, key) || among(d.waiting, n, key)
}

proof fn lemma_pile_all(d: Deploy, idle: Seq<(FleetKey, SystemKey)>, n: nat)
    requires
        orderly(d, idle, idle.len()),
        n <= d.waiting.len(),
    ensures
        piled(d, pile_all(d, n), n),
    decreases n,
{
    if n > 0 {
        let m = (n - 1) as nat;
        lemma_pile_all(d, idle, m);
        let before = pile_all(d, m);
        let entry = d.waiting[n - 1];
        let after = pile_one(before, entry);
        assert(among(d.waiting, n, entry.0)) by {
            assert(d.waiting[n - 1].0 == entry.0);
        }
        if after.orders != before.orders {
            let o = after.orders.last();
            assert(after.orders == before.orders.push(o));
            assert(!moved(before.orders, entry.0)) by {
                assert(waits(d.waiting, entry.0)) by {
                    assert(d.waiting[n - 1].0 == entry.0);
                }
                if among(d.waiting, m, entry.0) {
                    let k = choose|k: int| 0 <= k < m && (#[trigger] d.waiting[k]).0 == entry.0;
                    assert(d.waiting[k].0 != d.waiting[n - 1].0);
                }
            }
            lemma_push_order(before.orders, o);
        }
        assert forall|key: FleetKey| #[trigger] moved(after.orders, key) implies moved(
            d.orders,
            key,
        ) || among(d.waiting, n, key) by {
            if moved(before.orders, key) && !moved(d.orders, key) {
                lemma_among_next(d.waiting, m, key);
            }
        }
    }
}

/// The idle fleets are movable, unordered so far, and listed once.
proof fn lemma_idle(
    world: GameWorld,
    movement: MovementState,
    side: bool,
    g: Galaxy,
    given: Seq<Order>,
)
    requires
        world.fleets@.len() <= usize::MAX,
    ensures
        idle_differ(idle_fleets(world, movement, side, g, given)),
        forall|k: int|
            0 <= k < idle_fleets(world, movement, side, g, given).len() ==> movable(
                world,
                movement,
                side,
                (#[trigger] idle_fleets(world, movement, side, g, given)[k]).0,
            ) && !moved(given, idle_fleets(world, movement, side, g, given)[k].0),
{
    let f = idle_fleet(world, movement, side, given, hq_guard(world, movement, side, g.our_hq));
    let n = world.fleets@.len();
    lemma_idle_rising(n, f);
    lemma_collect_covers(n, f);
    let idle = collect(n, f);
    assert forall|k: int| 0 <= k < idle.len() implies movable(
        world,
        movement,
        side,
        (#[trigger] idle[k]).0,
    ) && !moved(given, idle[k].0) by {
        assert(gives(n, f, idle[k]));
        let i = choose|i: int| 0 <= i < n && #[trigger] f(i) == Some(idle[k]);
        assert(idle[k].0.slot_of() == i);
    }
}

proof fn lemma_idle_rising(n: nat, f: spec_fn(int) -> Option<(FleetKey, SystemKey)>)
    requires
        n <= usize::MAX,
        forall|i: int|
            0 <= i < n && (#[trigger] f(i)) is Some ==> (f(i)->0).0.slot == i as usize,
    ensures
        forall|i: int, j: int|
            0 <= i < j < collect(n, f).len() ==> (#[trigger] collect(n, f)[i]).0.slot < (
            #[trigger] collect(n, f)[j]).0.slot,
        forall|i: int| 0 <= i < collect(n, f).len() ==> (#[trigger] collect(n, f)[i]).0.slot < n,
    decreases n,
{
    if n > 0 {
        lemma_idle_rising((n - 1) as nat, f);
        let before = collect((n - 1) as nat, f);
        let after = collect(n, f);
        if f(n - 1) is Some {
            assert(after == before.push(f(n - 1)->0));
            assert((f(n - 1)->0).0.slot == n - 1);
        }
    }
}

proof fn lemma_deployment(
    world: GameWorld,
    movement: MovementState,
    faction: AiFaction,
    advice: Advice,
    given: Seq<Order>,
)
    requires
        world.fleets@.len() <= usize::MAX,
    ensures
        ({
            let list = deployment_orders(world, movement, faction, advice, given);
            &&& all_moves(list)
            &&& empty_handed(list)
            &&& sent_once(list)
            &&& moves_movable(world, movement, faction.rebel(), list)
            &&& forall|key: FleetKey| #[trigger] moved(list, key) ==> !moved(given, key)
        }),
{
    let side = faction.rebel();
    let g = galaxy_of(world, side);
    let list = deployment_orders(world, movement, faction, advice, given);
    if !(g.enemy_controlled.len() == 0 && g.enemy_fleet_systems.len() == 0) {
        let idle = idle_fleets(world, movement, side, g, given);
        lemma_idle(world, movement, side, g, given);
        let start = deploy_start(world, movement, side, g);
        let limit = front_limit(advice, idle.len());
        lemma_deploy_all(world, faction, g, limit, advice, start, idle, idle.len());
        let d = deploy_all(world, faction, g, limit, advice, start, idle, idle.len());
        lemma_pile_all(d, idle, d.waiting.len());
        assert forall|key: FleetKey| #[trigger] moved(list, key) implies among(
            idle,
            idle.len(),
            key,
        ) by {
            if !moved(d.orders, key) {
                assert(among(d.waiting, d.waiting.len(), key));
                let k = choose|k: int|
                    0 <= k < d.waiting.len() && (#[trigger] d.waiting[k]).0 == key;
                assert(waits(d.waiting, key));
            }
        }
        assert forall|key: FleetKey| #[trigger] moved(list, key) implies !moved(given, key)
            && movable(world, movement, side, key) by {
            let k = choose|k: int| 0 <= k < idle.len() && (#[trigger] idle[k]).0 == key;
            assert(movable(world, movement, side, idle[k].0));
        }
        assert forall|i: int| 0 <= i < list.len() && (#[trigger] list[i]) is Move implies movable(
            world,
            movement,
            side,
            list[i]->Move_fleet,
        ) by {
            assert(moves(list[i], list[i]->Move_fleet));
            assert(moved(list, list[i]->Move_fleet));
        }
    }
}

// ---- Regiments -------------------------------------------------------------

/// Regiments put in order are the same regiments.
proof fn lemma_in_key_order(list: Seq<TroopKey>, troop: TroopKey)
    requires
        in_key_order(list).contains(troop),
    ensures
        list.contains(troop),
{
    broadcast use vstd::seq_lib::group_to_multiset_ensures;

    let pairs = Seq::new(list.len(), |i: int| (list[i], list[i].slot as i128));
    law_sort_orders(pairs);
    let sorted = stable_sort(pairs);
    let out = in_key_order(list);
    let k = choose|k: int| 0 <= k < out.len() && out[k] == troop;
    assert(out[k] == sorted[k].0);
    assert(sorted.contains(sorted[k]));
    assert(sorted.to_multiset().count(sorted[k]) > 0);
    assert(pairs.contains(sorted[k]));
    let j = choose|j: int| 0 <= j < pairs.len() && pairs[j] == sorted[k];
    assert(list[j] == troop);
}

/// What a fleet takes along was not spoken for.
proof fn lemma_loaded(
    world: GameWorld,
    side: bool,
    config: GameConfig,
    m: Muster,
    fleet: FleetKey,
    to_system: SystemKey,
    reason: FleetMoveReason,
    troop: TroopKey,
)
    requires
        loaded(world, side, config, m, fleet, to_system, reason, Seq::empty()) matches Some(aboard)
            && aboard.contains(troop),
    ensures
        !m.claimed.contains(troop),
{
    let f = world.fleets.at(fleet);
    let origin = world.systems.at(f.location);
    let u = unclaimed(world, origin, side, m.claimed);
    let n = origin.ground_units@.len();
    let there = collect(n, u);
    lemma_collect_covers(n, u);
    let ready = in_key_order(there);
    let room = troop_room(world, f);
    let limit = allotment(
        room,
        ready.len(),
        reason,
        receivers(world, side, config).contains(to_system),
        config,
    );
    lemma_allotment(
        world,
        f,
        ready.len(),
        reason,
        receivers(world, side, config).contains(to_system),
        config,
    );
    let taken = ready.reverse().take(limit);
    lemma_in_key_order(Seq::<TroopKey>::empty() + taken, troop);
    let whole = Seq::<TroopKey>::empty() + taken;
    let k = choose|k: int| 0 <= k < whole.len() && whole[k] == troop;
    assert(taken[k] == troop);
    assert(ready.reverse()[k] == troop);
    assert(ready[ready.len() - 1 - k] == troop);
    assert(ready.contains(troop));
    lemma_in_key_order(there, troop);
    let j = choose|j: int| 0 <= j < there.len() && there[j] == troop;
    assert(gives(n, u, there[j]));
}

/// A fleet takes along no more regiments than there are, nor than it has room
/// for, except that a single one is let aboard as a reinforcement.
proof fn lemma_allotment(
    world: GameWorld,
    fleet: Fleet,
    ready: nat,
    reason: FleetMoveReason,
    needed: bool,
    config: GameConfig,
)
    ensures
        0 <= allotment(troop_room(world, fleet), ready, reason, needed, config)
            <= ready,
{
    let berths = berth(world, fleet);
    lemma_total_monotone(0, fleet.capital_ships@.len(), berths);
}

/// An attack leaves the smallest garrison behind: it takes no more than its
/// room, and never one of the last regiments.
pub proof fn law_attacks_leave_a_garrison(room: int, ready: nat, needed: bool, config: GameConfig)
    requires
        room >= 0,
    ensures
        ({
            let taken = allotment(room, ready, FleetMoveReason::Attack, needed, config);
            &&& 0 <= taken <= room
            &&& taken > 0 ==> ready - taken >= config.ai.troop_garrison_min
        }),
{
}

/// What holds while regiments are handed out.
spec fn well_mustered(
    state: AIState,
    world: GameWorld,
    movement: MovementState,
    faction: AiFaction,
    m: Muster,
) -> bool {
    &&& sent_once(m.orders)
    &&& moves_movable(world, movement, faction.rebel(), m.orders)
    &&& cargo_differs(m.orders)
    &&& sends_available(state, world, faction, m.orders)
    &&& incites_once(m.orders)
    &&& forall|i: int|
        0 <= i < m.orders.len() && (#[trigger] m.orders[i]) is Move ==> m.moved.contains(
            m.orders[i]->Move_fleet,
        )
    &&& forall|i: int, troop: TroopKey|
        0 <= i < m.orders.len() && (#[trigger] m.orders[i]) is Move
            && #[trigger] m.orders[i]->Move_troops.contains(troop) ==> m.claimed.contains(troop)
}

/// A new order keeps all that, if its fleet was not moved yet and its cargo
/// not claimed.
proof fn lemma_muster_step(
    state: AIState,
    world: GameWorld,
    movement: MovementState,
    faction: AiFaction,
    before: Muster,
    after: Muster,
    order: Order,
)
    requires
        well_mustered(state, world, movement, faction, before),
        after.orders == before.orders.push(order),
        order is Move ==> {
            &&& !moved(before.orders, order->Move_fleet)
            &&& movable(world, movement, faction.rebel(), order->Move_fleet)
            &&& after.moved == before.moved.push(order->Move_fleet)
            &&& forall|troop: TroopKey| #[trigger]
                order->Move_troops.contains(troop) ==> !before.claimed.contains(troop)
            &&& forall|troop: TroopKey| #[trigger]
                after.claimed.contains(troop) <== before.claimed.contains(troop)
                    || order->Move_troops.contains(troop)
        },
        !(order is Move) ==> {
            &&& after.moved == before.moved
            &&& after.claimed == before.claimed
        },
        sent_person(order) is Some ==> available(state, world, faction, sent_person(order)->0),
        incites(order) ==> forall|i: int|
            0 <= i < before.orders.len() ==> !incites(#[trigger] before.orders[i]),
    ensures
        well_mustered(state, world, movement, faction, after),
{
    let list = before.orders;
    let longer = after.orders;
    lemma_push_order(list, order);
    assert forall|i: int| 0 <= i < longer.len() && (#[trigger] longer[i]) is Move implies movable(
        world,
        movement,
        faction.rebel(),
        longer[i]->Move_fleet,
    ) && after.moved.contains(longer[i]->Move_fleet) by {
        if i < list.len() {
            assert(longer[i] == list[i]);
            assert(before.moved.contains(list[i]->Move_fleet));
            let k = choose|k: int|
                0 <= k < before.moved.len() && before.moved[k] == list[i]->Move_fleet;
            assert(after.moved[k] == list[i]->Move_fleet);
        } else {
            assert(after.moved[before.moved.len() as int] == order->Move_fleet);
        }
    }
    assert forall|i: int, troop: TroopKey|
        0 <= i < longer.len() && (#[trigger] longer[i]) is Move
            && #[trigger] longer[i]->Move_troops.contains(troop) implies after.claimed.contains(
        troop,
    ) by {
        if i < list.len() {
            assert(longer[i] == list[i]);
            assert(list[i]->Move_troops.contains(troop));
        }
    }
    assert forall|i: int, j: int, troop: TroopKey|
        0 <= i < j < longer.len() && (#[trigger] longer[i]) is Move && (
        #[trigger] longer[j]) is Move && longer[i]->Move_troops.contains(troop) implies !(
    #[trigger] longer[j]->Move_troops.contains(troop)) by {
        assert(longer[i] == list[i]);
        if j < list.len() {
            assert(longer[j] == list[j]);
            assert(list[i]->Move_troops.contains(troop));
        } else {
            assert(list[i]->Move_troops.contains(troop));
            assert(before.claimed.contains(troop));
        }
    }
    assert forall|i: int|
        0 <= i < longer.len() && sent_person(#[trigger] longer[i]) is Some implies available(
        state,
        world,
        faction,
        sent_person(longer[i])->0,
    ) by {
        if i < list.len() {
            assert(longer[i] == list[i]);
        }
    }
    assert forall|i: int, j: int| 0 <= i < j < longer.len() implies !(incites(#[trigger] longer[i])
        && incites(#[trigger] longer[j])) by {
        assert(longer[i] == list[i]);
        if j < list.len() {
            assert(longer[j] == list[j]);
        }
    }
}

/// Handing regiments to the given orders keeps the orders otherwise as they
/// are.
proof fn lemma_load_all(
    state: AIState,
    world: GameWorld,
    movement: MovementState,
    faction: AiFaction,
    config: GameConfig,
    given: Seq<Order>,
    n: nat,
)
    requires
        n <= given.len(),
        sent_once(given),
        empty_handed(given),
        moves_movable(world, movement, faction.rebel(), given),
        sends_available(state, world, faction, given),
        incites_once(given),
    ensures
        ({
            let m = load_all(world, faction.rebel(), config, given, n);
            &&& well_mustered(state, world, movement, faction, m)
            &&& m.orders.len() == n
            &&& forall|i: int|
                0 <= i < n ==> {
                    &&& (#[trigger] m.orders[i]) is Move == given[i] is Move
                    &&& given[i] is Move ==> m.orders[i]->Move_fleet == given[i]->Move_fleet
                    &&& !(given[i] is Move) ==> m.orders[i] == given[i]
                }
        }),
    decreases n,
{
    let side = faction.rebel();
    let after = load_all(world, side, config, given, n);
    if n > 0 {
        let k = (n - 1) as nat;
        lemma_load_all(state, world, movement, faction, config, given, k);
        let before = load_all(world, side, config, given, k);
        let order = given[n - 1];
        let placed = after.orders.last();
        assert(after == load_one(world, side, config, before, order));
        if order is Move {
            let fleet = order->Move_fleet;
            assert(order->Move_troops =~= Seq::<TroopKey>::empty());
            assert(!moved(before.orders, fleet)) by {
                if moved(before.orders, fleet) {
                    let i = choose|i: int|
                        0 <= i < before.orders.len() && moves(#[trigger] before.orders[i], fleet);
                    assert(given[i] is Move);
                    assert(given[i]->Move_fleet == fleet);
                    assert(given[n - 1] is Move);
                }
            }
            assert(movable(world, movement, side, fleet));
            match loaded(
                world,
                side,
                config,
                before,
                fleet,
                order->Move_to_system,
                order->Move_reason,
                order->Move_troops,
            ) {
                None => {
                    assert(placed == order);
                    lemma_muster_step(state, world, movement, faction, before, after, order);
                },
                Some(aboard) => {
                    assert forall|troop: TroopKey| #[trigger]
                        aboard.contains(troop) implies !before.claimed.contains(troop) by {
                        lemma_loaded(
                            world,
                            side,
                            config,
                            before,
                            fleet,
                            order->Move_to_system,
                            order->Move_reason,
                            troop,
                        );
                    }
                    assert forall|troop: TroopKey|
                        before.claimed.contains(troop) || aboard.contains(
                            troop,
                        ) implies #[trigger] after.claimed.contains(troop) by {
                        lemma_concat_contains(before.claimed, aboard, troop);
                    }
                    assert(placed->Move_troops == aboard);
                    lemma_muster_step(state, world, movement, faction, before, after, placed);
                },
            }
        } else {
            assert(placed == order);
            assert(incites(order) ==> forall|i: int|
                0 <= i < before.orders.len() ==> !incites(#[trigger] before.orders[i])) by {
                assert forall|i: int|
                    incites(order) && 0 <= i < before.orders.len() implies !incites(
                    #[trigger] before.orders[i],
                ) by {
                    assert(!(incites(given[i]) && incites(given[n - 1])));
                }
            }
            lemma_muster_step(state, world, movement, faction, before, after, order);
        }
    }
}

proof fn lemma_concat_contains(a: Seq<TroopKey>, b: Seq<TroopKey>, troop: TroopKey)
    requires
        a.contains(troop) || b.contains(troop),
    ensures
        (a + b).contains(troop),
{
    if a.contains(troop) {
        let k = choose|k: int| 0 <= k < a.len() && a[k] == troop;
        assert((a + b)[k] == troop);
    } else {
        let k = choose|k: int| 0 <= k < b.len() && b[k] == troop;
        assert((a + b)[a.len() + k] == troop);
    }
}

proof fn lemma_first_transport(
    world: GameWorld,
    movement: MovementState,
    side: bool,
    taken: Seq<FleetKey>,
    list: Seq<FleetKey>,
    from: nat,
)
    ensures
        first_transport(world, movement, side, taken, list, from) matches Some(key)
            ==> free_transport(world, movement, side, taken, key),
    decreases list.len() - from,
{
    if from < list.len() {
        lemma_first_transport(world, movement, side, taken, list, from + 1);
    }
}

proof fn lemma_last_unclaimed(list: Seq<TroopKey>, claimed: Seq<TroopKey>, n: nat)
    ensures
        last_unclaimed(list, claimed, n) matches Some(troop) ==> !claimed.contains(troop),
    decreases n,
{
    if n > 0 {
        lemma_last_unclaimed(list, claimed, (n - 1) as nat);
    }
}

proof fn lemma_first_offer(
    world: GameWorld,
    movement: MovementState,
    side: bool,
    m: Muster,
    givers: Seq<SystemKey>,
    from: nat,
)
    ensures
        first_offer(world, movement, side, m, givers, from) matches Some((fleet, troop)) ==> {
            &&& free_transport(world, movement, side, m.moved, fleet)
            &&& !m.claimed.contains(troop)
        },
    decreases givers.len() - from,
{
    if from < givers.len() {
        let sys = world.systems.at(givers[from as int]);
        let troops = garrison(world, sys, side);
        lemma_last_unclaimed(troops, m.claimed, troops.len());
        lemma_first_transport(world, movement, side, m.moved, sys.fleets@, 0);
        lemma_first_offer(world, movement, side, m, givers, from + 1);
    }
}

proof fn lemma_relieve_all(
    state: AIState,
    world: GameWorld,
    movement: MovementState,
    faction: AiFaction,
    givers: Seq<SystemKey>,
    needy: Seq<SystemKey>,
    m: Muster,
    n: nat,
)
    requires
        well_mustered(state, world, movement, faction, m),
    ensures
        well_mustered(
            state,
            world,
            movement,
            faction,
            relieve_all(world, movement, faction.rebel(), givers, needy, m, n),
        ),
    decreases n,
{
    if n > 0 {
        let side = faction.rebel();
        lemma_relieve_all(state, world, movement, faction, givers, needy, m, (n - 1) as nat);
        let before = relieve_all(world, movement, side, givers, needy, m, (n - 1) as nat);
        let after = relieve_one(world, movement, side, givers, before, needy[n - 1]);
        if !before.reinforced.contains(needy[n - 1]) {
            lemma_first_offer(world, movement, side, before, givers, 0);
            match first_offer(world, movement, side, before, givers, 0) {
                Some((fleet, troop)) => {
                    let order = Order::Move {
                        fleet,
                        to_system: needy[n - 1],
                        reason: FleetMoveReason::Reinforce,
                        troops: seq![troop],
                    };
                    assert(!moved(before.orders, fleet)) by {
                        if moved(before.orders, fleet) {
                            let i = choose|i: int|
                                0 <= i < before.orders.len() && moves(
                                    #[trigger] before.orders[i],
                                    fleet,
                                );
                            assert(before.moved.contains(before.orders[i]->Move_fleet));
                        }
                    }
                    assert forall|t: TroopKey| #[trigger]
                        seq![troop].contains(t) implies !before.claimed.contains(t) by {
                        assert(t == troop);
                    }
                    assert forall|t: TroopKey|
                        before.claimed.contains(t) || seq![troop].contains(
                            t,
                        ) implies #[trigger] after.claimed.contains(t) by {
                        assert(after.claimed =~= before.claimed + seq![troop]);
                        lemma_concat_contains(before.claimed, seq![troop], t);
                    }
                    lemma_muster_step(state, world, movement, faction, before, after, order);
                },
                None => {},
            }
        }
    }
}

// ---- Laws ------------------------------------------------------------------

/// Whatever an evaluation orders: no fleet is sent twice, and every fleet
/// that is sent lives, is of the side and is not under way already. No
/// regiment is put aboard two fleets. Whoever is sent on a mission or put to
/// research lives, belongs to the side and is free: not killed, not captive,
/// not busy. At most one uprising is stirred up.
pub proof fn law_evaluations_are_orderly(
    state: AIState,
    world: GameWorld,
    mfg: ManufacturingState,
    movement: MovementState,
    config: GameConfig,
    research: ResearchState,
    advice: Advice,
    faction: AiFaction,
)
    ensures
        ({
            let list = evaluation(
                state,
                world,
                mfg,
                movement,
                config,
                research,
                advice,
                faction,
            );
            &&& sent_once(list)
            &&& moves_movable(world, movement, faction.rebel(), list)
            &&& cargo_differs(list)
            &&& sends_available(state, world, faction, list)
            &&& incites_once(list)
        }),
{
    lemma_slots_bounded(&world.characters);
    lemma_slots_bounded(&world.fleets);
    let side = faction.rebel();
    let early = early_orders(state, world, mfg, movement, config, research, advice, faction);
    lemma_early_people(state, world, mfg, movement, config, research, advice, faction);
    let front = lemma_early_moves(
        state,
        world,
        mfg,
        movement,
        config,
        research,
        advice,
        faction,
    );
    let star = death_star_order(world, movement, side, advice.death_star_outgunned);
    lemma_death_star(world, movement, side, advice.death_star_outgunned);
    lemma_deployment(world, movement, faction, advice, early);
    let sent = deployment_orders(world, movement, faction, advice, early);
    let given = early + sent;
    assert forall|i: int| 0 <= i < early.len() && (#[trigger] early[i]) is Move implies i
        == front.len() && early[i] == star[0] by {
        if i < front.len() {
            assert(early[i] == front[i]);
        }
    }
    assert(sent_once(given)) by {
        assert forall|i: int, j: int|
            0 <= i < j < given.len() && (#[trigger] given[i]) is Move && (
            #[trigger] given[j]) is Move implies given[i]->Move_fleet != given[j]->Move_fleet by {
            if j < early.len() {
                assert(given[i] == early[i]);
                assert(given[j] == early[j]);
            } else if i < early.len() {
                let key = given[j]->Move_fleet;
                assert(moves(sent[j - early.len()], key));
                assert(moved(sent, key));
                if given[i]->Move_fleet == key {
                    assert(moves(early[i], key));
                }
            } else {
                assert(given[i] == sent[i - early.len()]);
                assert(given[j] == sent[j - early.len()]);
            }
        }
    }
    assert(moves_movable(world, movement, side, given) && empty_handed(given)) by {
        assert forall|i: int| 0 <= i < given.len() && (#[trigger] given[i]) is Move implies movable(
            world,
            movement,
            side,
            given[i]->Move_fleet,
        ) && given[i]->Move_troops.len() == 0 by {
            if i < early.len() {
                assert(given[i] == early[i]);
                assert(star[0] is Move);
            } else {
                assert(given[i] == sent[i - early.len()]);
            }
        }
    }
    assert(sends_available(state, world, faction, given)) by {
        assert forall|i: int|
            0 <= i < given.len() && sent_person(#[trigger] given[i]) is Some implies available(
            state,
            world,
            faction,
            sent_person(given[i])->0,
        ) by {
            if i < early.len() {
                assert(given[i] == early[i]);
            } else {
                assert(given[i] == sent[i - early.len()]);
            }
        }
    }
    assert(incites_once(given)) by {
        assert forall|i: int, j: int| 0 <= i < j < given.len() implies !(incites(
            #[trigger] given[i],
        ) && incites(#[trigger] given[j])) by {
            if j < early.len() {
                assert(given[i] == early[i]);
                assert(given[j] == early[j]);
            } else {
                assert(given[j] == sent[j - early.len()]);
            }
        }
    }
    lemma_load_all(state, world, movement, faction, config, given, given.len());
    let needy = receivers(world, side, config);
    lemma_relieve_all(
        state,
        world,
        movement,
        faction,
        donors(world, side, config),
        needy,
        load_all(world, side, config, given, given.len()),
        needy.len(),
    );
}

/// After an evaluation nothing is recommended until the interval has passed,
/// whatever happens in the world; only the very first day is an exception.
pub proof fn law_evaluations_pause(state: AIState, today: u64, later: u64, interval: u64)
    requires
        state.last_eval_tick == today,
        0 < later,
        today <= later < today + interval,
    ensures
        !state.due(later, interval),
{
}

/// Where no enemy headquarters stands, the Death Star goes for the enemy system
/// that is held most strongly, however far away it is, and for the nearest of
/// those.
pub proof fn law_death_star_seeks_strength(
    world: GameWorld,
    g: Galaxy,
    from: SystemKey,
    side: bool,
    j: int,
)
    requires
        world.systems.has(from),
        g.enemy_hq is Some ==> !system_reachable(world, g.enemy_hq->0),
        0 <= j < g.enemy_controlled.len(),
        system_reachable(world, g.enemy_controlled[j]),
    ensures
        ({
            let target = death_star_target(world, g, from, side);
            let chosen = world.systems.at(target->0);
            let other = world.systems.at(g.enemy_controlled[j]);
            let origin = world.systems.at(from);
            &&& target is Some
            &&& g.enemy_controlled.contains(target->0)
            &&& system_reachable(world, target->0)
            &&& strength_of(world, chosen, !side) >= strength_of(world, other, !side)
            &&& strength_of(world, chosen, !side) == strength_of(world, other, !side)
                ==> distance_squared(chosen, origin) <= distance_squared(other, origin)
        }),
{
    let list = g.enemy_controlled;
    let f = prize(world, side, from, list);
    let found = collect(list.len(), f);
    lemma_collect_covers(list.len(), f);
    assert(f(j) is Some);
    assert(found.contains(f(j)->0));
    let b = choose|b: int| 0 <= b < found.len() && found[b] == f(j)->0;
    lemma_last_max_tops(found);
    let a = choose|a: int| #[trigger] is_last_max(found, a) && last_max(found) == Some(found[a].0);
    assert(gives(list.len(), f, found[a]));
    let i = choose|i: int| 0 <= i < list.len() && #[trigger] f(i) == Some(found[a]);
    assert(list[i] == found[a].0);
    assert(found[b].1 <= found[a].1);
    lemma_prize_rank(world, side, from, list, i);
    lemma_prize_rank(world, side, from, list, j);
}

/// A rank tells strength and distance apart.
proof fn lemma_prize_rank(
    world: GameWorld,
    side: bool,
    from: SystemKey,
    list: Seq<SystemKey>,
    i: int,
)
    requires
        0 <= i < list.len(),
        system_reachable(world, list[i]),
    ensures
        ({
            let sys = world.systems.at(list[i]);
            let d = distance_squared(sys, world.systems.at(from));
            &&& 0 <= d < BEYOND_REACH
            &&& 0 <= strength_of(world, sys, !side) <= u32::MAX
            &&& prize(world, side, from, list)(i) is Some
            &&& (prize(world, side, from, list)(i)->0).1 == strength_of(world, sys, !side)
                * BEYOND_REACH - d
        }),
{
    let sys = world.systems.at(list[i]);
    let origin = world.systems.at(from);
    lemma_square_bound(sys.x - origin.x);
    lemma_square_bound(sys.y - origin.y);
    lemma_strength_fits(world, sys, !side);
}

} // verus!
