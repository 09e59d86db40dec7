//! What the Death Star threatens, destroys and leaves behind, measured from
//! outside.

use crate::arena::{cleared, lemma_slots_bounded, names, ArenaKey};
use crate::blockade::{kept_system, BlockadeState};
use crate::dat::Faction;
use crate::death_star::{
    aboard, can_fire, doomed, orders_cleared, site_cleared, superlaser_at, warning, warnings,
    world_cleared, DeathStarEvent, DeathStarState,
};
use crate::ids::{
    CharacterKey, DefenseFacilityKey, FleetKey, ManufacturingFacilityKey, ProductionFacilityKey,
    SpecialForceKey, SystemKey, TroopKey,
};
use crate::manufacturing::{ManufacturingState, QueueItem};
use crate::movement::{orders_elsewhere, orders_of_others, MovementOrder, MovementState};
use crate::select::{collect, gives, lemma_collect_covers};
use crate::world::{distance_squared, ControlKind, GameWorld};
use vstd::prelude::*;

verus! {

// ---- Warnings --------------------------------------------------------------

/// Exactly the systems of the Alliance no farther than 300 from where the
/// Death Star stands are warned, but for that system itself.
pub proof fn law_who_is_warned(
    world: GameWorld,
    fleet: FleetKey,
    tick: u64,
    system: SystemKey,
)
    requires
        world.fleets.has(fleet),
        world.systems.has(world.fleets.at(fleet).location),
    ensures
        ({
            let at = world.fleets.at(fleet).location;
            warnings(world, Some(fleet), tick).contains(
                DeathStarEvent::NearbyWarning { system, tick },
            ) <==> {
                &&& world.systems.has(system)
                &&& system != at
                &&& world.systems.at(system).control == ControlKind::Controlled(Faction::Alliance)
                &&& distance_squared(world.systems.at(system), world.systems.at(at)) <= 90000
            }
        }),
        warnings(world, None, tick).len() == 0,
{
    let at = world.fleets.at(fleet).location;
    let f = warning(world, at, tick);
    let n = world.systems@.len();
    lemma_slots_bounded(&world.systems);
    lemma_collect_covers(n, f);
    let list = warnings(world, Some(fleet), tick);
    let event = DeathStarEvent::NearbyWarning { system, tick };
    if list.contains(event) {
        let k = choose|k: int| 0 <= k < list.len() && list[k] == event;
        assert(gives(n, f, list[k]));
        let i = choose|i: int| 0 <= i < n && #[trigger] f(i) == Some(list[k]);
        assert(system.slot == i);
    }
    if world.systems.has(system) && f(system.slot as int) is Some {
        assert(f(system.slot as int) == Some(event));
    }
}

/// Without a fleet there is nothing to warn of.
pub proof fn law_no_station_no_warning(world: GameWorld, fleet: FleetKey, tick: u64)
    requires
        !world.fleets.has(fleet) || !world.systems.has(world.fleets.at(fleet).location),
    ensures
        warnings(world, Some(fleet), tick).len() == 0,
{
}

// ---- The superlaser --------------------------------------------------------

/// The superlaser can be fired exactly if the generator is down, the target
/// still stands, the Empire does not hold it, and a fleet of the Empire with a
/// Death Star is there.
pub proof fn law_when_the_superlaser_fires(
    state: DeathStarState,
    world: GameWorld,
    target: SystemKey,
)
    ensures
        can_fire(state, world, target) <==> {
            let sys = world.systems.at(target);
            &&& world.systems.has(target)
            &&& !state.shield_generator_active
            &&& !sys.is_destroyed
            &&& sys.control != ControlKind::Controlled(Faction::Empire)
            &&& exists|i: int|
                0 <= i < sys.fleets@.len() && world.fleets.has(#[trigger] sys.fleets@[i])
                    && world.fleets.at(sys.fleets@[i]).has_death_star && !world.fleets.at(
                    sys.fleets@[i],
                ).is_alliance
        },
{
    let sys = world.systems.at(target);
    if can_fire(state, world, target) {
        let i = choose|i: int| superlaser_at(world, sys, i);
        assert(world.fleets.has(sys.fleets@[i]));
    }
    if exists|i: int|
        0 <= i < sys.fleets@.len() && world.fleets.has(#[trigger] sys.fleets@[i])
            && world.fleets.at(sys.fleets@[i]).has_death_star && !world.fleets.at(
            sys.fleets@[i],
        ).is_alliance {
        let i = choose|i: int|
            0 <= i < sys.fleets@.len() && world.fleets.has(#[trigger] sys.fleets@[i])
                && world.fleets.at(sys.fleets@[i]).has_death_star && !world.fleets.at(
                sys.fleets@[i],
            ).is_alliance;
        assert(superlaser_at(world, sys, i));
    }
}

// ---- What is left ----------------------------------------------------------

/// Whoever is aboard a fleet at a destroyed system is among the doomed, and
/// nobody is who is neither aboard such a fleet nor on the ground there.
pub proof fn law_who_is_doomed(
    world: GameWorld,
    system: SystemKey,
    fleet: FleetKey,
    who: CharacterKey,
)
    ensures
        world.systems.at(system).fleets@.contains(fleet) && world.fleets.has(fleet)
            && world.fleets.at(fleet).characters@.contains(who) ==> doomed(
            world,
            system,
        ).contains(who),
        doomed(world, system).contains(who) ==> (world.characters.has(who) && world.characters.at(
            who,
        ).current_system == Some(system)) || exists|i: int|
            0 <= i < world.systems.at(system).fleets@.len() && world.fleets.has(
                #[trigger] world.systems.at(system).fleets@[i],
            ) && world.fleets.at(
                world.systems.at(system).fleets@[i],
            ).characters@.contains(who),
{
    let fleets = world.systems.at(system).fleets@;
    let f = crate::death_star::resident(world, system);
    let n = world.characters@.len();
    let ground = collect(n, f);
    let flown = aboard(world, fleets, fleets.len());
    let all = doomed(world, system);
    lemma_slots_bounded(&world.characters);
    lemma_collect_covers(n, f);
    lemma_aboard(world, fleets, fleets.len(), fleet, who);
    assert(all == flown + ground);
    if flown.contains(who) {
        let k = choose|k: int| 0 <= k < flown.len() && flown[k] == who;
        assert(all[k] == who);
    }
    if all.contains(who) {
        let k = choose|k: int| 0 <= k < all.len() && all[k] == who;
        if k < flown.len() {
            assert(flown[k] == who);
        } else {
            assert(ground[k - flown.len()] == who);
            assert(gives(n, f, ground[k - flown.len()]));
            let i = choose|i: int| 0 <= i < n && #[trigger] f(i) == Some(
                ground[k - flown.len()],
            );
        }
    }
}

proof fn lemma_aboard(
    world: GameWorld,
    fleets: Seq<FleetKey>,
    n: nat,
    fleet: FleetKey,
    who: CharacterKey,
)
    requires
        n <= fleets.len(),
    ensures
        (exists|i: int| 0 <= i < n && #[trigger] fleets[i] == fleet) && world.fleets.has(fleet)
            && world.fleets.at(fleet).characters@.contains(who) ==> aboard(
            world,
            fleets,
            n,
        ).contains(who),
        aboard(world, fleets, n).contains(who) ==> exists|i: int|
            0 <= i < n && world.fleets.has(#[trigger] fleets[i]) && world.fleets.at(
                fleets[i],
            ).characters@.contains(who),
    decreases n,
{
    if n > 0 {
        let m = (n - 1) as nat;
        lemma_aboard(world, fleets, m, fleet, who);
        let before = aboard(world, fleets, m);
        let after = aboard(world, fleets, n);
        let last = fleets[n - 1];
        let crew = world.fleets.at(last).characters@;
        if before.contains(who) {
            let k = choose|k: int| 0 <= k < before.len() && before[k] == who;
            assert(after[k] == who);
        }
        if world.fleets.has(last) && crew.contains(who) {
            let k = choose|k: int| 0 <= k < crew.len() && crew[k] == who;
            assert(after[before.len() + k] == who);
        }
        if after.contains(who) && !before.contains(who) {
            let k = choose|k: int| 0 <= k < after.len() && after[k] == who;
            if k < before.len() {
                assert(before[k] == who);
            } else {
                assert(crew[k - before.len()] == who);
                assert(fleets[n - 1] == last);
            }
        }
    }
}

/// Nothing that was at a destroyed system is left: no fleet over it and no
/// unit or facility on it, and its lists are empty. Everything elsewhere, and
/// all that is told of the system itself besides, stays as it was.
pub proof fn law_nothing_is_left(
    before: GameWorld,
    after: GameWorld,
    system: SystemKey,
    fleet: FleetKey,
    troop: TroopKey,
    special: SpecialForceKey,
    fort: DefenseFacilityKey,
    yard: ManufacturingFacilityKey,
    works: ProductionFacilityKey,
    other: SystemKey,
)
    requires
        before.systems.has(system),
        world_cleared(before, after, system),
    ensures
        ({
            let sys = before.systems.at(system);
            let now = after.systems.at(system);
            &&& after.fleets.has(fleet) == (before.fleets.has(fleet) && !sys.fleets@.contains(
                fleet,
            ))
            &&& after.troops.has(troop) == (before.troops.has(troop) && !sys.ground_units@.contains(
                troop,
            ))
            &&& after.troops.has(troop) ==> after.troops.at(troop) == before.troops.at(troop)
            &&& after.special_forces.has(special) == (before.special_forces.has(special)
                && !sys.special_forces@.contains(special))
            &&& after.defense_facilities.has(fort) == (before.defense_facilities.has(fort)
                && !sys.defense_facilities@.contains(fort))
            &&& after.manufacturing_facilities.has(yard) == (before.manufacturing_facilities.has(
                yard,
            ) && !sys.manufacturing_facilities@.contains(yard))
            &&& after.production_facilities.has(works) == (before.production_facilities.has(works)
                && !sys.production_facilities@.contains(works))
            &&& now.fleets@.len() == 0 && now.ground_units@.len() == 0
            &&& now.special_forces@.len() == 0 && now.defense_facilities@.len() == 0
            &&& now.manufacturing_facilities@.len() == 0 && now.production_facilities@.len() == 0
            &&& now.is_destroyed == sys.is_destroyed && now.control == sys.control && now.x == sys.x
                && now.y == sys.y && now.name == sys.name
            &&& other != system ==> after.systems.has(other) == before.systems.has(other)
            &&& other != system && after.systems.has(other) ==> after.systems.at(other)
                == before.systems.at(other)
        }),
{
    let sys = before.systems.at(system);
    lemma_named(sys.fleets@, fleet);
    lemma_named(sys.ground_units@, troop);
    lemma_named(sys.special_forces@, special);
    lemma_named(sys.defense_facilities@, fort);
    lemma_named(sys.manufacturing_facilities@, yard);
    lemma_named(sys.production_facilities@, works);
    let left = cleared(before.fleets@, sys.fleets@);
    let slot = fleet.slot as int;
    if 0 <= slot < left.len() {
        assert(left[slot] is Some == after.fleets@[slot] is Some);
    }
    assert(after.systems@[system.slot as int] == Some(after.systems.at(system)));
    if other != system {
        assert(other.slot != system.slot);
    }
}

proof fn lemma_named<K: ArenaKey>(keys: Seq<K>, key: K)
    ensures
        names(keys, key.slot_of() as int) == keys.contains(key),
{
    if names(keys, key.slot_of() as int) {
        let i = choose|i: int|
            0 <= i < keys.len() && (#[trigger] keys[i]).slot_of() == key.slot_of();
        K::same_slot(keys[i], key);
    }
    if keys.contains(key) {
        let i = choose|i: int| 0 <= i < keys.len() && keys[i] == key;
        assert(keys[i].slot_of() == key.slot_of());
    }
}

/// Fleets on their way to a destroyed system lose their orders and no others
/// do; its production is dropped and no other's; its blockade is lifted and no
/// other. A Death Star that was being built there is lost.
pub proof fn law_orders_to_nowhere_are_dropped(
    movement_before: MovementState,
    movement: MovementState,
    queues_before: ManufacturingState,
    queues: ManufacturingState,
    blockade_before: BlockadeState,
    blockade: BlockadeState,
    state: DeathStarState,
    system: SystemKey,
    order: MovementOrder,
    item: QueueItem,
    other: SystemKey,
)
    requires
        orders_cleared(
            movement_before,
            movement,
            queues_before,
            queues,
            blockade_before,
            blockade,
            system,
        ),
    ensures
        movement.orders@.contains(order) <==> movement_before.orders@.contains(order)
            && order.destination != system,
        queues.items@.contains(item) <==> queues_before.items@.contains(item) && item.system
            != system,
        blockade.systems@.contains(other) <==> blockade_before.systems@.contains(other) && other
            != system,
        ({
            let after = site_cleared(state, system);
            &&& after.death_star_fleet == state.death_star_fleet
            &&& after.shield_generator_active == state.shield_generator_active
            &&& after.under_construction is Some <==> state.under_construction is Some
                && state.under_construction->0.system != system
            &&& after.under_construction is Some ==> after.under_construction
                == state.under_construction
        }),
{
    let a = movement_before.orders@;
    lemma_kept(
        a,
        |i: int|
            if a[i].destination != system {
                Some(a[i])
            } else {
                None
            },
        |o: MovementOrder| o.destination != system,
        order,
    );
    let b = queues_before.items@;
    lemma_kept(
        b,
        |i: int|
            if b[i].system != system {
                Some(b[i])
            } else {
                None
            },
        |q: QueueItem| q.system != system,
        item,
    );
    let c = blockade_before.systems@;
    lemma_kept(c, kept_system(c, system), |s: SystemKey| s != system, other);
}

/// A choice from a list holds what was chosen and nothing else.
pub(crate) proof fn lemma_kept<A>(
    list: Seq<A>,
    f: spec_fn(int) -> Option<A>,
    keep: spec_fn(A) -> bool,
    item: A,
)
    requires
        forall|i: int|
            0 <= i < list.len() ==> #[trigger] f(i) == if keep(list[i]) {
                Some(list[i])
            } else {
                None
            },
    ensures
        collect(list.len(), f).contains(item) <==> list.contains(item) && keep(item),
{
    let n = list.len();
    lemma_collect_covers(n, f);
    let kept = collect(n, f);
    if kept.contains(item) {
        let k = choose|k: int| 0 <= k < kept.len() && kept[k] == item;
        assert(gives(n, f, kept[k]));
        let i = choose|i: int| 0 <= i < n && #[trigger] f(i) == Some(kept[k]);
        assert(list[i] == item);
    }
    if list.contains(item) && keep(item) {
        let i = choose|i: int| 0 <= i < n && list[i] == item;
        assert(f(i) == Some(item));
    }
}

/// Cancelling the order of a fleet leaves those of all other fleets.
pub proof fn law_cancelling_touches_one_fleet(
    orders: Seq<MovementOrder>,
    fleet: FleetKey,
    order: MovementOrder,
)
    ensures
        orders_of_others(orders, fleet).contains(order) <==> orders.contains(order) && order.fleet
            != fleet,
        orders_elsewhere(orders, order.destination).contains(order) == false,
{
    lemma_kept(
        orders,
        |i: int|
            if orders[i].fleet != fleet {
                Some(orders[i])
            } else {
                None
            },
        |o: MovementOrder| o.fleet != fleet,
        order,
    );
    let system = order.destination;
    lemma_kept(
        orders,
        |i: int|
            if orders[i].destination != system {
                Some(orders[i])
            } else {
                None
            },
        |o: MovementOrder| o.destination != system,
        order,
    );
}

} // verus!
