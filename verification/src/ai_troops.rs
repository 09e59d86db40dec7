//! Which regiments travel with the fleets.
//!
//! Regiments leave a planet only aboard a fleet. The moves already ordered
//! are loaded first: an attack takes what its origin can spare above the
//! minimum garrison, a reinforcement takes one regiment to a system that
//! needs it. Systems still short of troops are then paired, the most urgent
//! first, with an unused transport at a system that has troops to give.

use crate::ai::{orders, AIAction, AISystem, AiFaction, FleetMoveReason, Order};
use crate::ai_deploy::{lists, moves};
use crate::ai_strength::{faction_of, items, side_faction};
use crate::arena::occupied;
use crate::ids::{FleetKey, SystemKey, TroopKey};
use crate::movement::{in_transit, MovementState};
use crate::select::{collect, lemma_total_monotone, sort_by_rank, stable_sort, total};
use crate::tuning::GameConfig;
use crate::world::{distance_squared, Fleet, GameWorld, System};
use vstd::prelude::*;

verus! {

/// The `i`th regiment on the ground, if it is of the side.
pub open spec fn friendly(world: GameWorld, sys: System, side: bool) -> spec_fn(int) -> Option<
    TroopKey,
> {
    |i: int|
        {
            let key = sys.ground_units@[i];
            if world.troops.has(key) && world.troops.at(key).is_alliance == side {
                Some(key)
            } else {
                None
            }
        }
}

/// A side's regiments at a system.
pub open spec fn garrison(world: GameWorld, sys: System, side: bool) -> Seq<TroopKey> {
    collect(sys.ground_units@.len(), friendly(world, sys, side))
}

/// Whether system `i` is an enemy system near `sys`.
pub open spec fn threatens(world: GameWorld, sys: System, side: bool, i: int) -> bool {
    &&& occupied(world.systems@, i)
    &&& (world.systems@[i]->0).control.held_by(faction_of(!side))
    &&& distance_squared(sys, world.systems@[i]->0) < 150 * 150
}

/// Whether an enemy system lies near.
pub open spec fn frontline(world: GameWorld, sys: System, side: bool) -> bool {
    exists|i: int| threatens(world, sys, side, i)
}

/// How urgently a system needs troops: 0 for a headquarters at the front, 1
/// for the front, 2 for a headquarters, 3 for the rest.
pub open spec fn urgency(world: GameWorld, sys: System, side: bool) -> i128 {
    match (frontline(world, sys, side), sys.is_headquarters) {
        (true, true) => 0,
        (true, false) => 1,
        (false, true) => 2,
        (false, false) => 3,
    }
}

/// System `i`, if it is ours and has troops to give.
pub open spec fn donor(world: GameWorld, side: bool, config: GameConfig) -> spec_fn(int) -> Option<
    SystemKey,
> {
    |i: int|
        if occupied(world.systems@, i) && (world.systems@[i]->0).control.held_by(faction_of(side))
            && garrison(world, world.systems@[i]->0, side).len()
            > config.ai.troop_garrison_donor_threshold {
            Some(SystemKey { slot: i as usize })
        } else {
            None
        }
}

/// System `i` with its urgency, if it is ours and short of troops.
pub open spec fn receiver(world: GameWorld, side: bool, config: GameConfig) -> spec_fn(
    int,
) -> Option<(SystemKey, i128)> {
    |i: int|
        if occupied(world.systems@, i) && (world.systems@[i]->0).control.held_by(faction_of(side))
            && garrison(world, world.systems@[i]->0, side).len()
            <= config.ai.troop_garrison_donor_threshold && garrison(
            world,
            world.systems@[i]->0,
            side,
        ).len() < config.ai.troop_garrison_min {
            Some(
                (SystemKey { slot: i as usize }, urgency(world, world.systems@[i]->0, side)),
            )
        } else {
            None
        }
}

/// The systems with troops to give.
pub open spec fn donors(world: GameWorld, side: bool, config: GameConfig) -> Seq<SystemKey> {
    collect(world.systems@.len(), donor(world, side, config))
}

/// The systems short of troops, the most urgent first.
pub open spec fn receivers(world: GameWorld, side: bool, config: GameConfig) -> Seq<SystemKey> {
    items(stable_sort(collect(world.systems@.len(), receiver(world, side, config))))
}

/// Troop room of the `i`th ship, if it is alive and of a known class.
pub open spec fn berth(world: GameWorld, fleet: Fleet) -> spec_fn(int) -> int {
    |i: int|
        {
            let ship = fleet.capital_ships@[i];
            if ship.alive && world.capital_ship_classes.has(ship.class) {
                world.capital_ship_classes.at(ship.class).troop_capacity as int
            } else {
                0
            }
        }
}

/// How many regiments a fleet can carry.
pub open spec fn troop_room(world: GameWorld, fleet: Fleet) -> int {
    total(fleet.capital_ships@.len(), berth(world, fleet))
}

/// Regiments in the order of their keys.
pub open spec fn in_key_order(list: Seq<TroopKey>) -> Seq<TroopKey> {
    items(stable_sort(Seq::new(list.len(), |i: int| (list[i], list[i].slot as i128))))
}

/// The `i`th regiment at a fleet's origin, if it is ours and not spoken for.
pub open spec fn unclaimed(world: GameWorld, sys: System, side: bool, claimed: Seq<TroopKey>) -> spec_fn(
    int,
) -> Option<TroopKey> {
    |i: int|
        {
            let key = sys.ground_units@[i];
            if !claimed.contains(key) && world.troops.has(key) && world.troops.at(key).is_alliance
                == side {
                Some(key)
            } else {
                None
            }
        }
}

/// How far the loading has come.
pub struct Muster {
    pub orders: Seq<Order>,
    /// Regiments that a fleet takes along.
    pub claimed: Seq<TroopKey>,
    /// Fleets under orders.
    pub moved: Seq<FleetKey>,
    /// Systems that reinforcements with troops are bound for.
    pub reinforced: Seq<SystemKey>,
}

/// How many regiments a fleet takes along.
pub open spec fn allotment(
    room: int,
    available: nat,
    reason: FleetMoveReason,
    needed: bool,
    config: GameConfig,
) -> int {
    match reason {
        FleetMoveReason::Attack => {
            let spare = if available > config.ai.troop_garrison_min {
                available - config.ai.troop_garrison_min
            } else {
                0
            };
            if spare < room {
                spare
            } else {
                room
            }
        },
        FleetMoveReason::Reinforce => if needed && available
            > config.ai.troop_garrison_donor_threshold {
            1
        } else {
            0
        },
    }
}

/// The regiments that a move order ends up with: those it had and the last of
/// the origin's unclaimed ones, in the order of their keys.
pub open spec fn loaded(
    world: GameWorld,
    side: bool,
    config: GameConfig,
    m: Muster,
    fleet: FleetKey,
    to_system: SystemKey,
    reason: FleetMoveReason,
    troops: Seq<TroopKey>,
) -> Option<Seq<TroopKey>> {
    if !world.fleets.has(fleet) {
        None
    } else {
        let f = world.fleets.at(fleet);
        let room = troop_room(world, f);
        if room == 0 || !world.systems.has(f.location) {
            None
        } else {
            let origin = world.systems.at(f.location);
            let available = in_key_order(
                collect(origin.ground_units@.len(), unclaimed(world, origin, side, m.claimed)),
            );
            let limit = allotment(
                room,
                available.len(),
                reason,
                receivers(world, side, config).contains(to_system),
                config,
            );
            Some(in_key_order(troops + available.reverse().take(limit)))
        }
    }
}

/// Loads one order; only moves take regiments.
pub open spec fn load_one(
    world: GameWorld,
    side: bool,
    config: GameConfig,
    m: Muster,
    order: Order,
) -> Muster {
    match order {
        Order::Move { fleet, to_system, reason, troops } => {
            match loaded(world, side, config, m, fleet, to_system, reason, troops) {
                None => Muster { orders: m.orders.push(order), moved: m.moved.push(fleet), ..m },
                Some(aboard) => Muster {
                    orders: m.orders.push(
                        Order::Move { fleet, to_system, reason, troops: aboard },
                    ),
                    claimed: m.claimed + aboard,
                    moved: m.moved.push(fleet),
                    reinforced: if aboard.len() > 0 && reason == FleetMoveReason::Reinforce {
                        m.reinforced.push(to_system)
                    } else {
                        m.reinforced
                    },
                },
            }
        },
        _ => Muster { orders: m.orders.push(order), ..m },
    }
}

/// The muster after the first `n` orders are loaded.
pub open spec fn load_all(
    world: GameWorld,
    side: bool,
    config: GameConfig,
    given: Seq<Order>,
    n: nat,
) -> Muster
    decreases n,
{
    if n == 0 {
        Muster {
            orders: Seq::empty(),
            claimed: Seq::empty(),
            moved: Seq::empty(),
            reinforced: Seq::empty(),
        }
    } else {
        load_one(world, side, config, load_all(world, side, config, given, (n - 1) as nat), given[n - 1])
    }
}

/// Whether ship `i` of a fleet can carry troops.
pub open spec fn has_berth(world: GameWorld, fleet: Fleet, i: int) -> bool {
    &&& 0 <= i < fleet.capital_ships@.len()
    &&& fleet.capital_ships@[i].alive
    &&& world.capital_ship_classes.has(fleet.capital_ships@[i].class)
    &&& world.capital_ship_classes.at(fleet.capital_ships@[i].class).troop_capacity > 0
}

/// Whether a fleet is an unused transport of the side.
pub open spec fn free_transport(
    world: GameWorld,
    movement: MovementState,
    side: bool,
    taken: Seq<FleetKey>,
    key: FleetKey,
) -> bool {
    &&& !taken.contains(key)
    &&& !in_transit(movement.orders@, key)
    &&& world.fleets.has(key)
    &&& world.fleets.at(key).is_alliance == side
    &&& !world.fleets.at(key).bare()
    &&& exists|i: int| has_berth(world, world.fleets.at(key), i)
}

/// The first unused transport of a list, from `from` on.
pub open spec fn first_transport(
    world: GameWorld,
    movement: MovementState,
    side: bool,
    taken: Seq<FleetKey>,
    list: Seq<FleetKey>,
    from: nat,
) -> Option<FleetKey>
    decreases list.len() - from,
{
    if from >= list.len() {
        None
    } else if free_transport(world, movement, side, taken, list[from as int]) {
        Some(list[from as int])
    } else {
        first_transport(world, movement, side, taken, list, from + 1)
    }
}

/// The last of the first `n` regiments that is not spoken for.
pub open spec fn last_unclaimed(list: Seq<TroopKey>, claimed: Seq<TroopKey>, n: nat) -> Option<
    TroopKey,
>
    decreases n,
{
    if n == 0 {
        None
    } else if !claimed.contains(list[n - 1]) {
        Some(list[n - 1])
    } else {
        last_unclaimed(list, claimed, (n - 1) as nat)
    }
}

/// A transport and a regiment at the first donor, from `from` on, that has both.
pub open spec fn first_offer(
    world: GameWorld,
    movement: MovementState,
    side: bool,
    m: Muster,
    givers: Seq<SystemKey>,
    from: nat,
) -> Option<(FleetKey, TroopKey)>
    decreases givers.len() - from,
{
    if from >= givers.len() {
        None
    } else {
        let sys = world.systems.at(givers[from as int]);
        let troops = garrison(world, sys, side);
        let troop = last_unclaimed(troops, m.claimed, troops.len());
        let fleet = first_transport(world, movement, side, m.moved, sys.fleets@, 0);
        if troop is Some && fleet is Some {
            Some((fleet->0, troop->0))
        } else {
            first_offer(world, movement, side, m, givers, from + 1)
        }
    }
}

/// Sends one regiment to a system that is still short of troops.
pub open spec fn relieve_one(
    world: GameWorld,
    movement: MovementState,
    side: bool,
    givers: Seq<SystemKey>,
    m: Muster,
    to_system: SystemKey,
) -> Muster {
    if m.reinforced.contains(to_system) {
        m
    } else {
        match first_offer(world, movement, side, m, givers, 0) {
            Some((fleet, troop)) => Muster {
                orders: m.orders.push(
                    Order::Move {
                        fleet,
                        to_system,
                        reason: FleetMoveReason::Reinforce,
                        troops: seq![troop],
                    },
                ),
                claimed: m.claimed.push(troop),
                moved: m.moved.push(fleet),
                ..m
            },
            None => m,
        }
    }
}

/// The muster after the first `n` systems in need were considered.
pub open spec fn relieve_all(
    world: GameWorld,
    movement: MovementState,
    side: bool,
    givers: Seq<SystemKey>,
    needy: Seq<SystemKey>,
    m: Muster,
    n: nat,
) -> Muster
    decreases n,
{
    if n == 0 {
        m
    } else {
        relieve_one(
            world,
            movement,
            side,
            givers,
            relieve_all(world, movement, side, givers, needy, m, (n - 1) as nat),
            needy[n - 1],
        )
    }
}

/// All orders once the regiments have been handed out.
pub open spec fn mustered(
    world: GameWorld,
    movement: MovementState,
    side: bool,
    config: GameConfig,
    given: Seq<Order>,
) -> Seq<Order> {
    let needy = receivers(world, side, config);
    relieve_all(
        world,
        movement,
        side,
        donors(world, side, config),
        needy,
        load_all(world, side, config, given, given.len()),
        needy.len(),
    ).orders
}

// ---- Executable side -------------------------------------------------------

/// Lists a side's regiments at a system.
fn list_garrison(world: &GameWorld, sys: &System, side: bool) -> (troops: Vec<TroopKey>)
    ensures
        troops@ == garrison(*world, *sys, side),
{
    let ghost f = friendly(*world, *sys, side);
    let mut troops: Vec<TroopKey> = Vec::new();
    for i in 0..sys.ground_units.len()
        invariant
            f == friendly(*world, *sys, side),
            troops@ == collect(i as nat, f),
    {
        let key: TroopKey = sys.ground_units[i];
        if let Some(troop) = world.troops.get(key) {
            if troop.is_alliance == side {
                troops.push(key);
            }
        }
    }
    troops
}

/// Checks whether an enemy system lies near.
fn is_frontline(world: &GameWorld, sys: &System, side: bool) -> (near: bool)
    ensures
        near == frontline(*world, *sys, side),
{
    let count: usize = world.systems.slot_count();
    for i in 0..count
        invariant
            count == world.systems@.len(),
            forall|j: int| 0 <= j < i ==> !threatens(*world, *sys, side, j),
    {
        if let Some(other) = world.systems.slot(i) {
            if other.control.is_controlled_by(side_faction(!side)) && sys.distance_squared_to(other)
                < 22500 {
                assert(threatens(*world, *sys, side, i as int));
                return true;
            }
        }
    }
    false
}

/// Lists the systems with troops to give and, the most urgent first, those in need.
fn list_needs(world: &GameWorld, side: bool, config: &GameConfig) -> (needs: (
    Vec<SystemKey>,
    Vec<SystemKey>,
))
    ensures
        needs.0@ == donors(*world, side, *config),
        needs.1@ == receivers(*world, side, *config),
{
    let ghost give = donor(*world, side, *config);
    let ghost need = receiver(*world, side, *config);
    let mut givers: Vec<SystemKey> = Vec::new();
    let mut needy: Vec<(SystemKey, i128)> = Vec::new();
    let count: usize = world.systems.slot_count();
    for i in 0..count
        invariant
            count == world.systems@.len(),
            give == donor(*world, side, *config),
            need == receiver(*world, side, *config),
            givers@ == collect(i as nat, give),
            needy@ == collect(i as nat, need),
    {
        if let Some(sys) = world.systems.slot(i) {
            if sys.control.is_controlled_by(side_faction(side)) {
                let held: usize = list_garrison(world, sys, side).len();
                if held > config.ai.troop_garrison_donor_threshold {
                    givers.push(SystemKey { slot: i });
                } else if held < config.ai.troop_garrison_min {
                    let priority: i128 = match (
                        is_frontline(world, sys, side),
                        sys.is_headquarters,
                    ) {
                        (true, true) => 0,
                        (true, false) => 1,
                        (false, true) => 2,
                        (false, false) => 3,
                    };
                    needy.push((SystemKey { slot: i }, priority));
                }
            }
        }
    }
    let ranked: Vec<(SystemKey, i128)> = sort_by_rank(&needy);
    let mut sorted: Vec<SystemKey> = Vec::new();
    for i in 0..ranked.len()
        invariant
            sorted@ == items(ranked@).take(i as int),
    {
        sorted.push(ranked[i].0);
        assert(sorted@ =~= items(ranked@).take(i + 1));
    }
    assert(sorted@ =~= items(ranked@));
    (givers, sorted)
}

/// Puts regiments in the order of their keys.
fn sort_troops(list: &Vec<TroopKey>) -> (sorted: Vec<TroopKey>)
    ensures
        sorted@ == in_key_order(list@),
        sorted@.len() == list@.len(),
{
    let ghost whole = Seq::new(list@.len(), |i: int| (list@[i], list@[i].slot as i128));
    let mut entries: Vec<(TroopKey, i128)> = Vec::new();
    for i in 0..list.len()
        invariant
            whole == Seq::new(list@.len(), |i: int| (list@[i], list@[i].slot as i128)),
            entries@ == whole.take(i as int),
    {
        entries.push((list[i], list[i].slot as i128));
        assert(entries@ =~= whole.take(i + 1));
    }
    assert(entries@ =~= whole);
    let ranked: Vec<(TroopKey, i128)> = sort_by_rank(&entries);
    proof {
        crate::select::law_sort_orders(whole);
    }
    let mut sorted: Vec<TroopKey> = Vec::new();
    for i in 0..ranked.len()
        invariant
            sorted@ == items(ranked@).take(i as int),
    {
        sorted.push(ranked[i].0);
        assert(sorted@ =~= items(ranked@).take(i + 1));
    }
    assert(sorted@ =~= items(ranked@));
    sorted
}

/// Whether a list names a regiment.
fn lists_troop(list: &Vec<TroopKey>, troop: TroopKey) -> (found: bool)
    ensures
        found == list@.contains(troop),
{
    for i in 0..list.len()
        invariant
            forall|j: int| 0 <= j < i ==> list@[j] != troop,
    {
        if list[i] == troop {
            assert(list@[i as int] == troop);
            return true;
        }
    }
    false
}

/// Whether a list names a fleet.
fn lists_fleet(list: &Vec<FleetKey>, fleet: FleetKey) -> (found: bool)
    ensures
        found == list@.contains(fleet),
{
    for i in 0..list.len()
        invariant
            forall|j: int| 0 <= j < i ==> list@[j] != fleet,
    {
        if list[i] == fleet {
            assert(list@[i as int] == fleet);
            return true;
        }
    }
    false
}

/// How many regiments a fleet can carry, up to what a word can count.
fn count_room(world: &GameWorld, fleet: &Fleet) -> (room: usize)
    ensures
        room == if troop_room(*world, *fleet) > usize::MAX {
            usize::MAX as int
        } else {
            troop_room(*world, *fleet)
        },
        troop_room(*world, *fleet) >= 0,
{
    let ghost f = berth(*world, *fleet);
    let mut room: usize = 0;
    for i in 0..fleet.capital_ships.len()
        invariant
            f == berth(*world, *fleet),
            forall|i: int| #[trigger] f(i) >= 0,
            total(i as nat, f) >= 0,
            room == if total(i as nat, f) > usize::MAX {
                usize::MAX as int
            } else {
                total(i as nat, f)
            },
    {
        proof {
            lemma_total_monotone((i + 1) as nat, (i + 1) as nat, f);
        }
        let ship = fleet.capital_ships[i];
        if ship.alive {
            if let Some(class) = world.capital_ship_classes.get(ship.class) {
                room = room.saturating_add(class.troop_capacity as usize);
            }
        }
    }
    room
}

/// Lists the origin's regiments that nobody has claimed, in key order.
fn list_unclaimed(world: &GameWorld, sys: &System, side: bool, claimed: &Vec<TroopKey>) -> (list:
    Vec<TroopKey>)
    ensures
        list@ == in_key_order(
            collect(sys.ground_units@.len(), unclaimed(*world, *sys, side, claimed@)),
        ),
{
    let ghost f = unclaimed(*world, *sys, side, claimed@);
    let mut found: Vec<TroopKey> = Vec::new();
    for i in 0..sys.ground_units.len()
        invariant
            f == unclaimed(*world, *sys, side, claimed@),
            found@ == collect(i as nat, f),
    {
        let key: TroopKey = sys.ground_units[i];
        if !lists_troop(claimed, key) {
            if let Some(troop) = world.troops.get(key) {
                if troop.is_alliance == side {
                    found.push(key);
                }
            }
        }
    }
    sort_troops(&found)
}

/// The loading as it runs.
struct Loading {
    claimed: Vec<TroopKey>,
    moved: Vec<FleetKey>,
    reinforced: Vec<SystemKey>,
}

/// What the loading says, together with the orders handled so far.
spec fn muster_of(l: Loading, done: Seq<Order>) -> Muster {
    Muster { orders: done, claimed: l.claimed@, moved: l.moved@, reinforced: l.reinforced@ }
}

impl Loading {
    /// Loads one move order.
    fn load(
        &mut self,
        world: &GameWorld,
        side: bool,
        config: &GameConfig,
        needy: &Vec<SystemKey>,
        fleet: FleetKey,
        to_system: SystemKey,
        reason: FleetMoveReason,
        troops: Vec<TroopKey>,
        Ghost(done): Ghost<Seq<Order>>,
    ) -> (aboard: Vec<TroopKey>)
        requires
            needy@ == receivers(*world, side, *config),
        ensures
            muster_of(
                *final(self),
                done.push(Order::Move { fleet, to_system, reason, troops: aboard@ }),
            ) == load_one(
                *world,
                side,
                *config,
                muster_of(*old(self), done),
                Order::Move { fleet, to_system, reason, troops: troops@ },
            ),
    {
        let ghost had = troops@;
        self.moved.push(fleet);
        let value: &Fleet = match world.fleets.get(fleet) {
            Some(value) => value,
            None => {
                return troops;
            },
        };
        let room: usize = count_room(world, value);
        if room == 0 {
            return troops;
        }
        let origin: &System = match world.systems.get(value.location) {
            Some(origin) => origin,
            None => {
                return troops;
            },
        };
        let available: Vec<TroopKey> = list_unclaimed(world, origin, side, &self.claimed);
        let limit: usize = match reason {
            FleetMoveReason::Attack => {
                let spare: usize = available.len().saturating_sub(config.ai.troop_garrison_min);
                if spare < room {
                    spare
                } else {
                    room
                }
            },
            FleetMoveReason::Reinforce => if lists(needy, to_system) && available.len()
                > config.ai.troop_garrison_donor_threshold {
                1
            } else {
                0
            },
        };
        let mut troops: Vec<TroopKey> = troops;
        let ghost tail = available@.reverse();
        for k in 0..limit
            invariant
                limit <= available@.len(),
                tail == available@.reverse(),
                troops@ == had + tail.take(k as int),
        {
            troops.push(available[available.len() - 1 - k]);
            assert(troops@ =~= had + tail.take(k + 1));
        }
        let aboard: Vec<TroopKey> = sort_troops(&troops);
        let ghost before = self.claimed@;
        for k in 0..aboard.len()
            invariant
                self.claimed@ == before + aboard@.take(k as int),
                self.moved@ == old(self).moved@.push(fleet),
                self.reinforced@ == old(self).reinforced@,
        {
            self.claimed.push(aboard[k]);
            assert(self.claimed@ =~= before + aboard@.take(k + 1));
        }
        assert(self.claimed@ =~= before + aboard@);
        if aboard.len() > 0 && reason == FleetMoveReason::Reinforce {
            self.reinforced.push(to_system);
        }
        aboard
    }
}

/// Checks whether a fleet has room for troops at all.
fn carries_troops(world: &GameWorld, fleet: &Fleet) -> (can: bool)
    ensures
        can == exists|i: int| has_berth(*world, *fleet, i),
{
    for i in 0..fleet.capital_ships.len()
        invariant
            forall|j: int| 0 <= j < i ==> !has_berth(*world, *fleet, j),
    {
        if fleet.capital_ships[i].alive {
            if let Some(class) = world.capital_ship_classes.get(fleet.capital_ships[i].class) {
                if class.troop_capacity > 0 {
                    assert(has_berth(*world, *fleet, i as int));
                    return true;
                }
            }
        }
    }
    false
}

/// Finds the first unused transport.
fn find_transport(
    world: &GameWorld,
    movement: &MovementState,
    side: bool,
    taken: &Vec<FleetKey>,
    list: &Vec<FleetKey>,
) -> (found: Option<FleetKey>)
    ensures
        found == first_transport(*world, *movement, side, taken@, list@, 0),
{
    let mut i: usize = 0;
    while i < list.len()
        invariant
            i <= list@.len(),
            first_transport(*world, *movement, side, taken@, list@, 0) == first_transport(
                *world,
                *movement,
                side,
                taken@,
                list@,
                i as nat,
            ),
        decreases list@.len() - i,
    {
        let key: FleetKey = list[i];
        if !lists_fleet(taken, key) && !movement.is_in_transit(key) {
            if let Some(fleet) = world.fleets.get(key) {
                if fleet.is_alliance == side && !fleet.is_empty() && carries_troops(world, fleet) {
                    return Some(key);
                }
            }
        }
        i = i + 1;
    }
    None
}

/// Finds the last regiment that is not spoken for.
fn find_unclaimed(list: &Vec<TroopKey>, claimed: &Vec<TroopKey>) -> (found: Option<TroopKey>)
    ensures
        found == last_unclaimed(list@, claimed@, list@.len()),
{
    let mut n: usize = list.len();
    while n > 0
        invariant
            n <= list@.len(),
            last_unclaimed(list@, claimed@, list@.len()) == last_unclaimed(
                list@,
                claimed@,
                n as nat,
            ),
        decreases n,
    {
        if !lists_troop(claimed, list[n - 1]) {
            return Some(list[n - 1]);
        }
        n = n - 1;
    }
    None
}

/// Every listed donor is a living system.
proof fn lemma_donors_live(world: GameWorld, side: bool, config: GameConfig, n: nat)
    requires
        n <= world.systems@.len() <= usize::MAX,
    ensures
        forall|k: int|
            0 <= k < collect(n, donor(world, side, config)).len() ==> world.systems.has(
                #[trigger] collect(n, donor(world, side, config))[k],
            ),
    decreases n,
{
    if n > 0 {
        let f = donor(world, side, config);
        let m = (n - 1) as nat;
        lemma_donors_live(world, side, config, m);
        assert forall|k: int| 0 <= k < collect(n, f).len() implies world.systems.has(
            #[trigger] collect(n, f)[k],
        ) by {
            if k < collect(m, f).len() {
                assert(collect(n, f)[k] == collect(m, f)[k]);
            } else {
                assert(f(m as int) == Some(collect(n, f)[k]));
            }
        }
    }
}

/// Finds a transport and a regiment for a system in need.
fn find_offer(
    world: &GameWorld,
    movement: &MovementState,
    side: bool,
    l: &Loading,
    givers: &Vec<SystemKey>,
    Ghost(done): Ghost<Seq<Order>>,
) -> (offer: Option<(FleetKey, TroopKey)>)
    requires
        forall|k: int| 0 <= k < givers@.len() ==> world.systems.has(#[trigger] givers@[k]),
    ensures
        offer == first_offer(*world, *movement, side, muster_of(*l, done), givers@, 0),
{
    let ghost m = muster_of(*l, done);
    let mut i: usize = 0;
    while i < givers.len()
        invariant
            i <= givers@.len(),
            m == muster_of(*l, done),
            forall|k: int| 0 <= k < givers@.len() ==> world.systems.has(#[trigger] givers@[k]),
            first_offer(*world, *movement, side, m, givers@, 0) == first_offer(
                *world,
                *movement,
                side,
                m,
                givers@,
                i as nat,
            ),
        decreases givers@.len() - i,
    {
        let sys: &System = world.systems.at_key(givers[i]);
        let troops: Vec<TroopKey> = list_garrison(world, sys, side);
        if let Some(troop) = find_unclaimed(&troops, &l.claimed) {
            if let Some(fleet) = find_transport(world, movement, side, &l.moved, &sys.fleets) {
                return Some((fleet, troop));
            }
        }
        i = i + 1;
    }
    None
}

impl AISystem {
    /// Hands regiments to the fleets that move and relieves systems that are
    /// short of troops.
    pub fn evaluate_troop_deployment(
        world: &GameWorld,
        movement: &MovementState,
        faction: AiFaction,
        config: &GameConfig,
        actions: &mut Vec<AIAction>,
    )
        ensures
            orders(final(actions)@) == mustered(
                *world,
                *movement,
                faction.rebel(),
                *config,
                orders(old(actions)@),
            ),
    {
        let side: bool = faction.is_alliance();
        let (givers, needy): (Vec<SystemKey>, Vec<SystemKey>) = list_needs(world, side, config);
        proof {
            crate::arena::lemma_slots_bounded(&world.systems);
            lemma_donors_live(*world, side, *config, world.systems@.len());
        }
        let ghost given = orders(actions@);
        let mut l: Loading = Loading {
            claimed: Vec::new(),
            moved: Vec::new(),
            reinforced: Vec::new(),
        };
        let mut done: Vec<AIAction> = Vec::new();
        let mut rest: Vec<AIAction> = Vec::new();
        std::mem::swap(&mut rest, actions);
        let ghost all = rest@;
        assert(orders(done@) =~= Seq::<Order>::empty());
        let ghost m0 = load_all(*world, side, *config, given, 0);
        assert(muster_of(l, orders(done@)) == m0);
        let total_actions: usize = rest.len();
        for i in 0..total_actions
            invariant
                total_actions == all.len(),
                given == orders(all),
                rest@ == all.subrange(i as int, all.len() as int),
                needy@ == receivers(*world, side, *config),
                muster_of(l, orders(done@)) == load_all(*world, side, *config, given, i as nat),
        {
            let action: AIAction = rest.remove(0);
            assert(rest@ =~= all.subrange(i + 1, all.len() as int));
            assert(action == all[i as int]);
            assert(given[i as int] == action@);
            let ghost before = orders(done@);
            match action {
                AIAction::MoveFleet { fleet, to_system, reason, troops } => {
                    let aboard: Vec<TroopKey> = l.load(
                        world,
                        side,
                        config,
                        &needy,
                        fleet,
                        to_system,
                        reason,
                        troops,
                        Ghost(before),
                    );
                    crate::ai::issue(
                        &mut done,
                        AIAction::MoveFleet { fleet, to_system, reason, troops: aboard },
                    );
                },
                other => {
                    crate::ai::issue(&mut done, other);
                },
            }
        }
        let ghost base = muster_of(l, orders(done@));
        let ghost gs = donors(*world, side, *config);
        for i in 0..needy.len()
            invariant
                gs == donors(*world, side, *config),
                givers@ == gs,
                forall|k: int| 0 <= k < givers@.len() ==> world.systems.has(#[trigger] givers@[k]),
                muster_of(l, orders(done@)) == relieve_all(
                    *world,
                    *movement,
                    side,
                    gs,
                    needy@,
                    base,
                    i as nat,
                ),
        {
            let to_system: SystemKey = needy[i];
            if !lists(&l.reinforced, to_system) {
                let ghost before = orders(done@);
                if let Some((fleet, troop)) = find_offer(
                    world,
                    movement,
                    side,
                    &l,
                    &givers,
                    Ghost(before),
                ) {
                    let mut troops: Vec<TroopKey> = Vec::new();
                    troops.push(troop);
                    assert(troops@ =~= seq![troop]);
                    crate::ai::issue(
                        &mut done,
                        AIAction::MoveFleet {
                            fleet,
                            to_system,
                            reason: FleetMoveReason::Reinforce,
                            troops,
                        },
                    );
                    l.moved.push(fleet);
                    l.claimed.push(troop);
                }
            }
        }
        *actions = done;
    }
}

} // verus!
