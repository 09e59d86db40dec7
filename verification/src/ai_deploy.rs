//! Handing targets to idle fleets.
//!
//! First every idle fleet, in order, is given its own task: the Death Star
//! goes for its prize, one fleet garrisons the headquarters, the others open
//! or join an attack. Fleets that found every front taken wait; when we hold
//! more of the galaxy than the enemy they then pile onto the largest attack.

use crate::ai::{
    fleet_dispatchable, issue, orders, system_reachable, AIAction, AISystem, Advice, AiFaction,
    FleetMoveReason, Order,
};
use crate::ai_fleets::{death_star_target, fleet_move, move_order};
use crate::ai_strength::{
    capped, faction_of, galaxy_of, fleet_strength_of, has_side, side_faction, side_present,
    strength_of, Galaxy, GalaxyState,
};
use crate::arena::occupied;
use crate::ids::{FleetKey, SystemKey};
use crate::movement::{in_transit, MovementState};
use crate::select::{collect, first_min, last_max, pick_first_min, pick_last_max, tally};
use crate::world::{alive_ships, Fleet, GameWorld, System};
use vstd::prelude::*;

verus! {

/// How often a system is a target.
pub open spec fn aimed_at(targets: Seq<SystemKey>, system: SystemKey) -> nat {
    tally(targets.len(), aims(targets, system))
}

/// Whether the `i`th target is the system.
pub open spec fn aims(targets: Seq<SystemKey>, system: SystemKey) -> spec_fn(int) -> bool {
    |i: int| targets[i] == system
}

/// Whether target `i` names a system that no earlier target names.
pub open spec fn opens_front(targets: Seq<SystemKey>, i: int) -> bool {
    forall|j: int| 0 <= j < i ==> targets[j] != targets[i]
}

/// How many different systems are targets.
pub open spec fn fronts(targets: Seq<SystemKey>) -> nat {
    tally(targets.len(), |i: int| opens_front(targets, i))
}

/// Counts how often a system is a target.
fn count_aimed(targets: &Vec<SystemKey>, system: SystemKey) -> (count: usize)
    ensures
        count == aimed_at(targets@, system),
{
    let ghost t = targets@;
    let ghost f = aims(t, system);
    let mut count: usize = 0;
    for i in 0..targets.len()
        invariant
            t == targets@,
            f == aims(t, system),
            count <= i,
            count == tally(i as nat, f),
    {
        if targets[i] == system {
            count = count + 1;
        }
    }
    count
}

/// Counts the different target systems.
fn count_fronts(targets: &Vec<SystemKey>) -> (count: usize)
    ensures
        count == fronts(targets@),
{
    let ghost t = targets@;
    let ghost f = |i: int| opens_front(t, i);
    let mut count: usize = 0;
    for i in 0..targets.len()
        invariant
            t == targets@,
            f == (|i: int| opens_front(t, i)),
            count <= i,
            count == tally(i as nat, f),
    {
        let mut fresh: bool = true;
        for j in 0..i
            invariant
                i < targets@.len(),
                t == targets@,
                fresh == forall|k: int| 0 <= k < j ==> t[k] != t[i as int],
        {
            if targets[j] == targets[i] {
                fresh = false;
            }
        }
        assert(fresh == opens_front(t, i as int));
        if fresh {
            count = count + 1;
        }
    }
    count
}

/// The destination of the `i`th fleet under way, if it is ours.
pub open spec fn bound_for(world: GameWorld, movement: MovementState, side: bool) -> spec_fn(
    int,
) -> Option<SystemKey> {
    |i: int|
        {
            let order = movement.orders@[i];
            if world.fleets.has(order.fleet) && world.fleets.at(order.fleet).is_alliance == side {
                Some(order.destination)
            } else {
                None
            }
        }
}

/// Whether an order already moves a fleet.
pub open spec fn moved(list: Seq<Order>, fleet: FleetKey) -> bool {
    exists|i: int| 0 <= i < list.len() && moves(#[trigger] list[i], fleet)
}

/// Whether one order moves a fleet.
pub open spec fn moves(order: Order, fleet: FleetKey) -> bool {
    order is Move && order->Move_fleet == fleet
}

/// Whether a fleet at the headquarters can be left there as its garrison.
pub open spec fn can_guard(world: GameWorld, movement: MovementState, side: bool, key: FleetKey) -> bool {
    &&& world.fleets.has(key)
    &&& world.fleets.at(key).is_alliance == side
    &&& !world.fleets.at(key).has_death_star
    &&& !world.fleets.at(key).bare()
    &&& !in_transit(movement.orders@, key)
}

/// The `i`th fleet over the headquarters, if it can guard it, by strength and key.
pub open spec fn guard(world: GameWorld, movement: MovementState, side: bool, hq: System) -> spec_fn(
    int,
) -> Option<(FleetKey, i128)> {
    |i: int|
        {
            let key = hq.fleets@[i];
            if can_guard(world, movement, side, key) {
                Some(
                    (
                        key,
                        (fleet_strength_of(world, world.fleets.at(key)) * 0x1_0000_0000_0000_0000
                            + key.slot) as i128,
                    ),
                )
            } else {
                None
            }
        }
}

/// The fleet kept at the headquarters: the weakest of several, or a lone one
/// with a single ship. A larger single fleet may leave.
pub open spec fn hq_guard(
    world: GameWorld,
    movement: MovementState,
    side: bool,
    our_hq: Option<SystemKey>,
) -> Option<FleetKey> {
    match our_hq {
        Some(hq) => if world.systems.has(hq) {
            let list = collect(
                world.systems.at(hq).fleets@.len(),
                guard(world, movement, side, world.systems.at(hq)),
            );
            if list.len() == 1 {
                let ships = world.fleets.at(list[0].0).capital_ships@;
                if alive_ships(ships, ships.len()) <= 1 {
                    Some(list[0].0)
                } else {
                    None
                }
            } else {
                first_min(list)
            }
        } else {
            None
        },
        None => None,
    }
}

/// Whether an enemy fleet shares a fleet's system.
pub open spec fn in_combat(world: GameWorld, fleet: Fleet) -> bool {
    world.systems.has(fleet.location) && side_present(
        world,
        world.systems.at(fleet.location),
        !fleet.is_alliance,
    )
}

/// Whether a fleet is spoken for: under way, already ordered, or on guard.
pub open spec fn reserved(
    movement: MovementState,
    given: Seq<Order>,
    guard: Option<FleetKey>,
    key: FleetKey,
) -> bool {
    in_transit(movement.orders@, key) || moved(given, key) || guard == Some(key)
}

/// The fleet of slot `i` and where it stands, if it is ours and idle.
pub open spec fn idle_fleet(
    world: GameWorld,
    movement: MovementState,
    side: bool,
    given: Seq<Order>,
    guard: Option<FleetKey>,
) -> spec_fn(int) -> Option<(FleetKey, SystemKey)> {
    |i: int|
        if occupied(world.fleets@, i) && (world.fleets@[i]->0).is_alliance == side && !reserved(
            movement,
            given,
            guard,
            FleetKey { slot: i as usize },
        ) && !in_combat(world, world.fleets@[i]->0) {
            Some((FleetKey { slot: i as usize }, (world.fleets@[i]->0).location))
        } else {
            None
        }
}

/// The systems open to attack: those the enemy holds, then those it merely
/// has a fleet over. The Empire also keeps the enemy's headquarters in view.
pub open spec fn attack_list(g: Galaxy, faction: AiFaction) -> Seq<SystemKey> {
    let held = g.enemy_controlled;
    let flown = g.enemy_fleet_systems;
    let list = held + collect(flown.len(), beyond(held, flown));
    if faction == AiFaction::Empire && g.enemy_hq is Some && !list.contains(g.enemy_hq->0) {
        seq![g.enemy_hq->0] + list
    } else {
        list
    }
}

/// The `i`th of `flown`, if `held` lacks it.
pub open spec fn beyond(held: Seq<SystemKey>, flown: Seq<SystemKey>) -> spec_fn(int) -> Option<
    SystemKey,
> {
    |i: int|
        if !held.contains(flown[i]) {
            Some(flown[i])
        } else {
            None
        }
}

/// Whether a fleet may attack a system from where it stands: it is elsewhere,
/// it stands, and its garrison is at most three times as strong as the fleet.
pub open spec fn fair_target(
    world: GameWorld,
    side: bool,
    fleet: Fleet,
    at: SystemKey,
    target: SystemKey,
) -> bool {
    &&& target != at
    &&& system_reachable(world, target)
    &&& {
        let garrison = strength_of(world, world.systems.at(target), !side);
        garrison == 0 || garrison <= capped(fleet_strength_of(world, fleet) * 3)
    }
}

/// The `i`th system open to attack, if the fleet may attack it.
pub open spec fn fair(
    world: GameWorld,
    side: bool,
    fleet: Fleet,
    at: SystemKey,
    list: Seq<SystemKey>,
) -> spec_fn(int) -> Option<SystemKey> {
    |i: int|
        if fair_target(world, side, fleet, at, list[i]) {
            Some(list[i])
        } else {
            None
        }
}

/// Each offered target with the rank it was given.
pub open spec fn appraised(advice: Advice, asked: nat, offers: Seq<SystemKey>) -> Seq<
    (SystemKey, i128),
> {
    Seq::new(offers.len(), |j: int| (offers[j], advice.rank(asked, j)))
}

/// How far the deployment has come.
pub struct Deploy {
    /// Orders given so far.
    pub orders: Seq<Order>,
    /// Systems under attack, one entry for each fleet sent.
    pub targets: Seq<SystemKey>,
    /// Whether the headquarters has its garrison.
    pub hq_defended: bool,
    /// Fleets that found every front taken.
    pub waiting: Seq<(FleetKey, SystemKey)>,
    /// How many fleets have asked for an appraisal of their targets.
    pub asked: nat,
}

/// What one idle fleet is given.
pub open spec fn deploy_one(
    world: GameWorld,
    faction: AiFaction,
    g: Galaxy,
    max_fronts: nat,
    advice: Advice,
    d: Deploy,
    entry: (FleetKey, SystemKey),
) -> Deploy {
    let side = faction.rebel();
    let (key, at) = entry;
    let fleet = world.fleets.at(key);
    let list = attack_list(g, faction);
    let offers = collect(list.len(), fair(world, side, fleet, at, list));
    if !fleet_dispatchable(world, key, faction) {
        d
    } else if fleet.has_death_star {
        match death_star_target(world, g, at, side) {
            Some(target) => if at != target {
                Deploy {
                    orders: d.orders.push(move_order(key, target, FleetMoveReason::Attack)),
                    targets: d.targets.push(target),
                    ..d
                }
            } else {
                d
            },
            None => d,
        }
    } else if world.systems.has(at) && world.systems.at(at).control.held_by(faction_of(!side)) {
        d
    } else if !d.hq_defended && g.our_hq is Some {
        if at != g.our_hq->0 {
            Deploy {
                orders: d.orders.push(move_order(key, g.our_hq->0, FleetMoveReason::Reinforce)),
                hq_defended: true,
                ..d
            }
        } else {
            Deploy { hq_defended: true, ..d }
        }
    } else if offers.len() == 0 {
        d
    } else {
        let target = last_max(appraised(advice, d.asked, offers))->0;
        if aimed_at(d.targets, target) > 0 || fronts(d.targets) < max_fronts {
            Deploy {
                orders: d.orders.push(move_order(key, target, FleetMoveReason::Attack)),
                targets: d.targets.push(target),
                asked: d.asked + 1,
                ..d
            }
        } else {
            Deploy { waiting: d.waiting.push(entry), asked: d.asked + 1, ..d }
        }
    }
}

/// The deployment after the first `n` idle fleets.
pub open spec fn deploy_all(
    world: GameWorld,
    faction: AiFaction,
    g: Galaxy,
    max_fronts: nat,
    advice: Advice,
    start: Deploy,
    idle: Seq<(FleetKey, SystemKey)>,
    n: nat,
) -> Deploy
    decreases n,
{
    if n == 0 {
        start
    } else {
        deploy_one(
            world,
            faction,
            g,
            max_fronts,
            advice,
            deploy_all(world, faction, g, max_fronts, advice, start, idle, (n - 1) as nat),
            idle[n - 1],
        )
    }
}

/// Whether no system is a target more often.
pub open spec fn most_crowded(targets: Seq<SystemKey>, system: SystemKey) -> bool {
    forall|j: int|
        0 <= j < targets.len() ==> aimed_at(targets, #[trigger] targets[j]) <= aimed_at(
            targets,
            system,
        )
}

/// The `i`th target with its key as its rank, if it is a most crowded one.
pub open spec fn crowded(targets: Seq<SystemKey>) -> spec_fn(int) -> Option<(SystemKey, i128)> {
    |i: int|
        if most_crowded(targets, targets[i]) {
            Some((targets[i], targets[i].slot as i128))
        } else {
            None
        }
}

/// The system that is a target most often; of several the one with the lowest key.
pub open spec fn largest_attack(targets: Seq<SystemKey>) -> Option<SystemKey> {
    first_min(collect(targets.len(), crowded(targets)))
}

/// A waiting fleet joins the largest attack, unless it is already there.
pub open spec fn pile_one(d: Deploy, entry: (FleetKey, SystemKey)) -> Deploy {
    match largest_attack(d.targets) {
        Some(target) => if target != entry.1 {
            Deploy {
                orders: d.orders.push(move_order(entry.0, target, FleetMoveReason::Attack)),
                targets: d.targets.push(target),
                ..d
            }
        } else {
            d
        },
        None => d,
    }
}

/// The deployment after the first `n` waiting fleets have joined an attack.
pub open spec fn pile_all(d: Deploy, n: nat) -> Deploy
    decreases n,
{
    if n == 0 {
        d
    } else {
        pile_one(pile_all(d, (n - 1) as nat), d.waiting[n - 1])
    }
}

/// How many attacks may run at once.
pub open spec fn front_limit(advice: Advice, idle: nat) -> nat {
    let wanted: nat = if advice.attack_fronts > 1 {
        advice.attack_fronts as nat
    } else {
        1
    };
    if idle < wanted {
        idle
    } else {
        wanted
    }
}

/// The deployment before the first fleet is considered.
pub open spec fn deploy_start(world: GameWorld, movement: MovementState, side: bool, g: Galaxy) -> Deploy {
    Deploy {
        orders: Seq::empty(),
        targets: collect(movement.orders@.len(), bound_for(world, movement, side)),
        hq_defended: g.our_hq is Some && world.systems.has(g.our_hq->0) && side_present(
            world,
            world.systems.at(g.our_hq->0),
            side,
        ),
        waiting: Seq::empty(),
        asked: 0,
    }
}

/// The idle fleets of a side, in order, with where they stand.
pub open spec fn idle_fleets(
    world: GameWorld,
    movement: MovementState,
    side: bool,
    g: Galaxy,
    given: Seq<Order>,
) -> Seq<(FleetKey, SystemKey)> {
    collect(
        world.fleets@.len(),
        idle_fleet(world, movement, side, given, hq_guard(world, movement, side, g.our_hq)),
    )
}

/// The whole deployment, given the orders issued before it.
pub open spec fn deployment(
    world: GameWorld,
    movement: MovementState,
    faction: AiFaction,
    advice: Advice,
    given: Seq<Order>,
) -> Deploy {
    let side = faction.rebel();
    let g = galaxy_of(world, side);
    let idle = idle_fleets(world, movement, side, g, given);
    let d = deploy_all(
        world,
        faction,
        g,
        front_limit(advice, idle.len()),
        advice,
        deploy_start(world, movement, side, g),
        idle,
        idle.len(),
    );
    if g.our_controlled.len() > g.enemy_controlled.len() {
        pile_all(d, d.waiting.len())
    } else {
        d
    }
}

/// The orders of the deployment: none while the enemy holds nothing and flies
/// nowhere.
pub open spec fn deployment_orders(
    world: GameWorld,
    movement: MovementState,
    faction: AiFaction,
    advice: Advice,
    given: Seq<Order>,
) -> Seq<Order> {
    let g = galaxy_of(world, faction.rebel());
    if g.enemy_controlled.len() == 0 && g.enemy_fleet_systems.len() == 0 {
        Seq::empty()
    } else {
        deployment(world, movement, faction, advice, given).orders
    }
}

/// The deployment as it runs.
struct Deployment {
    actions: Vec<AIAction>,
    targets: Vec<SystemKey>,
    hq_defended: bool,
    waiting: Vec<(FleetKey, SystemKey)>,
    asked: usize,
}

impl View for Deployment {
    type V = Deploy;

    closed spec fn view(&self) -> Deploy {
        Deploy {
            orders: orders(self.actions@),
            targets: self.targets@,
            hq_defended: self.hq_defended,
            waiting: self.waiting@,
            asked: self.asked as nat,
        }
    }
}

/// Lists the systems open to attack.
fn list_attacks(g: &GalaxyState, faction: AiFaction) -> (list: Vec<SystemKey>)
    ensures
        list@ == attack_list(g@, faction),
{
    let ghost held = g.enemy_controlled@;
    let ghost flown = g.enemy_fleet_systems@;
    let ghost f = beyond(held, flown);
    let mut list: Vec<SystemKey> = Vec::new();
    for i in 0..g.enemy_controlled.len()
        invariant
            held == g.enemy_controlled@,
            list@ == held.take(i as int),
    {
        list.push(g.enemy_controlled[i]);
        assert(list@ =~= held.take(i + 1));
    }
    assert(list@ =~= held + Seq::<SystemKey>::empty());
    for i in 0..g.enemy_fleet_systems.len()
        invariant
            held == g.enemy_controlled@,
            flown == g.enemy_fleet_systems@,
            f == beyond(held, flown),
            list@ == held + collect(i as nat, f),
    {
        let system: SystemKey = g.enemy_fleet_systems[i];
        let ghost before = list@;
        if !lists(&g.enemy_controlled, system) {
            list.push(system);
            assert(list@ =~= held + collect((i + 1) as nat, f));
        }
    }
    if faction == AiFaction::Empire {
        if let Some(hq) = g.enemy_hq {
            if !lists(&list, hq) {
                let ghost before = list@;
                list.insert(0, hq);
                assert(list@ =~= seq![hq] + before);
            }
        }
    }
    list
}

/// Whether a list names a system.
pub(crate) fn lists(list: &Vec<SystemKey>, system: SystemKey) -> (found: bool)
    ensures
        found == list@.contains(system),
{
    for i in 0..list.len()
        invariant
            forall|j: int| 0 <= j < i ==> list@[j] != system,
    {
        if list[i] == system {
            assert(list@[i as int] == system);
            return true;
        }
    }
    false
}

/// Lists the targets that a fleet may attack.
fn list_offers(
    world: &GameWorld,
    faction: AiFaction,
    fleet: &Fleet,
    at: SystemKey,
    list: &Vec<SystemKey>,
) -> (offers: Vec<SystemKey>)
    ensures
        offers@ == collect(
            list@.len(),
            fair(*world, faction.rebel(), *fleet, at, list@),
        ),
{
    let side: bool = faction.is_alliance();
    let ghost f = fair(*world, side, *fleet, at, list@);
    let power: u32 = AISystem::fleet_strength(world, fleet);
    let limit: u64 = power as u64 * 3;
    let limit: u64 = if limit > u32::MAX as u64 {
        u32::MAX as u64
    } else {
        limit
    };
    let mut offers: Vec<SystemKey> = Vec::new();
    for i in 0..list.len()
        invariant
            f == fair(*world, side, *fleet, at, list@),
            limit == capped(fleet_strength_of(*world, *fleet) * 3),
            offers@ == collect(i as nat, f),
    {
        let target: SystemKey = list[i];
        if target != at && AISystem::can_dispatch_to_system(world, faction, target) {
            let sys: &System = world.systems.at_key(target);
            let garrison: u32 = AISystem::system_strength(world, sys, !side);
            if garrison == 0 || garrison as u64 <= limit {
                offers.push(target);
            }
        }
    }
    offers
}

/// Picks the offered target with the best appraisal.
fn pick_offer(advice: &Advice, asked: usize, offers: &Vec<SystemKey>) -> (target: SystemKey)
    requires
        offers@.len() > 0,
    ensures
        Some(target) == last_max(appraised(*advice, asked as nat, offers@)),
{
    let mut entries: Vec<(SystemKey, i128)> = Vec::new();
    let ghost whole = appraised(*advice, asked as nat, offers@);
    for j in 0..offers.len()
        invariant
            whole == appraised(*advice, asked as nat, offers@),
            entries@ == whole.take(j as int),
    {
        let rank: i128 = if asked < advice.rankings.len() && j < advice.rankings[asked].len() {
            advice.rankings[asked][j]
        } else {
            0
        };
        entries.push((offers[j], rank));
        assert(entries@ =~= whole.take(j + 1));
    }
    assert(entries@ =~= whole);
    match pick_last_max(&entries) {
        Some(target) => target,
        None => offers[0],
    }
}

/// The fleet kept at the headquarters.
fn choose_guard(
    world: &GameWorld,
    movement: &MovementState,
    side: bool,
    our_hq: Option<SystemKey>,
) -> (kept: Option<FleetKey>)
    ensures
        kept == hq_guard(*world, *movement, side, our_hq),
{
    let hq: SystemKey = match our_hq {
        Some(hq) => hq,
        None => {
            return None;
        },
    };
    let sys: &System = match world.systems.get(hq) {
        Some(sys) => sys,
        None => {
            return None;
        },
    };
    let ghost f = guard(*world, *movement, side, *sys);
    let mut guards: Vec<(FleetKey, i128)> = Vec::new();
    for i in 0..sys.fleets.len()
        invariant
            f == guard(*world, *movement, side, *sys),
            guards@ == collect(i as nat, f),
            forall|j: int| 0 <= j < guards@.len() ==> world.fleets.has((#[trigger] guards@[j]).0),
    {
        let key: FleetKey = sys.fleets[i];
        if let Some(fleet) = world.fleets.get(key) {
            if fleet.is_alliance == side && !fleet.has_death_star && !fleet.is_empty()
                && !movement.is_in_transit(key) {
                let strength: u32 = AISystem::fleet_strength(world, fleet);
                guards.push((key, strength as i128 * 0x1_0000_0000_0000_0000 + key.slot as i128));
            }
        }
    }
    if guards.len() == 1 {
        let only: FleetKey = guards[0].0;
        if world.fleets.at_key(only).ship_count() <= 1 {
            Some(only)
        } else {
            None
        }
    } else {
        pick_first_min(&guards)
    }
}

/// Whether a list of actions already moves a fleet.
pub(crate) fn is_moved(actions: &Vec<AIAction>, fleet: FleetKey) -> (found: bool)
    ensures
        found == moved(orders(actions@), fleet),
{
    for i in 0..actions.len()
        invariant
            forall|j: int| 0 <= j < i ==> !moves(#[trigger] orders(actions@)[j], fleet),
    {
        match &actions[i] {
            AIAction::MoveFleet { fleet: key, .. } => {
                if *key == fleet {
                    assert(moves(orders(actions@)[i as int], fleet));
                    return true;
                }
            },
            _ => {},
        }
        assert(!moves(orders(actions@)[i as int], fleet));
    }
    false
}

/// Lists the idle fleets.
fn list_idle(
    world: &GameWorld,
    movement: &MovementState,
    side: bool,
    kept: Option<FleetKey>,
    actions: &Vec<AIAction>,
) -> (idle: Vec<(FleetKey, SystemKey)>)
    ensures
        idle@ == collect(
            world.fleets@.len(),
            idle_fleet(*world, *movement, side, orders(actions@), kept),
        ),
{
    let ghost f = idle_fleet(*world, *movement, side, orders(actions@), kept);
    let mut idle: Vec<(FleetKey, SystemKey)> = Vec::new();
    let count: usize = world.fleets.slot_count();
    for i in 0..count
        invariant
            count == world.fleets@.len(),
            f == idle_fleet(*world, *movement, side, orders(actions@), kept),
            idle@ == collect(i as nat, f),
    {
        if let Some(fleet) = world.fleets.slot(i) {
            let key: FleetKey = FleetKey { slot: i };
            if fleet.is_alliance == side {
                let on_guard: bool = match kept {
                    Some(guard) => guard == key,
                    None => false,
                };
                if !movement.is_in_transit(key) && !is_moved(actions, key) && !on_guard {
                    let fighting: bool = match world.systems.get(fleet.location) {
                        Some(sys) => has_side(world, sys, !fleet.is_alliance),
                        None => false,
                    };
                    if !fighting {
                        idle.push((key, fleet.location));
                    }
                }
            }
        }
    }
    idle
}

/// Lists where our fleets under way are bound.
fn list_bound(world: &GameWorld, movement: &MovementState, side: bool) -> (targets: Vec<SystemKey>)
    ensures
        targets@ == collect(movement.orders@.len(), bound_for(*world, *movement, side)),
{
    let ghost f = bound_for(*world, *movement, side);
    let mut targets: Vec<SystemKey> = Vec::new();
    for i in 0..movement.orders.len()
        invariant
            f == bound_for(*world, *movement, side),
            targets@ == collect(i as nat, f),
    {
        if let Some(fleet) = world.fleets.get(movement.orders[i].fleet) {
            if fleet.is_alliance == side {
                targets.push(movement.orders[i].destination);
            }
        }
    }
    targets
}

/// Finds the system that is a target most often.
fn find_largest_attack(targets: &Vec<SystemKey>) -> (target: Option<SystemKey>)
    ensures
        target == largest_attack(targets@),
{
    let ghost t = targets@;
    let ghost f = crowded(t);
    let mut most: usize = 0;
    for i in 0..targets.len()
        invariant
            t == targets@,
            forall|j: int| 0 <= j < i ==> aimed_at(t, #[trigger] t[j]) <= most,
            i == 0 ==> most == 0,
            i > 0 ==> exists|j: int| 0 <= j < i && aimed_at(t, #[trigger] t[j]) == most,
    {
        let crowd: usize = count_aimed(targets, targets[i]);
        assert(aimed_at(t, t[i as int]) == crowd);
        if crowd > most || i == 0 {
            most = crowd;
        }
    }
    let mut entries: Vec<(SystemKey, i128)> = Vec::new();
    for i in 0..targets.len()
        invariant
            t == targets@,
            f == crowded(t),
            forall|j: int| 0 <= j < t.len() ==> aimed_at(t, #[trigger] t[j]) <= most,
            t.len() > 0 ==> exists|j: int| 0 <= j < t.len() && aimed_at(t, #[trigger] t[j]) == most,
            entries@ == collect(i as nat, f),
    {
        let system: SystemKey = targets[i];
        let crowd: usize = count_aimed(targets, system);
        assert((crowd == most) == most_crowded(t, system));
        if crowd == most {
            entries.push((system, system.slot as i128));
        }
    }
    pick_first_min(&entries)
}

impl Deployment {
    /// Gives one idle fleet its task.
    fn place(
        &mut self,
        world: &GameWorld,
        faction: AiFaction,
        g: &GalaxyState,
        list: &Vec<SystemKey>,
        max_fronts: usize,
        advice: &Advice,
        entry: (FleetKey, SystemKey),
    )
        requires
            list@ == attack_list(g@, faction),
            old(self).asked < usize::MAX,
        ensures
            final(self)@ == deploy_one(
                *world,
                faction,
                g@,
                max_fronts as nat,
                *advice,
                old(self)@,
                entry,
            ),
            final(self).asked <= old(self).asked + 1,
    {
        let side: bool = faction.is_alliance();
        let (key, at): (FleetKey, SystemKey) = entry;
        if !AISystem::can_dispatch_fleet(world, key, faction) {
            return;
        }
        let fleet: &Fleet = world.fleets.at_key(key);
        if fleet.has_death_star {
            if let Some(target) = AISystem::select_ds_target(world, g, at, side) {
                if at != target {
                    issue(&mut self.actions, fleet_move(key, target, FleetMoveReason::Attack));
                    self.targets.push(target);
                }
            }
            return;
        }
        if let Some(sys) = world.systems.get(at) {
            if sys.control.is_controlled_by(side_faction(!side)) {
                return;
            }
        }
        if !self.hq_defended {
            if let Some(hq) = g.our_hq {
                if at != hq {
                    issue(&mut self.actions, fleet_move(key, hq, FleetMoveReason::Reinforce));
                }
                self.hq_defended = true;
                return;
            }
        }
        let offers: Vec<SystemKey> = list_offers(world, faction, fleet, at, list);
        if offers.len() == 0 {
            return;
        }
        let target: SystemKey = pick_offer(advice, self.asked, &offers);
        self.asked = self.asked + 1;
        if count_aimed(&self.targets, target) > 0 || count_fronts(&self.targets) < max_fronts {
            issue(&mut self.actions, fleet_move(key, target, FleetMoveReason::Attack));
            self.targets.push(target);
        } else {
            self.waiting.push(entry);
        }
    }

    /// The targets on offer to a fleet, if it asks for an appraisal.
    fn offers(
        &self,
        world: &GameWorld,
        faction: AiFaction,
        g: &GalaxyState,
        list: &Vec<SystemKey>,
        entry: (FleetKey, SystemKey),
    ) -> (offers: Option<Vec<SystemKey>>)
        requires
            list@ == attack_list(g@, faction),
        ensures
            offers is Some <==> asks(*world, faction, g@, self@, entry),
            offers matches Some(found) ==> found@ == collect(
                list@.len(),
                fair(*world, faction.rebel(), world.fleets.at(entry.0), entry.1, list@),
            ),
    {
        let side: bool = faction.is_alliance();
        let (key, at): (FleetKey, SystemKey) = entry;
        if !AISystem::can_dispatch_fleet(world, key, faction) {
            return None;
        }
        let fleet: &Fleet = world.fleets.at_key(key);
        if fleet.has_death_star {
            return None;
        }
        if let Some(sys) = world.systems.get(at) {
            if sys.control.is_controlled_by(side_faction(!side)) {
                return None;
            }
        }
        if !self.hq_defended && g.our_hq.is_some() {
            return None;
        }
        let offers: Vec<SystemKey> = list_offers(world, faction, fleet, at, list);
        if offers.len() == 0 {
            None
        } else {
            Some(offers)
        }
    }

    /// Lets one waiting fleet join the largest attack.
    fn pile(&mut self, entry: (FleetKey, SystemKey))
        ensures
            final(self)@ == pile_one(old(self)@, entry),
    {
        if let Some(target) = find_largest_attack(&self.targets) {
            if target != entry.1 {
                issue(&mut self.actions, fleet_move(entry.0, target, FleetMoveReason::Attack));
                self.targets.push(target);
            }
        }
    }
}

/// A fleet's question: how good is each of these targets for it?
#[derive(Debug)]
pub struct AttackRequest {
    pub fleet: FleetKey,
    pub location: SystemKey,
    /// The targets on offer.
    pub candidates: Vec<SystemKey>,
    /// How many fleets are already sent against each of them.
    pub crowds: Vec<usize>,
}

/// Whether an idle fleet asks for an appraisal of its targets.
pub open spec fn asks(
    world: GameWorld,
    faction: AiFaction,
    g: Galaxy,
    d: Deploy,
    entry: (FleetKey, SystemKey),
) -> bool {
    let side = faction.rebel();
    let (key, at) = entry;
    let list = attack_list(g, faction);
    &&& fleet_dispatchable(world, key, faction)
    &&& !world.fleets.at(key).has_death_star
    &&& !(world.systems.has(at) && world.systems.at(at).control.held_by(faction_of(!side)))
    &&& !(!d.hq_defended && g.our_hq is Some)
    &&& collect(list.len(), fair(world, side, world.fleets.at(key), at, list)).len() > 0
}

/// The first idle fleet, from `from` on, whose question the advice leaves open.
pub open spec fn open_question(
    world: GameWorld,
    movement: MovementState,
    faction: AiFaction,
    advice: Advice,
    idle: Seq<(FleetKey, SystemKey)>,
    from: nat,
) -> Option<int>
    decreases idle.len() - from,
{
    let g = galaxy_of(world, faction.rebel());
    let d = deploy_all(
        world,
        faction,
        g,
        front_limit(advice, idle.len()),
        advice,
        deploy_start(world, movement, faction.rebel(), g),
        idle,
        from,
    );
    if from >= idle.len() {
        None
    } else if asks(world, faction, g, d, idle[from as int]) && d.asked >= advice.rankings@.len() {
        Some(from as int)
    } else {
        open_question(world, movement, faction, advice, idle, from + 1)
    }
}

/// Whether a request is the question that the advice leaves open.
pub open spec fn asks_for(
    world: GameWorld,
    movement: MovementState,
    faction: AiFaction,
    advice: Advice,
    idle: Seq<(FleetKey, SystemKey)>,
    k: int,
    request: AttackRequest,
) -> bool {
    let side = faction.rebel();
    let g = galaxy_of(world, side);
    let list = attack_list(g, faction);
    let d = deploy_all(
        world,
        faction,
        g,
        front_limit(advice, idle.len()),
        advice,
        deploy_start(world, movement, side, g),
        idle,
        k as nat,
    );
    let offers = collect(
        list.len(),
        fair(world, side, world.fleets.at(idle[k].0), idle[k].1, list),
    );
    &&& request.fleet == idle[k].0
    &&& request.location == idle[k].1
    &&& request.candidates@ == offers
    &&& request.crowds@ == Seq::new(offers.len(), |j: int| aimed_at(d.targets, offers[j]) as usize)
}

impl AISystem {
    /// Finds the first question of the deployment that the advice leaves open.
    /// `given` are the orders issued before the deployment.
    pub fn attack_request(
        world: &GameWorld,
        movement: &MovementState,
        faction: AiFaction,
        advice: &Advice,
        given: &Vec<AIAction>,
    ) -> (request: Option<AttackRequest>)
        ensures
            ({
                let side = faction.rebel();
                let g = galaxy_of(*world, side);
                let idle = idle_fleets(*world, *movement, side, g, orders(given@));
                let k = open_question(*world, *movement, faction, *advice, idle, 0);
                &&& request is Some <==> k is Some
                &&& request matches Some(r) ==> asks_for(
                    *world,
                    *movement,
                    faction,
                    *advice,
                    idle,
                    k->0,
                    r,
                )
            }),
    {
        let side: bool = faction.is_alliance();
        let g: GalaxyState = AISystem::evaluate_galaxy_state(world, faction);
        let hq_defended: bool = match g.our_hq {
            Some(hq) => match world.systems.get(hq) {
                Some(sys) => has_side(world, sys, side),
                None => false,
            },
            None => false,
        };
        let kept: Option<FleetKey> = choose_guard(world, movement, side, g.our_hq);
        let idle: Vec<(FleetKey, SystemKey)> = list_idle(world, movement, side, kept, given);
        let list: Vec<SystemKey> = list_attacks(&g, faction);
        let wanted: usize = if advice.attack_fronts > 1 {
            advice.attack_fronts
        } else {
            1
        };
        let max_fronts: usize = if idle.len() < wanted {
            idle.len()
        } else {
            wanted
        };
        let fresh: Vec<AIAction> = Vec::new();
        assert(orders(fresh@) =~= Seq::<Order>::empty());
        let mut d: Deployment = Deployment {
            actions: fresh,
            targets: list_bound(world, movement, side),
            hq_defended,
            waiting: Vec::new(),
            asked: 0,
        };
        let ghost start = deploy_start(*world, *movement, side, g@);
        assert(d@ == start);
        for i in 0..idle.len()
            invariant
                side == faction.rebel(),
                g@ == galaxy_of(*world, side),
                idle@ == idle_fleets(*world, *movement, side, g@, orders(given@)),
                max_fronts as nat == front_limit(*advice, idle@.len()),
                start == deploy_start(*world, *movement, side, g@),
                list@ == attack_list(g@, faction),
                d.asked <= i,
                d@ == deploy_all(
                    *world,
                    faction,
                    g@,
                    max_fronts as nat,
                    *advice,
                    start,
                    idle@,
                    i as nat,
                ),
                open_question(*world, *movement, faction, *advice, idle@, 0) == open_question(
                    *world,
                    *movement,
                    faction,
                    *advice,
                    idle@,
                    i as nat,
                ),
        {
            if d.asked >= advice.rankings.len() {
                if let Some(offers) = d.offers(world, faction, &g, &list, idle[i]) {
                    let ghost whole = Seq::new(
                        offers@.len(),
                        |j: int| aimed_at(d.targets@, offers@[j]) as usize,
                    );
                    let mut crowds: Vec<usize> = Vec::new();
                    for j in 0..offers.len()
                        invariant
                            whole == Seq::new(
                                offers@.len(),
                                |j: int| aimed_at(d.targets@, offers@[j]) as usize,
                            ),
                            crowds@ == whole.take(j as int),
                    {
                        crowds.push(count_aimed(&d.targets, offers[j]));
                        assert(crowds@ =~= whole.take(j + 1));
                    }
                    assert(crowds@ =~= whole);
                    return Some(
                        AttackRequest {
                            fleet: idle[i].0,
                            location: idle[i].1,
                            candidates: offers,
                            crowds,
                        },
                    );
                }
            }
            d.place(world, faction, &g, &list, max_fronts, advice, idle[i]);
        }
        None
    }

    /// Hands targets to the idle fleets.
    pub fn evaluate_fleet_deployment(
        world: &GameWorld,
        movement: &MovementState,
        faction: AiFaction,
        advice: &Advice,
        actions: &mut Vec<AIAction>,
    )
        ensures
            orders(final(actions)@) == orders(old(actions)@) + deployment_orders(
                *world,
                *movement,
                faction,
                *advice,
                orders(old(actions)@),
            ),
    {
        let side: bool = faction.is_alliance();
        let ghost given = orders(actions@);
        let g: GalaxyState = AISystem::evaluate_galaxy_state(world, faction);
        if g.enemy_controlled.len() == 0 && g.enemy_fleet_systems.len() == 0 {
            assert(given + deployment_orders(*world, *movement, faction, *advice, given)
                =~= given);
            return;
        }
        let hq_defended: bool = match g.our_hq {
            Some(hq) => match world.systems.get(hq) {
                Some(sys) => has_side(world, sys, side),
                None => false,
            },
            None => false,
        };
        let kept: Option<FleetKey> = choose_guard(world, movement, side, g.our_hq);
        let idle: Vec<(FleetKey, SystemKey)> = list_idle(world, movement, side, kept, actions);
        let list: Vec<SystemKey> = list_attacks(&g, faction);
        let wanted: usize = if advice.attack_fronts > 1 {
            advice.attack_fronts
        } else {
            1
        };
        let max_fronts: usize = if idle.len() < wanted {
            idle.len()
        } else {
            wanted
        };
        let fresh: Vec<AIAction> = Vec::new();
        assert(orders(fresh@) =~= Seq::<Order>::empty());
        let mut d: Deployment = Deployment {
            actions: fresh,
            targets: list_bound(world, movement, side),
            hq_defended,
            waiting: Vec::new(),
            asked: 0,
        };
        let ghost start = deploy_start(*world, *movement, side, g@);
        assert(d@ == start);
        for i in 0..idle.len()
            invariant
                list@ == attack_list(g@, faction),
                d.asked <= i,
                d@ == deploy_all(
                    *world,
                    faction,
                    g@,
                    max_fronts as nat,
                    *advice,
                    start,
                    idle@,
                    i as nat,
                ),
        {
            d.place(world, faction, &g, &list, max_fronts, advice, idle[i]);
        }
        let ghost placed = d@;
        if g.our_controlled.len() > g.enemy_controlled.len() {
            let mut waiting: Vec<(FleetKey, SystemKey)> = Vec::new();
            std::mem::swap(&mut waiting, &mut d.waiting);
            for i in 0..waiting.len()
                invariant
                    waiting@ == placed.waiting,
                    d@ == (Deploy { waiting: Seq::empty(), ..pile_all(placed, i as nat) }),
            {
                d.pile(waiting[i]);
            }
        }
        let ghost whole = deployment(*world, *movement, faction, *advice, given);
        assert(orders(d.actions@) == whole.orders);
        let ghost mine = d.actions@;
        actions.append(&mut d.actions);
        assert(orders(actions@) =~= given + orders(mine));
        assert(orders(actions@) == given + deployment_orders(
            *world,
            *movement,
            faction,
            *advice,
            given,
        ));
    }
}

} // verus!
