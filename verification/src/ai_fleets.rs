//! Where the computer player sends its fleets.

use crate::ai::{
    issue, orders, system_reachable, AIAction, AISystem, Advice, AiFaction, FleetMoveReason, Order,
};
use crate::ai_strength::{faction_of, side_faction, strength_of, Galaxy, GalaxyState};
use crate::arena::occupied;
use crate::ids::{FleetKey, SystemKey, TroopKey};
use crate::movement::{in_transit, MovementState};
use crate::select::{collect, first_min, last_max, pick_first_min, pick_last_max};
use crate::world::{distance_squared, GameWorld, System};
use vstd::prelude::*;

verus! {

/// A move without regiments.
pub open spec fn move_order(
    fleet: FleetKey,
    to_system: SystemKey,
    reason: FleetMoveReason,
) -> Order {
    Order::Move { fleet, to_system, reason, troops: Seq::empty() }
}

/// A move without regiments.
pub(crate) fn fleet_move(fleet: FleetKey, to_system: SystemKey, reason: FleetMoveReason) -> (action: AIAction)
    ensures
        action@ == move_order(fleet, to_system, reason),
{
    let troops: Vec<TroopKey> = Vec::new();
    assert(troops@ =~= Seq::<TroopKey>::empty());
    AIAction::MoveFleet { fleet, to_system, reason, troops }
}

// ---- The Death Star --------------------------------------------------------

/// The side's Death Star fleets, in order.
pub open spec fn death_star_fleet(world: GameWorld, side: bool) -> spec_fn(int) -> Option<FleetKey> {
    |i: int|
        if occupied(world.fleets@, i) && (world.fleets@[i]->0).has_death_star && (
        world.fleets@[i]->0).is_alliance == side {
            Some(FleetKey { slot: i as usize })
        } else {
            None
        }
}

/// The side's first Death Star fleet.
pub open spec fn death_star_of(world: GameWorld, side: bool) -> Option<FleetKey> {
    let all = collect(world.fleets@.len(), death_star_fleet(world, side));
    if all.len() == 0 {
        None
    } else {
        Some(all[0])
    }
}

/// A friendly system the Death Star can fall back to, with its distance.
pub open spec fn haven(world: GameWorld, side: bool, from: SystemKey) -> spec_fn(int) -> Option<
    (SystemKey, i128),
> {
    |i: int|
        if occupied(world.systems@, i) && i != from.slot && (
        world.systems@[i]->0).control.held_by(faction_of(side)) && !(
        world.systems@[i]->0).is_destroyed {
            Some(
                (
                    SystemKey { slot: i as usize },
                    distance_squared(world.systems@[i]->0, world.systems.at(from)) as i128,
                ),
            )
        } else {
            None
        }
}

/// Whether fleet `i` stands with the Death Star.
pub open spec fn escorts(world: GameWorld, side: bool, ds: FleetKey, at: SystemKey, i: int) -> bool {
    &&& occupied(world.fleets@, i)
    &&& i != ds.slot
    &&& (world.fleets@[i]->0).is_alliance == side
    &&& (world.fleets@[i]->0).location == at
    &&& !(world.fleets@[i]->0).bare()
}

/// Whether fleet `i` is an idle one elsewhere that could escort the Death Star.
pub open spec fn could_escort(
    world: GameWorld,
    movement: MovementState,
    side: bool,
    ds: FleetKey,
    at: SystemKey,
    i: int,
) -> bool {
    &&& occupied(world.fleets@, i)
    &&& i != ds.slot
    &&& (world.fleets@[i]->0).is_alliance == side
    &&& !(world.fleets@[i]->0).bare()
    &&& !in_transit(movement.orders@, FleetKey { slot: i as usize })
    &&& (world.fleets@[i]->0).location != at
}

/// An idle fleet elsewhere that could escort the Death Star, with its distance.
pub open spec fn spare_escort(
    world: GameWorld,
    movement: MovementState,
    side: bool,
    ds: FleetKey,
    at: SystemKey,
) -> spec_fn(int) -> Option<(FleetKey, i128)> {
    |i: int|
        if could_escort(world, movement, side, ds, at, i) {
            Some(
                (
                    FleetKey { slot: i as usize },
                    distance_squared(
                        world.systems.at((world.fleets@[i]->0).location),
                        world.systems.at(at),
                    ) as i128,
                ),
            )
        } else {
            None
        }
}

/// Where the Death Star falls back to: nowhere unless it is outgunned.
pub open spec fn retreat_of(world: GameWorld, side: bool, at: SystemKey, outgunned: bool) -> Option<
    SystemKey,
> {
    if world.systems.has(at) && strength_of(world, world.systems.at(at), !side) > 0 && outgunned {
        first_min(collect(world.systems@.len(), haven(world, side, at)))
    } else {
        None
    }
}

/// Whether some fleet stands with the Death Star.
pub open spec fn escorted(world: GameWorld, side: bool, ds: FleetKey, at: SystemKey) -> bool {
    exists|i: int| escorts(world, side, ds, at, i)
}

/// The order for the Death Star or its escort, if there is one to give.
pub open spec fn death_star_order(
    world: GameWorld,
    movement: MovementState,
    side: bool,
    outgunned: bool,
) -> Seq<Order> {
    match death_star_of(world, side) {
        None => Seq::empty(),
        Some(ds) => {
            let at = world.fleets.at(ds).location;
            if in_transit(movement.orders@, ds) {
                Seq::empty()
            } else {
                match retreat_of(world, side, at, outgunned) {
                    Some(refuge) => seq![move_order(ds, refuge, FleetMoveReason::Reinforce)],
                    None => if escorted(world, side, ds, at) {
                        Seq::empty()
                    } else {
                        match first_min(
                            collect(
                                world.fleets@.len(),
                                spare_escort(world, movement, side, ds, at),
                            ),
                        ) {
                            Some(escort) => seq![move_order(escort, at, FleetMoveReason::Reinforce)],
                            None => Seq::empty(),
                        }
                    },
                }
            }
        },
    }
}

/// The side's Death Star, if an escort is to be sought for it: it is idle, does
/// not fall back, and stands alone.
pub open spec fn lone_death_star(
    world: GameWorld,
    movement: MovementState,
    side: bool,
    outgunned: bool,
) -> Option<FleetKey> {
    match death_star_of(world, side) {
        Some(ds) => {
            let at = world.fleets.at(ds).location;
            if !in_transit(movement.orders@, ds) && retreat_of(world, side, at, outgunned) is None
                && !escorted(world, side, ds, at) {
                Some(ds)
            } else {
                None
            }
        },
        None => None,
    }
}

/// Whether every distance that the search for an escort needs can be told: the
/// lone Death Star and the fleets that could join it stand at living systems.
/// Where no escort is sought nothing is asked.
pub open spec fn escort_charted(
    world: GameWorld,
    movement: MovementState,
    side: bool,
    outgunned: bool,
) -> bool {
    match lone_death_star(world, movement, side, outgunned) {
        Some(ds) => {
            let at = world.fleets.at(ds).location;
            &&& world.systems.has(at)
            &&& forall|i: int| #[trigger]
                could_escort(world, movement, side, ds, at, i) ==> world.systems.has(
                    (world.fleets@[i]->0).location,
                )
        },
        None => true,
    }
}

/// The first of a collected list stays the first.
proof fn lemma_collect_first<A>(m: nat, n: nat, f: spec_fn(int) -> Option<A>)
    requires
        m <= n,
        collect(m, f).len() > 0,
    ensures
        collect(n, f).len() > 0,
        collect(n, f)[0] == collect(m, f)[0],
    decreases n,
{
    if m < n {
        lemma_collect_first(m, (n - 1) as nat, f);
    }
}

impl AISystem {
    /// The side's first Death Star fleet.
    pub fn find_death_star(world: &GameWorld, faction: AiFaction) -> (found: Option<FleetKey>)
        ensures
            found == death_star_of(*world, faction.rebel()),
            found matches Some(key) ==> world.fleets.has(key) && world.fleets.at(key).is_alliance
                == faction.rebel(),
    {
        let side: bool = faction.is_alliance();
        let ghost f = death_star_fleet(*world, side);
        let count: usize = world.fleets.slot_count();
        for i in 0..count
            invariant
                count == world.fleets@.len(),
                f == death_star_fleet(*world, side),
                side == faction.rebel(),
                collect(i as nat, f).len() == 0,
        {
            if let Some(fleet) = world.fleets.slot(i) {
                if fleet.has_death_star && fleet.is_alliance == side {
                    let key: FleetKey = FleetKey { slot: i };
                    proof {
                        assert(f(i as int) == Some(key));
                        assert(collect((i + 1) as nat, f)[0] == key);
                        lemma_collect_first((i + 1) as nat, count as nat, f);
                    }
                    return Some(key);
                }
            }
        }
        None
    }

    /// The nearest friendly system that the Death Star can fall back to.
    fn find_haven(world: &GameWorld, side: bool, from: SystemKey, here: &System) -> (refuge: Option<
        SystemKey,
    >)
        requires
            world.systems.has(from),
            *here == world.systems.at(from),
        ensures
            refuge == first_min(collect(world.systems@.len(), haven(*world, side, from))),
    {
        let ghost f = haven(*world, side, from);
        let mut found: Vec<(SystemKey, i128)> = Vec::new();
        let count: usize = world.systems.slot_count();
        for i in 0..count
            invariant
                count == world.systems@.len(),
                *here == world.systems.at(from),
                f == haven(*world, side, from),
                found@ == collect(i as nat, f),
        {
            if let Some(sys) = world.systems.slot(i) {
                if i != from.slot && sys.control.is_controlled_by(side_faction(side))
                    && !sys.is_destroyed {
                    found.push((SystemKey { slot: i }, sys.distance_squared_to(here) as i128));
                }
            }
        }
        pick_first_min(&found)
    }

    /// Where the Death Star falls back to.
    fn find_retreat(world: &GameWorld, side: bool, at: SystemKey, outgunned: bool) -> (refuge: Option<
        SystemKey,
    >)
        ensures
            refuge == retreat_of(*world, side, at, outgunned),
    {
        if let Some(here) = world.systems.get(at) {
            if AISystem::system_strength(world, here, !side) > 0 && outgunned {
                return AISystem::find_haven(world, side, at, here);
            }
        }
        None
    }

    /// Checks whether some fleet stands with the Death Star.
    fn find_escort(world: &GameWorld, side: bool, ds: FleetKey, at: SystemKey) -> (found: bool)
        ensures
            found == escorted(*world, side, ds, at),
    {
        let count: usize = world.fleets.slot_count();
        for i in 0..count
            invariant
                count == world.fleets@.len(),
                forall|j: int| 0 <= j < i ==> !escorts(*world, side, ds, at, j),
        {
            if let Some(fleet) = world.fleets.slot(i) {
                if i != ds.slot && fleet.is_alliance == side && fleet.location == at
                    && !fleet.is_empty() {
                    assert(escorts(*world, side, ds, at, i as int));
                    return true;
                }
            }
        }
        assert(!escorted(*world, side, ds, at));
        false
    }

    /// Checks whether a fleet could escort the Death Star.
    fn may_escort(
        world: &GameWorld,
        movement: &MovementState,
        side: bool,
        ds: FleetKey,
        at: SystemKey,
        i: usize,
    ) -> (able: bool)
        ensures
            able == could_escort(*world, *movement, side, ds, at, i as int),
    {
        match world.fleets.slot(i) {
            Some(fleet) => i != ds.slot && fleet.is_alliance == side && !fleet.is_empty()
                && !movement.is_in_transit(FleetKey { slot: i }) && fleet.location != at,
            None => false,
        }
    }

    /// The side's Death Star, if an escort is to be sought for it.
    fn find_lone_death_star(
        world: &GameWorld,
        movement: &MovementState,
        faction: AiFaction,
        advice: &Advice,
    ) -> (lone: Option<FleetKey>)
        ensures
            lone == lone_death_star(
                *world,
                *movement,
                faction.rebel(),
                advice.death_star_outgunned,
            ),
            lone matches Some(ds) ==> world.fleets.has(ds),
    {
        let side: bool = faction.is_alliance();
        let ds: FleetKey = match AISystem::find_death_star(world, faction) {
            Some(ds) => ds,
            None => {
                return None;
            },
        };
        let at: SystemKey = world.fleets.at_key(ds).location;
        if movement.is_in_transit(ds) || AISystem::find_retreat(
            world,
            side,
            at,
            advice.death_star_outgunned,
        ).is_some() || AISystem::find_escort(world, side, ds, at) {
            return None;
        }
        Some(ds)
    }

    /// Checks whether every distance that the search for an escort needs can
    /// be told.
    pub fn can_route_escort(
        world: &GameWorld,
        movement: &MovementState,
        faction: AiFaction,
        advice: &Advice,
    ) -> (ready: bool)
        ensures
            ready == escort_charted(
                *world,
                *movement,
                faction.rebel(),
                advice.death_star_outgunned,
            ),
    {
        let side: bool = faction.is_alliance();
        let ds: FleetKey = match AISystem::find_lone_death_star(world, movement, faction, advice) {
            Some(ds) => ds,
            None => {
                return true;
            },
        };
        let at: SystemKey = world.fleets.at_key(ds).location;
        if !world.systems.contains_key(at) {
            return false;
        }
        let count: usize = world.fleets.slot_count();
        for i in 0..count
            invariant
                count == world.fleets@.len(),
                side == faction.rebel(),
                lone_death_star(*world, *movement, side, advice.death_star_outgunned) == Some(ds),
                at == world.fleets.at(ds).location,
                world.systems.has(at),
                forall|j: int|
                    0 <= j < i && #[trigger] could_escort(*world, *movement, side, ds, at, j)
                        ==> world.systems.has((world.fleets@[j]->0).location),
        {
            if AISystem::may_escort(world, movement, side, ds, at, i) {
                if let Some(fleet) = world.fleets.slot(i) {
                    if !world.systems.contains_key(fleet.location) {
                        assert(could_escort(*world, *movement, side, ds, at, i as int));
                        return false;
                    }
                }
            }
        }
        true
    }

    /// The nearest idle fleet that could join the Death Star.
    fn nearest_escort(
        world: &GameWorld,
        movement: &MovementState,
        side: bool,
        ds: FleetKey,
        at: SystemKey,
    ) -> (escort: Option<FleetKey>)
        requires
            world.systems.has(at),
            forall|i: int| #[trigger]
                could_escort(*world, *movement, side, ds, at, i) ==> world.systems.has(
                    (world.fleets@[i]->0).location,
                ),
        ensures
            escort == first_min(
                collect(world.fleets@.len(), spare_escort(*world, *movement, side, ds, at)),
            ),
    {
        let ghost f = spare_escort(*world, *movement, side, ds, at);
        let here: &System = world.systems.at_key(at);
        let mut spare: Vec<(FleetKey, i128)> = Vec::new();
        let count: usize = world.fleets.slot_count();
        for i in 0..count
            invariant
                count == world.fleets@.len(),
                *here == world.systems.at(at),
                f == spare_escort(*world, *movement, side, ds, at),
                spare@ == collect(i as nat, f),
                forall|i: int| #[trigger]
                    could_escort(*world, *movement, side, ds, at, i) ==> world.systems.has(
                        (world.fleets@[i]->0).location,
                    ),
        {
            if AISystem::may_escort(world, movement, side, ds, at, i) {
                if let Some(fleet) = world.fleets.slot(i) {
                    let there: &System = world.systems.at_key(fleet.location);
                    spare.push((FleetKey { slot: i }, there.distance_squared_to(here) as i128));
                }
            }
        }
        pick_first_min(&spare)
    }

    /// Pulls the Death Star out of a lost position, or sends the nearest idle
    /// fleet to a Death Star that stands alone.
    pub fn evaluate_ds_escort(
        world: &GameWorld,
        movement: &MovementState,
        faction: AiFaction,
        advice: &Advice,
        actions: &mut Vec<AIAction>,
    )
        requires
            escort_charted(*world, *movement, faction.rebel(), advice.death_star_outgunned),
        ensures
            orders(final(actions)@) == orders(old(actions)@) + death_star_order(
                *world,
                *movement,
                faction.rebel(),
                advice.death_star_outgunned,
            ),
    {
        let side: bool = faction.is_alliance();
        let ghost before = orders(actions@);
        assert(before + Seq::<Order>::empty() =~= before);
        let ds: FleetKey = match AISystem::find_death_star(world, faction) {
            Some(key) => key,
            None => {
                return;
            },
        };
        if movement.is_in_transit(ds) {
            return;
        }
        let at: SystemKey = world.fleets.at_key(ds).location;
        if let Some(refuge) = AISystem::find_retreat(
            world,
            side,
            at,
            advice.death_star_outgunned,
        ) {
            issue(actions, fleet_move(ds, refuge, FleetMoveReason::Reinforce));
            assert(before.push(move_order(ds, refuge, FleetMoveReason::Reinforce)) =~= before
                + seq![move_order(ds, refuge, FleetMoveReason::Reinforce)]);
            return;
        }
        if AISystem::find_escort(world, side, ds, at) {
            return;
        }
        if let Some(escort) = AISystem::nearest_escort(world, movement, side, ds, at) {
            issue(actions, fleet_move(escort, at, FleetMoveReason::Reinforce));
            assert(before.push(move_order(escort, at, FleetMoveReason::Reinforce)) =~= before
                + seq![move_order(escort, at, FleetMoveReason::Reinforce)]);
        }
    }
}

/// A squared distance larger than any between two systems.
pub const BEYOND_REACH: i128 = 0x4_0000_0000;

/// How good an enemy system is as a Death Star target: the stronger one is
/// better however far away it is, and of two as strong the nearer one.
pub open spec fn prize(world: GameWorld, side: bool, from: SystemKey, list: Seq<SystemKey>) -> spec_fn(
    int,
) -> Option<(SystemKey, i128)> {
    |i: int|
        if world.systems.has(list[i]) && !world.systems.at(list[i]).is_destroyed {
            let sys = world.systems.at(list[i]);
            let d = distance_squared(sys, world.systems.at(from));
            Some(
                (
                    list[i],
                    (strength_of(world, sys, !side) * BEYOND_REACH - d) as i128,
                ),
            )
        } else {
            None
        }
}

/// The Death Star's target: the enemy's headquarters while it stands, else the
/// most strongly held enemy system, the nearest of those.
pub open spec fn death_star_target(
    world: GameWorld,
    g: Galaxy,
    from: SystemKey,
    side: bool,
) -> Option<SystemKey> {
    if g.enemy_hq is Some && system_reachable(world, g.enemy_hq->0) {
        g.enemy_hq
    } else if !world.systems.has(from) {
        None
    } else {
        last_max(
            collect(g.enemy_controlled.len(), prize(world, side, from, g.enemy_controlled)),
        )
    }
}

impl AISystem {
    /// Selects the Death Star's target.
    pub fn select_ds_target(
        world: &GameWorld,
        galaxy: &GalaxyState,
        ds_location: SystemKey,
        is_alliance: bool,
    ) -> (target: Option<SystemKey>)
        ensures
            target == death_star_target(*world, galaxy@, ds_location, is_alliance),
    {
        if let Some(hq) = galaxy.enemy_hq {
            if let Some(sys) = world.systems.get(hq) {
                if !sys.is_destroyed {
                    return Some(hq);
                }
            }
        }
        let ds_sys: &System = match world.systems.get(ds_location) {
            Some(sys) => sys,
            None => {
                return None;
            },
        };
        let ghost f = prize(*world, is_alliance, ds_location, galaxy.enemy_controlled@);
        let mut prizes: Vec<(SystemKey, i128)> = Vec::new();
        for i in 0..galaxy.enemy_controlled.len()
            invariant
                *ds_sys == world.systems.at(ds_location),
                f == prize(*world, is_alliance, ds_location, galaxy.enemy_controlled@),
                prizes@ == collect(i as nat, f),
        {
            let key: SystemKey = galaxy.enemy_controlled[i];
            if let Some(sys) = world.systems.get(key) {
                if !sys.is_destroyed {
                    let strength: u32 = AISystem::system_strength(world, sys, !is_alliance);
                    let d: u64 = sys.distance_squared_to(ds_sys);
                    prizes.push((key, strength as i128 * BEYOND_REACH - d as i128));
                }
            }
        }
        pick_last_max(&prizes)
    }
}

} // verus!
