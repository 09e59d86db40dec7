//! How strong systems and fleets are, and how the galaxy divides.

use crate::ai::{AISystem, AiFaction};
use crate::arena::occupied;
use crate::dat::Faction;
use crate::ids::{FleetKey, SystemKey, TroopKey};
use crate::select::{collect, lemma_total_monotone, sort_by_rank, stable_sort, total};
use crate::world::{Fleet, GameWorld, ShipInstance, System};
use vstd::prelude::*;

verus! {

/// A total, capped at what a 32-bit field can hold.
pub open spec fn capped(x: int) -> int {
    if x > u32::MAX {
        u32::MAX as int
    } else {
        x
    }
}

/// Hull points of a list of ships: living ships only, wrecks count nothing.
pub open spec fn hull_points(ships: Seq<ShipInstance>) -> int {
    total(
        ships.len(),
        |i: int|
            if ships[i].alive && ships[i].hull_current > 0 {
                ships[i].hull_current as int
            } else {
                0
            },
    )
}

/// Hull points that one side's fleets hold over a system.
pub open spec fn orbit_hulls(world: GameWorld, sys: System, is_alliance: bool) -> int {
    total(sys.fleets@.len(), orbit_term(world, sys, is_alliance))
}

/// Hull points of the `i`th fleet over a system, if it is of the side.
pub open spec fn orbit_term(world: GameWorld, sys: System, is_alliance: bool) -> spec_fn(
    int,
) -> int {
    |i: int|
        {
            let key = sys.fleets@[i];
            if world.fleets.has(key) && world.fleets.at(key).is_alliance == is_alliance {
                hull_points(world.fleets.at(key).capital_ships@)
            } else {
                0
            }
        }
}

/// Regiment strength of the `i`th ground unit of a system, if it is of the side.
pub open spec fn ground_term(world: GameWorld, sys: System, is_alliance: bool) -> spec_fn(
    int,
) -> int {
    |i: int|
        {
            let key = sys.ground_units@[i];
            if world.troops.has(key) && world.troops.at(key).is_alliance == is_alliance {
                (world.troops.at(key).regiment_strength as u32) as int
            } else {
                0
            }
        }
}

/// One side's garrison strength: hull points in orbit, regiment strength on
/// the ground, and ten for every facility of the system.
pub open spec fn strength_of(world: GameWorld, sys: System, is_alliance: bool) -> int {
    capped(
        orbit_hulls(world, sys, is_alliance) + total(
            sys.ground_units@.len(),
            ground_term(world, sys, is_alliance),
        ) + 10 * (sys.defense_facilities@.len() + sys.manufacturing_facilities@.len()),
    )
}

/// The attack rating of the `i`th fighter entry times its squadrons.
pub open spec fn wing_term(world: GameWorld, fleet: Fleet) -> spec_fn(int) -> int {
    |i: int|
        {
            let entry = fleet.fighters@[i];
            let rating: int = if world.fighter_classes.has(entry.class)
                && world.fighter_classes.at(entry.class).overall_attack_strength > 1 {
                world.fighter_classes.at(entry.class).overall_attack_strength as int
            } else {
                1
            };
            rating * entry.count
        }
}

/// A fleet's strength: hull points and rated squadrons.
pub open spec fn fleet_strength_of(world: GameWorld, fleet: Fleet) -> int {
    capped(
        hull_points(fleet.capital_ships@) + total(fleet.fighters@.len(), wing_term(world, fleet)),
    )
}

/// Hull points are never negative.
proof fn lemma_hull_points(ships: Seq<ShipInstance>)
    ensures
        hull_points(ships) >= 0,
{
    let f = |i: int|
        if ships[i].alive && ships[i].hull_current > 0 {
            ships[i].hull_current as int
        } else {
            0
        };
    lemma_total_monotone(ships.len(), ships.len(), f);
}

/// Adds up hull points.
fn count_hulls(ships: &Vec<ShipInstance>) -> (points: u32)
    ensures
        points == capped(hull_points(ships@)),
{
    let ghost s = ships@;
    let ghost f = |i: int|
        if s[i].alive && s[i].hull_current > 0 {
            s[i].hull_current as int
        } else {
            0
        };
    let mut points: u32 = 0;
    for i in 0..ships.len()
        invariant
            s == ships@,
            f == (|i: int|
                if s[i].alive && s[i].hull_current > 0 {
                    s[i].hull_current as int
                } else {
                    0
                }),
            points == capped(total(i as nat, f)),
    {
        proof {
            lemma_total_monotone(i as nat, i as nat, f);
        }
        if ships[i].alive && ships[i].hull_current > 0 {
            points = points.saturating_add(ships[i].hull_current as u32);
        }
    }
    points
}

/// A garrison strength fits its word.
pub proof fn lemma_strength_fits(world: GameWorld, sys: System, is_alliance: bool)
    ensures
        0 <= strength_of(world, sys, is_alliance) <= u32::MAX,
{
    let orbit = orbit_term(world, sys, is_alliance);
    let ground = ground_term(world, sys, is_alliance);
    assert forall|i: int| #[trigger] orbit(i) >= 0 by {
        lemma_hull_points(world.fleets.at(sys.fleets@[i]).capital_ships@);
    }
    lemma_total_monotone(sys.fleets@.len(), sys.fleets@.len(), orbit);
    lemma_total_monotone(sys.ground_units@.len(), sys.ground_units@.len(), ground);
}

impl AISystem {
    /// One side's garrison strength at a system.
    pub fn system_strength(world: &GameWorld, sys: &System, is_alliance: bool) -> (strength: u32)
        ensures
            strength == strength_of(*world, *sys, is_alliance),
    {
        let ghost orbit = orbit_term(*world, *sys, is_alliance);
        let ghost ground = ground_term(*world, *sys, is_alliance);
        assert forall|i: int| #[trigger] orbit(i) >= 0 by {
            lemma_hull_points(world.fleets.at(sys.fleets@[i]).capital_ships@);
        }
        let mut ships: u32 = 0;
        for i in 0..sys.fleets.len()
            invariant
                orbit == orbit_term(*world, *sys, is_alliance),
                forall|i: int| #[trigger] orbit(i) >= 0,
                ships == capped(total(i as nat, orbit)),
        {
            proof {
                lemma_total_monotone(i as nat, i as nat, orbit);
            }
            let key: FleetKey = sys.fleets[i];
            if let Some(fleet) = world.fleets.get(key) {
                if fleet.is_alliance == is_alliance {
                    let hulls: u32 = count_hulls(&fleet.capital_ships);
                    assert(orbit(i as int) == hull_points(fleet.capital_ships@));
                    ships = ships.saturating_add(hulls);
                }
            }
        }
        let mut troops: u32 = 0;
        for i in 0..sys.ground_units.len()
            invariant
                ground == ground_term(*world, *sys, is_alliance),
                forall|i: int| #[trigger] ground(i) >= 0,
                troops == capped(total(i as nat, ground)),
        {
            proof {
                lemma_total_monotone(i as nat, i as nat, ground);
            }
            let key: TroopKey = sys.ground_units[i];
            if let Some(troop) = world.troops.get(key) {
                if troop.is_alliance == is_alliance {
                    troops = troops.saturating_add(troop.regiment_strength as u32);
                }
            }
        }
        proof {
            lemma_total_monotone(sys.fleets@.len(), sys.fleets@.len(), orbit);
            lemma_total_monotone(sys.ground_units@.len(), sys.ground_units@.len(), ground);
        }
        let facilities: u128 = (sys.defense_facilities.len() as u128
            + sys.manufacturing_facilities.len() as u128) * 10;
        let works: u32 = if facilities > u32::MAX as u128 {
            u32::MAX
        } else {
            facilities as u32
        };
        ships.saturating_add(troops).saturating_add(works)
    }

    /// A fleet's strength when targets are handed out.
    pub fn fleet_strength(world: &GameWorld, fleet: &Fleet) -> (strength: u32)
        ensures
            strength == fleet_strength_of(*world, *fleet),
    {
        let hulls: u32 = count_hulls(&fleet.capital_ships);
        let ghost wing = wing_term(*world, *fleet);
        assert forall|i: int| #[trigger] wing(i) >= 0 by {
            let entry = fleet.fighters@[i];
            let rating: int = if world.fighter_classes.has(entry.class)
                && world.fighter_classes.at(entry.class).overall_attack_strength > 1 {
                world.fighter_classes.at(entry.class).overall_attack_strength as int
            } else {
                1
            };
            assert(rating * entry.count >= 0) by (nonlinear_arith)
                requires
                    rating >= 0,
                    entry.count >= 0,
            ;
        }
        let mut wings: u32 = 0;
        for i in 0..fleet.fighters.len()
            invariant
                wing == wing_term(*world, *fleet),
                forall|i: int| #[trigger] wing(i) >= 0,
                wings == capped(total(i as nat, wing)),
        {
            proof {
                lemma_total_monotone(i as nat, i as nat, wing);
            }
            let entry = fleet.fighters[i];
            let rating: u32 = match world.fighter_classes.get(entry.class) {
                Some(class) => if class.overall_attack_strength > 1 {
                    class.overall_attack_strength
                } else {
                    1
                },
                None => 1,
            };
            assert(rating * entry.count <= 0xffff_ffff * 0xffff_ffff) by (nonlinear_arith)
                requires
                    0 <= rating <= 0xffff_ffff,
                    0 <= entry.count <= 0xffff_ffff,
            ;
            let power: u64 = rating as u64 * entry.count as u64;
            assert(wing(i as int) == power);
            let power: u32 = if power > u32::MAX as u64 {
                u32::MAX
            } else {
                power as u32
            };
            wings = wings.saturating_add(power);
        }
        proof {
            lemma_hull_points(fleet.capital_ships@);
            lemma_total_monotone(fleet.fighters@.len(), fleet.fighters@.len(), wing);
        }
        hulls.saturating_add(wings)
    }
}

/// How the galaxy divides, seen from one faction.
#[derive(Debug)]
pub struct GalaxyState {
    /// Systems we hold with no enemy fleet over them.
    pub our_controlled: Vec<SystemKey>,
    /// Those of them, headquarters aside, with no fleet of ours.
    pub our_undefended: Vec<SystemKey>,
    /// Our headquarters, unless an enemy fleet stands over it.
    pub our_hq: Option<SystemKey>,
    /// Systems the enemy holds, the weakest garrison first.
    pub enemy_controlled: Vec<SystemKey>,
    /// Systems with an enemy fleet, whoever holds them.
    pub enemy_fleet_systems: Vec<SystemKey>,
    /// The enemy's headquarters.
    pub enemy_hq: Option<SystemKey>,
    /// Systems we hold with an enemy fleet over them.
    pub contested: Vec<SystemKey>,
    /// Systems that neither side holds.
    pub unoccupied: Vec<SystemKey>,
}

/// Whether a side has a fleet over a system.
pub open spec fn side_present(world: GameWorld, sys: System, is_alliance: bool) -> bool {
    exists|i: int|
        0 <= i < sys.fleets@.len() && world.fleets.has(#[trigger] sys.fleets@[i])
            && world.fleets.at(sys.fleets@[i]).is_alliance == is_alliance
}

/// Checks whether a side has a fleet over a system.
pub(crate) fn has_side(world: &GameWorld, sys: &System, is_alliance: bool) -> (present: bool)
    ensures
        present == side_present(*world, *sys, is_alliance),
{
    for i in 0..sys.fleets.len()
        invariant
            forall|j: int|
                0 <= j < i ==> !(world.fleets.has(#[trigger] sys.fleets@[j]) && world.fleets.at(
                    sys.fleets@[j],
                ).is_alliance == is_alliance),
    {
        let key: FleetKey = sys.fleets[i];
        if let Some(fleet) = world.fleets.get(key) {
            if fleet.is_alliance == is_alliance {
                assert(sys.fleets@[i as int] == key);
                return true;
            }
        }
    }
    false
}

/// The faction of a side.
pub open spec fn faction_of(is_alliance: bool) -> Faction {
    if is_alliance {
        Faction::Alliance
    } else {
        Faction::Empire
    }
}

/// The faction of a side.
pub(crate) fn side_faction(is_alliance: bool) -> (faction: Faction)
    ensures
        faction == faction_of(is_alliance),
{
    if is_alliance {
        Faction::Alliance
    } else {
        Faction::Empire
    }
}

/// The living systems that satisfy a property, in order.
pub open spec fn systems_where(world: GameWorld, p: spec_fn(System) -> bool) -> Seq<SystemKey> {
    collect(world.systems@.len(), picked_system(world, p))
}

/// The key of slot `i`, if a system lives there and satisfies the property.
pub open spec fn picked_system(world: GameWorld, p: spec_fn(System) -> bool) -> spec_fn(
    int,
) -> Option<SystemKey> {
    |i: int|
        if occupied(world.systems@, i) && p(world.systems@[i]->0) {
            Some(SystemKey { slot: i as usize })
        } else {
            None
        }
}

/// A system we hold with no enemy fleet over it.
pub open spec fn ours_calm(world: GameWorld, side: bool) -> spec_fn(System) -> bool {
    |s: System| s.control.held_by(faction_of(side)) && !side_present(world, s, !side)
}

/// A system we hold that no fleet watches; headquarters do not count.
pub open spec fn ours_bare(world: GameWorld, side: bool) -> spec_fn(System) -> bool {
    |s: System|
        s.control.held_by(faction_of(side)) && !side_present(world, s, !side)
            && !s.is_headquarters && !side_present(world, s, side)
}

/// Our headquarters with no enemy fleet over it.
pub open spec fn ours_seat(world: GameWorld, side: bool) -> spec_fn(System) -> bool {
    |s: System|
        s.control.held_by(faction_of(side)) && !side_present(world, s, !side) && s.is_headquarters
}

/// A system we hold with an enemy fleet over it.
pub open spec fn ours_contested(world: GameWorld, side: bool) -> spec_fn(System) -> bool {
    |s: System| s.control.held_by(faction_of(side)) && side_present(world, s, !side)
}

/// A system the enemy holds.
pub open spec fn theirs(side: bool) -> spec_fn(System) -> bool {
    |s: System| s.control.held_by(faction_of(!side))
}

/// The enemy's headquarters.
pub open spec fn their_seat(side: bool) -> spec_fn(System) -> bool {
    |s: System| s.control.held_by(faction_of(!side)) && s.is_headquarters
}

/// A surviving system with an enemy fleet over it.
pub open spec fn enemy_orbit(world: GameWorld, side: bool) -> spec_fn(System) -> bool {
    |s: System| side_present(world, s, !side) && !s.is_destroyed
}

/// A system that neither side holds.
pub open spec fn unheld(side: bool) -> spec_fn(System) -> bool {
    |s: System| !s.control.held_by(faction_of(side)) && !s.control.held_by(faction_of(!side))
}

/// The last of a list.
pub open spec fn last_of(list: Seq<SystemKey>) -> Option<SystemKey> {
    if list.len() == 0 {
        None
    } else {
        Some(list.last())
    }
}

/// Each system with the enemy's garrison strength there.
pub open spec fn by_garrison(world: GameWorld, side: bool, list: Seq<SystemKey>) -> Seq<
    (SystemKey, i128),
> {
    Seq::new(
        list.len(),
        |i: int|
            (
                list[i],
                (if world.systems.has(list[i]) {
                    strength_of(world, world.systems.at(list[i]), !side)
                } else {
                    u32::MAX as int
                }) as i128,
            ),
    )
}

/// The items of a ranked list.
pub open spec fn items<A>(ranked: Seq<(A, i128)>) -> Seq<A> {
    Seq::new(ranked.len(), |i: int| ranked[i].0)
}

/// What a [`GalaxyState`] says.
pub struct Galaxy {
    pub our_controlled: Seq<SystemKey>,
    pub our_undefended: Seq<SystemKey>,
    pub our_hq: Option<SystemKey>,
    pub enemy_controlled: Seq<SystemKey>,
    pub enemy_fleet_systems: Seq<SystemKey>,
    pub enemy_hq: Option<SystemKey>,
    pub contested: Seq<SystemKey>,
    pub unoccupied: Seq<SystemKey>,
}

impl View for GalaxyState {
    type V = Galaxy;

    open spec fn view(&self) -> Galaxy {
        Galaxy {
            our_controlled: self.our_controlled@,
            our_undefended: self.our_undefended@,
            our_hq: self.our_hq,
            enemy_controlled: self.enemy_controlled@,
            enemy_fleet_systems: self.enemy_fleet_systems@,
            enemy_hq: self.enemy_hq,
            contested: self.contested@,
            unoccupied: self.unoccupied@,
        }
    }
}

/// How the galaxy divides, seen from one side.
pub open spec fn galaxy_of(world: GameWorld, side: bool) -> Galaxy {
    Galaxy {
        our_controlled: systems_where(world, ours_calm(world, side)),
        our_undefended: systems_where(world, ours_bare(world, side)),
        our_hq: last_of(systems_where(world, ours_seat(world, side))),
        enemy_controlled: items(
            stable_sort(by_garrison(world, side, systems_where(world, theirs(side)))),
        ),
        enemy_fleet_systems: systems_where(world, enemy_orbit(world, side)),
        enemy_hq: last_of(systems_where(world, their_seat(side))),
        contested: systems_where(world, ours_contested(world, side)),
        unoccupied: systems_where(world, unheld(side)),
    }
}

/// Sorts systems by the enemy's garrison strength, the weakest first.
fn sort_by_garrison(world: &GameWorld, side: bool, list: &Vec<SystemKey>) -> (sorted: Vec<
    SystemKey,
>)
    ensures
        sorted@ == items(stable_sort(by_garrison(*world, side, list@))),
{
    let mut entries: Vec<(SystemKey, i128)> = Vec::new();
    let ghost whole = by_garrison(*world, side, list@);
    for i in 0..list.len()
        invariant
            whole == by_garrison(*world, side, list@),
            entries@ == whole.take(i as int),
    {
        let strength: u32 = match world.systems.get(list[i]) {
            Some(sys) => AISystem::system_strength(world, sys, !side),
            None => u32::MAX,
        };
        entries.push((list[i], strength as i128));
        assert(entries@ =~= whole.take(i + 1));
    }
    assert(entries@ =~= whole);
    let ranked: Vec<(SystemKey, i128)> = sort_by_rank(&entries);
    let mut sorted: Vec<SystemKey> = Vec::new();
    for i in 0..ranked.len()
        invariant
            sorted@ == items(ranked@).take(i as int),
    {
        sorted.push(ranked[i].0);
        assert(sorted@ =~= items(ranked@).take(i + 1));
    }
    assert(sorted@ =~= items(ranked@));
    sorted
}

impl AISystem {
    /// Divides the galaxy, seen from one faction.
    pub fn evaluate_galaxy_state(world: &GameWorld, faction: AiFaction) -> (g: GalaxyState)
        ensures
            g@ == galaxy_of(*world, faction.rebel()),
    {
        let side: bool = faction.is_alliance();
        let mut g: GalaxyState = GalaxyState {
            our_controlled: Vec::new(),
            our_undefended: Vec::new(),
            our_hq: None,
            enemy_controlled: Vec::new(),
            enemy_fleet_systems: Vec::new(),
            enemy_hq: None,
            contested: Vec::new(),
            unoccupied: Vec::new(),
        };
        let count: usize = world.systems.slot_count();
        for i in 0..count
            invariant
                count == world.systems@.len(),
                g.our_controlled@ == collect(
                    i as nat,
                    picked_system(*world, ours_calm(*world, side)),
                ),
                g.our_undefended@ == collect(
                    i as nat,
                    picked_system(*world, ours_bare(*world, side)),
                ),
                g.our_hq == last_of(
                    collect(i as nat, picked_system(*world, ours_seat(*world, side))),
                ),
                g.enemy_controlled@ == collect(i as nat, picked_system(*world, theirs(side))),
                g.enemy_fleet_systems@ == collect(
                    i as nat,
                    picked_system(*world, enemy_orbit(*world, side)),
                ),
                g.enemy_hq == last_of(collect(i as nat, picked_system(*world, their_seat(side)))),
                g.contested@ == collect(
                    i as nat,
                    picked_system(*world, ours_contested(*world, side)),
                ),
                g.unoccupied@ == collect(i as nat, picked_system(*world, unheld(side))),
        {
            if let Some(sys) = world.systems.slot(i) {
                let key: SystemKey = SystemKey { slot: i };
                let has_our_fleet: bool = has_side(world, sys, side);
                let has_enemy_fleet: bool = has_side(world, sys, !side);
                if has_enemy_fleet && !sys.is_destroyed {
                    g.enemy_fleet_systems.push(key);
                }
                if sys.control.is_controlled_by(side_faction(side)) {
                    if has_enemy_fleet {
                        g.contested.push(key);
                    } else if sys.is_headquarters {
                        g.our_hq = Some(key);
                        g.our_controlled.push(key);
                    } else {
                        g.our_controlled.push(key);
                        if !has_our_fleet {
                            g.our_undefended.push(key);
                        }
                    }
                } else if sys.control.is_controlled_by(side_faction(!side)) {
                    if sys.is_headquarters {
                        g.enemy_hq = Some(key);
                    }
                    g.enemy_controlled.push(key);
                } else {
                    g.unoccupied.push(key);
                }
            }
        }
        let sorted: Vec<SystemKey> = sort_by_garrison(world, side, &g.enemy_controlled);
        g.enemy_controlled = sorted;
        g
    }
}

} // verus!
