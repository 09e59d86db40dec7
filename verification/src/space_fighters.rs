//! The fighter engagement of a space battle.

use crate::combat::CombatSystem;
use crate::ids::{CapitalShipKey, FleetKey};
use crate::select::{collect, lemma_total_bounded, lemma_total_monotone, total};
use crate::space::{
    all_wf, any_left, classes, classes_known, hull_left, list_classes, paired, some_left, ShipSnap,
};
use crate::world::{CapitalShipClass, FighterClass, Fleet, GameWorld};
use vstd::prelude::*;

verus! {

// ---- Counting squadrons ----------------------------------------------------

/// Squadrons in the first `n` groups.
pub open spec fn squads(groups: Seq<u32>, n: int) -> int {
    total(n as nat, squad(groups))
}

/// Squadrons of the `i`th group.
pub open spec fn squad(groups: Seq<u32>) -> spec_fn(int) -> int {
    |i: int| groups[i] as int
}

/// The smaller of two counts.
pub open spec fn lesser(a: int, b: int) -> int {
    if a < b {
        a
    } else {
        b
    }
}

/// What is left of `room` after `used`, never below zero.
pub open spec fn spare(room: int, used: int) -> int {
    if room > used {
        room - used
    } else {
        0
    }
}

/// A sum of squadrons grows with its length and fits wide arithmetic.
proof fn lemma_squads(groups: Seq<u32>, m: int, n: int)
    requires
        0 <= m <= n <= groups.len(),
        groups.len() <= usize::MAX,
    ensures
        0 <= squads(groups, m) <= squads(groups, n) <= 0xffff_ffff_ffff_ffff * 0xffff_ffff,
{
    let f = squad(groups);
    lemma_total_monotone(m as nat, n as nat, f);
    lemma_total_bounded(n as nat, f, 0xffff_ffff);
    assert(n * 0xffff_ffff <= 0xffff_ffff_ffff_ffff * 0xffff_ffff) by (nonlinear_arith)
        requires
            0 <= n <= 0xffff_ffff_ffff_ffff,
    ;
}

// ---- Launch and recall -----------------------------------------------------

/// Fighter room of the `k`th hull, if it is alive and of a known class.
pub open spec fn hangar(world: GameWorld, list: Seq<CapitalShipKey>, ships: Seq<ShipSnap>) -> spec_fn(
    int,
) -> int {
    |k: int|
        if ships[k].alive && world.capital_ship_classes.has(list[k]) {
            world.capital_ship_classes.at(list[k]).fighter_capacity as int
        } else {
            0
        }
}

/// How many squadrons a fleet can fly: all of them for a wing based in the
/// system, else what its living carriers hold.
pub open spec fn carrier_capacity(
    world: GameWorld,
    fleet: Fleet,
    ships: Seq<ShipSnap>,
    system_based: bool,
) -> int {
    if system_based {
        total(fleet.fighters@.len(), |i: int| fleet.fighters@[i].count as int)
    } else {
        total(paired(classes(fleet), ships), hangar(world, classes(fleet), ships))
    }
}

/// Squadrons that take off: the groups in order, as long as there is room.
pub open spec fn launched(groups: Seq<u32>, capacity: int) -> Seq<u32> {
    Seq::new(
        groups.len(),
        |i: int| lesser(groups[i] as int, spare(capacity, squads(groups, i))) as u32,
    )
}

/// The `i`th entry of a list, or zero beyond its end.
pub open spec fn entry(list: Seq<u32>, i: int) -> u32 {
    if 0 <= i < list.len() {
        list[i]
    } else {
        0
    }
}

/// Survivors of the `i`th group, if any of it took off.
pub open spec fn returning(survivors: Seq<u32>, flown: Seq<u32>) -> spec_fn(int) -> int {
    |i: int|
        if entry(flown, i) != 0 {
            entry(survivors, i) as int
        } else {
            0
        }
}

/// The roster after recall: groups that stayed behind are untouched, the
/// others keep the survivors that still find room, in order.
pub open spec fn recalled(
    groups: Seq<u32>,
    survivors: Seq<u32>,
    flown: Seq<u32>,
    capacity: int,
) -> Seq<u32> {
    Seq::new(
        groups.len(),
        |i: int|
            if entry(flown, i) == 0 {
                groups[i]
            } else {
                lesser(
                    entry(survivors, i) as int,
                    spare(capacity, total(i as nat, returning(survivors, flown))),
                ) as u32
            },
    )
}

/// Squadrons behind the `i`th group.
pub open spec fn squads_behind(groups: Seq<u32>, i: int) -> int {
    squads(groups, groups.len() as int) - squads(groups, i + 1)
}

/// The groups after `losses` squadrons fall, the last groups first.
pub open spec fn after_losses(groups: Seq<u32>, losses: int) -> Seq<u32> {
    Seq::new(
        groups.len(),
        |i: int|
            (groups[i] - lesser(groups[i] as int, spare(losses, squads_behind(groups, i)))) as u32,
    )
}

impl CombatSystem {
    /// How many squadrons a fleet can fly.
    pub fn compute_carrier_capacity(
        world: &GameWorld,
        fleet_key: FleetKey,
        ship_snaps: &Vec<ShipSnap>,
        system_based_fighters: bool,
    ) -> (capacity: u128)
        requires
            world.fleets.has(fleet_key),
            classes_known(*world, world.fleets.at(fleet_key)),
        ensures
            capacity == carrier_capacity(
                *world,
                world.fleets.at(fleet_key),
                ship_snaps@,
                system_based_fighters,
            ),
    {
        let fleet: &Fleet = world.fleets.at_key(fleet_key);
        let mut capacity: u128 = 0;
        if system_based_fighters {
            let ghost entries = fleet.fighters@;
            let ghost f = |i: int| fleet.fighters@[i].count as int;
            for i in 0..fleet.fighters.len()
                invariant
                    f == (|i: int| fleet.fighters@[i].count as int),
                    forall|i: int| 0 <= #[trigger] f(i) <= 0xffff_ffff,
                    capacity == total(i as nat, f),
            {
                proof {
                    lemma_sum_fits(i as nat, f);
                    assert(f(i as int) == fleet.fighters@[i as int].count);
                }
                capacity = capacity + fleet.fighters[i].count as u128;
            }
            return capacity;
        }
        let list: Vec<CapitalShipKey> = list_classes(world, fleet);
        let ghost f = hangar(*world, list@, ship_snaps@);
        let pairs: usize = if list.len() < ship_snaps.len() {
            list.len()
        } else {
            ship_snaps.len()
        };
        for k in 0..pairs
            invariant
                pairs <= list@.len(),
                pairs <= ship_snaps@.len(),
                f == hangar(*world, list@, ship_snaps@),
                forall|i: int| 0 <= #[trigger] f(i) <= 0xffff_ffff,
                capacity == total(k as nat, f),
        {
            proof {
                lemma_sum_fits(k as nat, f);
            }
            if ship_snaps[k].alive {
                if let Some(class) = world.capital_ship_classes.get(list[k]) {
                    capacity = capacity + class.fighter_capacity as u128;
                }
            }
        }
        capacity
    }

    /// Launches squadrons as far as the carriers have room.
    pub fn launch_fighters(fleet_fighters: &Vec<u32>, carrier_capacity: u128) -> (flown: Vec<u32>)
        ensures
            flown@ == launched(fleet_fighters@, carrier_capacity as int),
    {
        let ghost whole = launched(fleet_fighters@, carrier_capacity as int);
        let mut room: u128 = carrier_capacity;
        let mut flown: Vec<u32> = Vec::new();
        for i in 0..fleet_fighters.len()
            invariant
                whole == launched(fleet_fighters@, carrier_capacity as int),
                room == spare(carrier_capacity as int, squads(fleet_fighters@, i as int)),
                flown@ == whole.take(i as int),
        {
            proof {
                assert(fleet_fighters.len() == fleet_fighters@.len());
                lemma_squads(fleet_fighters@, i as int, i + 1);
            }
            let count: u32 = fleet_fighters[i];
            let deploy: u32 = if (count as u128) < room {
                count
            } else {
                room as u32
            };
            flown.push(deploy);
            room = room - deploy as u128;
            assert(flown@ =~= whole.take(i + 1));
        }
        assert(flown@ =~= whole);
        flown
    }

    /// Brings surviving squadrons back as far as the carriers still have room.
    pub fn recall_fighters(
        fleet_fighters: &mut Vec<u32>,
        launched_survivors: &Vec<u32>,
        originally_launched: &Vec<u32>,
        carrier_capacity: u128,
    )
        ensures
            final(fleet_fighters)@ == recalled(
                old(fleet_fighters)@,
                launched_survivors@,
                originally_launched@,
                carrier_capacity as int,
            ),
    {
        let ghost before = fleet_fighters@;
        let ghost f = returning(launched_survivors@, originally_launched@);
        let ghost after = recalled(
            before,
            launched_survivors@,
            originally_launched@,
            carrier_capacity as int,
        );
        let mut room: u128 = carrier_capacity;
        let count: usize = fleet_fighters.len();
        for i in 0..count
            invariant
                count == before.len(),
                fleet_fighters@.len() == before.len(),
                f == returning(launched_survivors@, originally_launched@),
                forall|i: int| 0 <= #[trigger] f(i) <= 0xffff_ffff,
                after == recalled(
                    before,
                    launched_survivors@,
                    originally_launched@,
                    carrier_capacity as int,
                ),
                room == spare(carrier_capacity as int, total(i as nat, f)),
                forall|j: int| 0 <= j < i ==> #[trigger] fleet_fighters@[j] == after[j],
                forall|j: int| i <= j < before.len() ==> #[trigger] fleet_fighters@[j] == before[j],
        {
            proof {
                lemma_sum_fits(i as nat, f);
            }
            let flown: u32 = if i < originally_launched.len() {
                originally_launched[i]
            } else {
                0
            };
            if flown != 0 {
                let survived: u32 = if i < launched_survivors.len() {
                    launched_survivors[i]
                } else {
                    0
                };
                assert(f(i as int) == survived);
                let back: u32 = if (survived as u128) < room {
                    survived
                } else {
                    room as u32
                };
                room = room - back as u128;
                fleet_fighters[i] = back;
            }
        }
        assert(fleet_fighters@ =~= after);
    }

    /// Takes losses off the last groups first.
    pub fn apply_fighter_losses(squadrons: &mut Vec<u32>, losses: u128)
        ensures
            final(squadrons)@ == after_losses(old(squadrons)@, losses as int),
    {
        let ghost before = squadrons@;
        let ghost after = after_losses(before, losses as int);
        let mut left: u128 = losses;
        let count: usize = squadrons.len();
        let mut i: usize = count;
        while i > 0
            invariant
                i <= count,
                count == before.len(),
                squadrons@.len() == before.len(),
                after == after_losses(before, losses as int),
                left == spare(
                    losses as int,
                    squads(before, before.len() as int) - squads(before, i as int),
                ),
                forall|j: int| 0 <= j < i ==> #[trigger] squadrons@[j] == before[j],
                forall|j: int| i <= j < before.len() ==> #[trigger] squadrons@[j] == after[j],
            decreases i,
        {
            i = i - 1;
            proof {
                lemma_squads(before, i as int, i + 1);
                lemma_squads(before, i + 1, before.len() as int);
            }
            let have: u32 = squadrons[i];
            let take: u32 = if (have as u128) < left {
                have
            } else {
                left as u32
            };
            squadrons[i] = have - take;
            left = left - take as u128;
        }
        assert(squadrons@ =~= after);
    }
}

/// A sum of 32-bit terms fits wide arithmetic.
proof fn lemma_sum_fits(n: nat, f: spec_fn(int) -> int)
    requires
        n < usize::MAX,
        forall|i: int| 0 <= #[trigger] f(i) <= 0xffff_ffff,
    ensures
        0 <= total(n, f) <= 0xffff_ffff_ffff_ffff * 0xffff_ffff,
        0 <= total(n + 1, f) <= 0xffff_ffff_ffff_ffff * 0xffff_ffff,
{
    lemma_total_monotone(n, n + 1, f);
    lemma_total_bounded(n, f, 0xffff_ffff);
    lemma_total_bounded(n + 1, f, 0xffff_ffff);
    assert(n * 0xffff_ffff <= 0xffff_ffff_ffff_ffff * 0xffff_ffff) by (nonlinear_arith)
        requires
            0 <= n <= 0xffff_ffff_ffff_ffff,
    ;
    let m = n + 1;
    assert(m * 0xffff_ffff <= 0xffff_ffff_ffff_ffff * 0xffff_ffff) by (nonlinear_arith)
        requires
            0 <= m <= 0xffff_ffff_ffff_ffff,
    ;
}

// ---- Fighters against ships ------------------------------------------------

/// The attack rating of a fighter class: the overall rating, or the sum of the
/// weapons where there is none.
pub open spec fn sting(class: FighterClass) -> int {
    if class.overall_attack_strength > 0 {
        class.overall_attack_strength as int
    } else {
        class.turbolaser_attack_strength + class.ion_cannon_attack_strength
            + class.laser_cannon_attack_strength
    }
}

/// A hull after an attack run: shields first, then the hull. A Death Star's
/// hull takes nothing while its shield generator runs.
pub open spec fn raided(s: ShipSnap, power: int, generator_runs: bool) -> ShipSnap {
    let pool: int = if s.shield_current > 0 {
        s.shield_current as int
    } else {
        0
    };
    let taken = lesser(power, pool);
    let left = hull_left(s.hull_current as int, power - taken);
    if power == taken || (s.is_death_star && generator_runs) {
        ShipSnap { shield_current: (s.shield_current - taken) as i32, ..s }
    } else {
        ShipSnap {
            shield_current: (s.shield_current - taken) as i32,
            hull_current: left as i32,
            alive: s.alive && left != 0,
            ..s
        }
    }
}

/// Position `i`, if the hull there is alive.
pub open spec fn target_at(ships: Seq<ShipSnap>) -> spec_fn(int) -> Option<usize> {
    |i: int|
        if ships[i].alive {
            Some(i as usize)
        } else {
            None
        }
}

/// The positions of the living hulls.
pub open spec fn targets_of(ships: Seq<ShipSnap>) -> Seq<usize> {
    collect(ships.len(), target_at(ships))
}

/// The attack power of the `q`th group.
pub open spec fn run_power(world: GameWorld, fleet: Fleet, groups: Seq<u32>, q: int) -> int {
    if q < fleet.fighters@.len() {
        sting(world.fighter_classes.at(fleet.fighters@[q].class)) * groups[q]
    } else {
        0
    }
}

/// The target that the `used`th pick falls on; the middle one where there is
/// no pick.
pub open spec fn picked(targets: Seq<usize>, picks: Seq<usize>, used: nat) -> int {
    let wish: int = if used < picks.len() {
        picks[used as int] as int
    } else {
        targets.len() as int / 2
    };
    targets[lesser(wish, targets.len() - 1)] as int
}

/// The hulls after the first `n` groups have attacked, and how many picks were used.
pub open spec fn raid(
    world: GameWorld,
    fleet: Fleet,
    groups: Seq<u32>,
    ships: Seq<ShipSnap>,
    picks: Seq<usize>,
    generator_runs: bool,
    n: nat,
) -> (Seq<ShipSnap>, nat)
    decreases n,
{
    if n == 0 {
        (ships, 0)
    } else {
        let (hit, used) = raid(
            world,
            fleet,
            groups,
            ships,
            picks,
            generator_runs,
            (n - 1) as nat,
        );
        let power = run_power(world, fleet, groups, n - 1);
        if power == 0 {
            (hit, used)
        } else {
            let at = picked(targets_of(ships), picks, used);
            (hit.update(at, raided(hit[at], power, generator_runs)), used + 1)
        }
    }
}

/// The hulls after all groups have attacked; nothing happens if none is alive.
pub open spec fn raided_by(
    world: GameWorld,
    fleet: Fleet,
    groups: Seq<u32>,
    ships: Seq<ShipSnap>,
    picks: Seq<usize>,
    generator_runs: bool,
) -> Seq<ShipSnap> {
    if targets_of(ships).len() == 0 {
        ships
    } else {
        raid(world, fleet, groups, ships, picks, generator_runs, groups.len()).0
    }
}

/// Lists the positions of the living hulls.
fn list_targets(ships: &Vec<ShipSnap>) -> (targets: Vec<usize>)
    ensures
        targets@ == targets_of(ships@),
        forall|k: int| 0 <= k < targets@.len() ==> (#[trigger] targets@[k]) < ships@.len(),
{
    let ghost f = target_at(ships@);
    let mut targets: Vec<usize> = Vec::new();
    for i in 0..ships.len()
        invariant
            f == target_at(ships@),
            targets@ == collect(i as nat, f),
            forall|k: int| 0 <= k < targets@.len() ==> (#[trigger] targets@[k]) < ships@.len(),
    {
        if ships[i].alive {
            targets.push(i);
        }
    }
    targets
}

/// One attack run on a hull.
fn strike(s: ShipSnap, power: u128, generator_runs: bool) -> (after: ShipSnap)
    ensures
        after == raided(s, power as int, generator_runs),
{
    let pool: u128 = if s.shield_current > 0 {
        s.shield_current as u128
    } else {
        0
    };
    let taken: u128 = if power < pool {
        power
    } else {
        pool
    };
    let shield: i32 = (s.shield_current as i64 - taken as i64) as i32;
    if power == taken || (s.is_death_star && generator_runs) {
        return ShipSnap { shield_current: shield, ..s };
    }
    let blow: u128 = power - taken;
    let left: i32 = if s.hull_current > 0 && (s.hull_current as u128) > blow {
        (s.hull_current as i64 - blow as i64) as i32
    } else {
        0
    };
    ShipSnap { shield_current: shield, hull_current: left, alive: s.alive && left != 0, ..s }
}

/// The attack power of one group.
fn group_power(world: &GameWorld, fleet: &Fleet, groups: &Vec<u32>, q: usize) -> (power: u128)
    requires
        classes_known(*world, *fleet),
        q < groups@.len(),
    ensures
        power == run_power(*world, *fleet, groups@, q as int),
{
    if q >= fleet.fighters.len() {
        return 0;
    }
    let class: &FighterClass = world.fighter_classes.at_key(fleet.fighters[q].class);
    let rating: u64 = if class.overall_attack_strength > 0 {
        class.overall_attack_strength as u64
    } else {
        class.turbolaser_attack_strength as u64 + class.ion_cannon_attack_strength as u64
            + class.laser_cannon_attack_strength as u64
    };
    let count: u32 = groups[q];
    assert(0 <= rating * count <= 0x3_0000_0000 * 0x1_0000_0000) by (nonlinear_arith)
        requires
            0 <= rating <= 0x3_0000_0000,
            0 <= count <= 0xffff_ffff,
    ;
    rating as u128 * count as u128
}

impl CombatSystem {
    /// Launched fighters attack the enemy's ships, one target for each group.
    /// They wear a Death Star's shields, but not its hull while the shield
    /// generator runs.
    pub fn fighters_attack_ships(
        squadrons: &Vec<u32>,
        fleet: &Fleet,
        enemy_ships: &mut Vec<ShipSnap>,
        world: &GameWorld,
        picks: &Vec<usize>,
        death_star_shield_active: bool,
    )
        requires
            classes_known(*world, *fleet),
            all_wf(old(enemy_ships)@),
        ensures
            final(enemy_ships)@ == raided_by(
                *world,
                *fleet,
                squadrons@,
                old(enemy_ships)@,
                picks@,
                death_star_shield_active,
            ),
            final(enemy_ships)@.len() == old(enemy_ships)@.len(),
            all_wf(final(enemy_ships)@),
    {
        let ghost before = enemy_ships@;
        let targets: Vec<usize> = list_targets(enemy_ships);
        if targets.len() == 0 {
            return;
        }
        let mut used: usize = 0;
        for q in 0..squadrons.len()
            invariant
                classes_known(*world, *fleet),
                targets@ == targets_of(before),
                targets@.len() > 0,
                forall|k: int| 0 <= k < targets@.len() ==> (#[trigger] targets@[k]) < before.len(),
                enemy_ships@.len() == before.len(),
                all_wf(enemy_ships@),
                used <= q,
                (enemy_ships@, used as nat) == raid(
                    *world,
                    *fleet,
                    squadrons@,
                    before,
                    picks@,
                    death_star_shield_active,
                    q as nat,
                ),
        {
            let power: u128 = group_power(world, fleet, squadrons, q);
            if power != 0 {
                let wish: usize = if used < picks.len() {
                    picks[used]
                } else {
                    targets.len() / 2
                };
                let last: usize = targets.len() - 1;
                let at: usize = targets[if wish < last {
                    wish
                } else {
                    last
                }];
                let snap: ShipSnap = enemy_ships[at];
                assert(snap.wf());
                enemy_ships[at] = strike(snap, power, death_star_shield_active);
                used = used + 1;
            }
        }
    }

    /// How many groups will pick a target.
    pub fn attack_runs(world: &GameWorld, fleet: &Fleet, squadrons: &Vec<u32>) -> (runs: usize)
        requires
            classes_known(*world, *fleet),
        ensures
            runs == crate::select::tally(
                squadrons@.len(),
                |q: int| run_power(*world, *fleet, squadrons@, q) != 0,
            ),
    {
        let ghost f = |q: int| run_power(*world, *fleet, squadrons@, q) != 0;
        let mut runs: usize = 0;
        for q in 0..squadrons.len()
            invariant
                classes_known(*world, *fleet),
                f == (|q: int| run_power(*world, *fleet, squadrons@, q) != 0),
                runs <= q,
                runs == crate::select::tally(q as nat, f),
        {
            if group_power(world, fleet, squadrons, q) != 0 {
                runs = runs + 1;
            }
        }
        runs
    }
}

// ---- Ships against fighters ------------------------------------------------

/// Laser cannon power of the `k`th hull, if it is alive: its rating, or its
/// guns where there is no rating.
pub open spec fn screen_term(
    world: GameWorld,
    list: Seq<CapitalShipKey>,
    ships: Seq<ShipSnap>,
) -> spec_fn(int) -> int {
    |k: int|
        if ships[k].alive {
            let class = world.capital_ship_classes.at(list[k]);
            if class.laser_cannon_attack_strength > 0 {
                class.laser_cannon_attack_strength as int
            } else {
                class.laser_cannon_fore + class.laser_cannon_aft + class.laser_cannon_port
                    + class.laser_cannon_starboard
            }
        } else {
            0
        }
}

/// A fleet's laser cannon power against fighters.
pub open spec fn screen_of(world: GameWorld, fleet: Fleet, ships: Seq<ShipSnap>) -> int {
    total(paired(classes(fleet), ships), screen_term(world, classes(fleet), ships))
}

/// The fighters left by the screen: one squadron falls for every hundred
/// points, and one more if the roll catches the remainder.
pub open spec fn screened(groups: Seq<u32>, power: int, extra: bool) -> Seq<u32> {
    if !some_left(groups) || power == 0 {
        groups
    } else {
        after_losses(
            groups,
            power / 100 + if extra {
                1int
            } else {
                0
            },
        )
    }
}

/// A sum of moderate terms fits wide arithmetic.
proof fn lemma_screen_fits(n: nat, f: spec_fn(int) -> int)
    requires
        n < usize::MAX,
        forall|i: int| 0 <= #[trigger] f(i) <= 0x4_0000_0000,
    ensures
        0 <= total(n, f) <= 0xffff_ffff_ffff_ffff * 0x4_0000_0000,
        0 <= total(n + 1, f) <= 0xffff_ffff_ffff_ffff * 0x4_0000_0000,
{
    lemma_total_monotone(n, n + 1, f);
    lemma_total_bounded(n, f, 0x4_0000_0000);
    lemma_total_bounded(n + 1, f, 0x4_0000_0000);
    assert(n * 0x4_0000_0000 <= 0xffff_ffff_ffff_ffff * 0x4_0000_0000) by (nonlinear_arith)
        requires
            0 <= n <= 0xffff_ffff_ffff_ffff,
    ;
    let m = n + 1;
    assert(m * 0x4_0000_0000 <= 0xffff_ffff_ffff_ffff * 0x4_0000_0000) by (nonlinear_arith)
        requires
            0 <= m <= 0xffff_ffff_ffff_ffff,
    ;
}

impl CombatSystem {
    /// A fleet's laser cannon power against fighters.
    pub fn screen_power(world: &GameWorld, fleet_key: FleetKey, ship_snaps: &Vec<ShipSnap>) -> (power:
        u128)
        requires
            world.fleets.has(fleet_key),
            classes_known(*world, world.fleets.at(fleet_key)),
        ensures
            power == screen_of(*world, world.fleets.at(fleet_key), ship_snaps@),
            power <= 0xffff_ffff_ffff_ffff * 0x4_0000_0000,
    {
        let fleet: &Fleet = world.fleets.at_key(fleet_key);
        let list: Vec<CapitalShipKey> = list_classes(world, fleet);
        let ghost f = screen_term(*world, list@, ship_snaps@);
        let pairs: usize = if list.len() < ship_snaps.len() {
            list.len()
        } else {
            ship_snaps.len()
        };
        let mut power: u128 = 0;
        for k in 0..pairs
            invariant
                pairs <= list@.len(),
                pairs <= ship_snaps@.len(),
                f == screen_term(*world, list@, ship_snaps@),
                forall|i: int| 0 <= #[trigger] f(i) <= 0x4_0000_0000,
                forall|k: int|
                    0 <= k < list@.len() ==> world.capital_ship_classes.has(#[trigger] list@[k]),
                power == total(k as nat, f),
                power <= 0xffff_ffff_ffff_ffff * 0x4_0000_0000,
        {
            proof {
                lemma_screen_fits(k as nat, f);
            }
            if ship_snaps[k].alive {
                let class: &CapitalShipClass = world.capital_ship_classes.at_key(list[k]);
                let guns: u64 = if class.laser_cannon_attack_strength > 0 {
                    class.laser_cannon_attack_strength as u64
                } else {
                    class.laser_cannon_fore as u64 + class.laser_cannon_aft as u64
                        + class.laser_cannon_port as u64 + class.laser_cannon_starboard as u64
                };
                assert(f(k as int) == guns);
                power = power + guns as u128;
            }
        }
        power
    }

    /// Laser cannons fire on the enemy's fighters.
    pub fn capital_ships_attack_fighters(
        world: &GameWorld,
        fleet_key: FleetKey,
        ship_snaps: &Vec<ShipSnap>,
        enemy_fighters: &mut Vec<u32>,
        extra: bool,
    )
        requires
            world.fleets.has(fleet_key),
            classes_known(*world, world.fleets.at(fleet_key)),
        ensures
            final(enemy_fighters)@ == screened(
                old(enemy_fighters)@,
                screen_of(*world, world.fleets.at(fleet_key), ship_snaps@),
                extra,
            ),
    {
        if !any_left(enemy_fighters) {
            return;
        }
        let power: u128 = CombatSystem::screen_power(world, fleet_key, ship_snaps);
        if power == 0 {
            return;
        }
        let losses: u128 = power / 100 + if extra {
            1
        } else {
            0
        };
        CombatSystem::apply_fighter_losses(enemy_fighters, losses);
    }
}

// ---- Fighters against fighters ---------------------------------------------

/// Whether the `i`th group has squadrons with any fighting power. A group
/// without an entry in the roster counts as armed.
pub open spec fn armed_group(world: GameWorld, fleet: Fleet, groups: Seq<u32>, i: int) -> bool {
    &&& 0 <= i < groups.len()
    &&& groups[i] > 0
    &&& i < fleet.fighters@.len() ==> {
        let class = world.fighter_classes.at(fleet.fighters@[i].class);
        class.overall_attack_strength > 0 || class.maneuverability > 0
    }
}

/// Whether a side has any fighting power in the air.
pub open spec fn armed_wing(world: GameWorld, fleet: Fleet, groups: Seq<u32>) -> bool {
    exists|i: int| armed_group(world, fleet, groups, i)
}

/// Whether the two wings fight at all.
pub open spec fn engaged(
    world: GameWorld,
    attacker: Fleet,
    flown: Seq<u32>,
    defender: Fleet,
    met: Seq<u32>,
) -> bool {
    some_left(flown) && some_left(met) && (armed_wing(world, attacker, flown) || armed_wing(
        world,
        defender,
        met,
    ))
}

/// The groups after a dogfight: at least one squadron falls.
pub open spec fn dueled(groups: Seq<u32>, losses: u32) -> Seq<u32> {
    after_losses(
        groups,
        if losses > 1 {
            losses as int
        } else {
            1
        },
    )
}

/// Checks whether a side has any fighting power in the air.
fn is_armed(world: &GameWorld, fleet: &Fleet, groups: &Vec<u32>) -> (armed: bool)
    requires
        classes_known(*world, *fleet),
    ensures
        armed == armed_wing(*world, *fleet, groups@),
{
    for i in 0..groups.len()
        invariant
            classes_known(*world, *fleet),
            forall|j: int| 0 <= j < i ==> !armed_group(*world, *fleet, groups@, j),
    {
        if groups[i] > 0 {
            if i >= fleet.fighters.len() {
                assert(armed_group(*world, *fleet, groups@, i as int));
                return true;
            }
            let class: &FighterClass = world.fighter_classes.at_key(fleet.fighters[i].class);
            if class.overall_attack_strength > 0 || class.maneuverability > 0 {
                assert(armed_group(*world, *fleet, groups@, i as int));
                return true;
            }
        }
    }
    false
}

impl CombatSystem {
    /// Whether the two wings fight at all.
    pub fn wings_engage(
        world: &GameWorld,
        atk_fleet: &Fleet,
        atk_launched: &Vec<u32>,
        def_fleet: &Fleet,
        def_launched: &Vec<u32>,
    ) -> (fight: bool)
        requires
            classes_known(*world, *atk_fleet),
            classes_known(*world, *def_fleet),
        ensures
            fight == engaged(*world, *atk_fleet, atk_launched@, *def_fleet, def_launched@),
    {
        any_left(atk_launched) && any_left(def_launched) && (is_armed(
            world,
            atk_fleet,
            atk_launched,
        ) || is_armed(world, def_fleet, def_launched))
    }

    /// The two wings fight. The losses that the rolls amount to count at least
    /// one squadron and at most all of them.
    pub fn fighter_dogfight(
        atk_launched: &mut Vec<u32>,
        atk_fleet: &Fleet,
        def_launched: &mut Vec<u32>,
        def_fleet: &Fleet,
        world: &GameWorld,
        atk_losses: u32,
        def_losses: u32,
    )
        requires
            classes_known(*world, *atk_fleet),
            classes_known(*world, *def_fleet),
        ensures
            ({
                let fight = engaged(
                    *world,
                    *atk_fleet,
                    old(atk_launched)@,
                    *def_fleet,
                    old(def_launched)@,
                );
                &&& final(atk_launched)@ == if fight {
                    dueled(old(atk_launched)@, atk_losses)
                } else {
                    old(atk_launched)@
                }
                &&& final(def_launched)@ == if fight {
                    dueled(old(def_launched)@, def_losses)
                } else {
                    old(def_launched)@
                }
            }),
    {
        if CombatSystem::wings_engage(world, atk_fleet, atk_launched, def_fleet, def_launched) {
            CombatSystem::apply_fighter_losses(
                atk_launched,
                if atk_losses > 1 {
                    atk_losses as u128
                } else {
                    1
                },
            );
            CombatSystem::apply_fighter_losses(
                def_launched,
                if def_losses > 1 {
                    def_losses as u128
                } else {
                    1
                },
            );
        }
    }
}

} // verus!
