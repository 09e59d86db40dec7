//! What fighters do in a space battle, measured from outside.

use crate::combat_laws::{law_losses_are_exact, lemma_raid_count};
use crate::select::{
    collect, lemma_collect_same, lemma_total_monotone, lemma_total_same, tally, total,
};
use crate::space::{classes, living_class, paired, some_left, ShipSnap};
use crate::space_fighters::{
    after_losses, armed_group, armed_wing, carrier_capacity, dueled, engaged, hangar, launched,
    raid, raided, raided_by, recalled, returning, run_power, screen_of, screen_term, screened,
    squad, squads, squads_behind, target_at, targets_of,
};
use crate::world::{FighterEntry, Fleet, GameWorld, ShipInstance};
use vstd::prelude::*;

verus! {

// ---- Launch ----------------------------------------------------------------

/// Groups take off in order: one of which squadrons stay behind is the last
/// from which any take off.
pub proof fn law_groups_launch_in_order(groups: Seq<u32>, capacity: int, i: int, j: int)
    requires
        capacity >= 0,
        0 <= i < j < groups.len(),
        launched(groups, capacity)[i] < groups[i],
    ensures
        launched(groups, capacity)[j] == 0,
{
    lemma_total_monotone((i + 1) as nat, j as nat, squad(groups));
    assert(squads(groups, i + 1) == squads(groups, i) + groups[i]);
}

/// Room for fighters: a wing based in the system can fly as a whole, however
/// it is grouped.
pub proof fn law_local_wings_fly_whole(
    world: GameWorld,
    fleet: Fleet,
    larger: Fleet,
    group: FighterEntry,
    ships: Seq<ShipSnap>,
)
    requires
        larger.fighters@ == fleet.fighters@.push(group),
    ensures
        carrier_capacity(world, larger, ships, true) - carrier_capacity(world, fleet, ships, true)
            == group.count,
        fleet.fighters@.len() == 0 ==> carrier_capacity(world, fleet, ships, true) == 0,
{
    let n = fleet.fighters@.len();
    lemma_total_same(
        n,
        |i: int| fleet.fighters@[i].count as int,
        |i: int| larger.fighters@[i].count as int,
    );
}

/// One carrier more adds the room of its class while its hull is alive, and
/// none once it is lost. The same holds of its laser cannons' rating, or its
/// guns where it has no rating, in the screen against fighters.
pub proof fn law_every_carrier_counts(
    world: GameWorld,
    fleet: Fleet,
    larger: Fleet,
    ships: Seq<ShipSnap>,
    ship: ShipInstance,
    hull: ShipSnap,
)
    requires
        ship.alive,
        world.capital_ship_classes.has(ship.class),
        ships.len() == classes(fleet).len(),
        larger.capital_ships@ == fleet.capital_ships@.push(ship),
    ensures
        ({
            let class = world.capital_ship_classes.at(ship.class);
            let room = carrier_capacity(world, larger, ships.push(hull), false) - carrier_capacity(
                world,
                fleet,
                ships,
                false,
            );
            let screen = screen_of(world, larger, ships.push(hull)) - screen_of(
                world,
                fleet,
                ships,
            );
            &&& hull.alive ==> room == class.fighter_capacity
            &&& !hull.alive ==> room == 0 && screen == 0
            &&& hull.alive && class.laser_cannon_attack_strength > 0 ==> screen
                == class.laser_cannon_attack_strength
            &&& hull.alive && class.laser_cannon_attack_strength == 0 ==> screen
                == class.laser_cannon_fore + class.laser_cannon_aft + class.laser_cannon_port
                + class.laser_cannon_starboard
        }),
        carrier_capacity(world, fleet, Seq::empty(), false) == 0,
        screen_of(world, fleet, Seq::empty()) == 0,
{
    let a = classes(fleet);
    let b = classes(larger);
    lemma_collect_same(
        fleet.capital_ships@.len(),
        living_class(fleet),
        living_class(larger),
    );
    assert(b == a.push(ship.class));
    let more = ships.push(hull);
    let k = ships.len();
    assert(paired(a, ships) == k && paired(b, more) == k + 1);
    lemma_total_same(k, hangar(world, a, ships), hangar(world, b, more));
    lemma_total_same(k, screen_term(world, a, ships), screen_term(world, b, more));
}

// ---- Attack runs -----------------------------------------------------------

/// A run takes off shields and hull exactly as much as its power, shields
/// first, unless the hull gives out or the generator guards it.
pub proof fn law_runs_cost_their_power(s: ShipSnap, power: int, generator_runs: bool)
    requires
        power >= 0,
        s.hull_current >= 0,
    ensures
        ({
            let after = raided(s, power, generator_runs);
            let shield: int = if s.shield_current < 0 {
                0
            } else {
                s.shield_current as int
            };
            let off_shield = s.shield_current - after.shield_current;
            let off_hull = s.hull_current - after.hull_current;
            let guarded = s.is_death_star && generator_runs;
            &&& after == (ShipSnap {
                shield_current: after.shield_current,
                hull_current: after.hull_current,
                alive: after.alive,
                ..s
            })
            &&& power <= shield ==> off_shield == power && off_hull == 0 && after.alive == s.alive
            &&& power > shield ==> off_shield == shield
            &&& power > shield && guarded ==> off_hull == 0 && after.alive == s.alive
            &&& power > shield && !guarded && power - shield < s.hull_current ==> off_hull == power
                - shield && after.alive == s.alive
            &&& power > shield && !guarded && power - shield >= s.hull_current
                ==> after.hull_current == 0 && !after.alive
        }),
{
}

/// A group attacks with the rating of its class once for every squadron: the
/// overall rating, or the weapons' ratings together where there is none. A
/// group that is not on the roster has no power.
pub proof fn law_power_grows_by_squadrons(
    world: GameWorld,
    fleet: Fleet,
    groups: Seq<u32>,
    more: Seq<u32>,
    q: int,
)
    requires
        0 <= q < groups.len(),
        groups[q] < u32::MAX,
        more == groups.update(q, (groups[q] + 1) as u32),
    ensures
        ({
            let class = world.fighter_classes.at(fleet.fighters@[q].class);
            let gain = run_power(world, fleet, more, q) - run_power(world, fleet, groups, q);
            &&& q >= fleet.fighters@.len() ==> run_power(world, fleet, groups, q) == 0
            &&& q < fleet.fighters@.len() && class.overall_attack_strength > 0 ==> gain
                == class.overall_attack_strength
            &&& q < fleet.fighters@.len() && class.overall_attack_strength == 0 ==> gain
                == class.turbolaser_attack_strength + class.ion_cannon_attack_strength
                + class.laser_cannon_attack_strength
        }),
        groups[q] == 0 ==> run_power(world, fleet, groups, q) == 0,
{
    if q < fleet.fighters@.len() {
        let a = crate::space_fighters::sting(world.fighter_classes.at(fleet.fighters@[q].class));
        let b = groups[q] as int;
        assert(a * (b + 1) - a * b == a) by (nonlinear_arith);
        assert(a * 0 == 0) by (nonlinear_arith);
    }
}

/// Every group with any power flies at one hull, the one that its pick names
/// among those alive when the attack began: the last of them if it names one
/// beyond, the middle one without a pick. Picks are used in turn by the groups
/// with power, and no other hull is touched.
pub proof fn law_each_group_hits_one_hull(
    world: GameWorld,
    fleet: Fleet,
    groups: Seq<u32>,
    ships: Seq<ShipSnap>,
    picks: Seq<usize>,
    generator_runs: bool,
    n: nat,
    at: int,
)
    requires
        ships.len() <= usize::MAX,
        n < groups.len(),
        0 <= at < ships.len(),
        ships[at].alive,
        ({
            let living = tally(ships.len(), |i: int| ships[i].alive);
            let turn = tally(n, |q: int| run_power(world, fleet, groups, q) != 0);
            let wish: int = if turn < picks.len() {
                picks[turn as int] as int
            } else {
                living as int / 2
            };
            tally(at as nat, |i: int| ships[i].alive) == if wish < living {
                wish
            } else {
                living - 1
            }
        }),
    ensures
        ({
            let before = raid(world, fleet, groups, ships, picks, generator_runs, n).0;
            let after = raid(world, fleet, groups, ships, picks, generator_runs, n + 1).0;
            let power = run_power(world, fleet, groups, n as int);
            &&& before.len() == ships.len()
            &&& after.len() == ships.len()
            &&& power == 0 ==> after == before
            &&& power != 0 ==> after[at] == raided(before[at], power, generator_runs)
            &&& forall|i: int|
                0 <= i < ships.len() && i != at ==> #[trigger] after[i] == before[i]
        }),
        raid(world, fleet, groups, ships, picks, generator_runs, 0).0 == ships,
        raided_by(world, fleet, groups, ships, picks, generator_runs) == raid(
            world,
            fleet,
            groups,
            ships,
            picks,
            generator_runs,
            groups.len(),
        ).0,
{
    let alive = |i: int| ships[i].alive;
    let list = targets_of(ships);
    lemma_used_picks(world, fleet, groups, ships, picks, generator_runs, n);
    lemma_targets(ships, ships.len(), at);
    lemma_target_count(ships, ships.len());
    let k = tally(at as nat, alive);
    assert(list[k as int] == at);
    lemma_raid_count(world, fleet, groups, ships, picks, generator_runs, n);
    lemma_raid_count(world, fleet, groups, ships, picks, generator_runs, n + 1);
}

proof fn lemma_used_picks(
    world: GameWorld,
    fleet: Fleet,
    groups: Seq<u32>,
    ships: Seq<ShipSnap>,
    picks: Seq<usize>,
    generator_runs: bool,
    n: nat,
)
    ensures
        raid(world, fleet, groups, ships, picks, generator_runs, n).1 == tally(
            n,
            |q: int| run_power(world, fleet, groups, q) != 0,
        ),
    decreases n,
{
    if n > 0 {
        lemma_used_picks(world, fleet, groups, ships, picks, generator_runs, (n - 1) as nat);
    }
}

/// The places of living hulls are listed by how many live before them.
proof fn lemma_targets(ships: Seq<ShipSnap>, n: nat, at: int)
    requires
        0 <= at < n <= ships.len() <= usize::MAX,
        ships[at].alive,
    ensures
        ({
            let k = tally(at as nat, |i: int| ships[i].alive);
            let list = collect(n, target_at(ships));
            k < list.len() && list[k as int] == at
        }),
    decreases n,
{
    let m = (n - 1) as nat;
    if at < m {
        lemma_targets(ships, m, at);
    } else {
        lemma_target_count(ships, m);
    }
}

proof fn lemma_target_count(ships: Seq<ShipSnap>, n: nat)
    ensures
        collect(n, target_at(ships)).len() == tally(n, |i: int| ships[i].alive),
    decreases n,
{
    if n > 0 {
        lemma_target_count(ships, (n - 1) as nat);
    }
}

// ---- Losses ----------------------------------------------------------------

/// The last groups fall first: once a group has lost a squadron, nothing is
/// left of those behind it.
pub proof fn law_last_groups_fall_first(groups: Seq<u32>, losses: int, i: int, j: int)
    requires
        losses >= 0,
        0 <= i < j < groups.len(),
        after_losses(groups, losses)[i] < groups[i],
    ensures
        after_losses(groups, losses)[j] == 0,
{
    let n = groups.len() as int;
    lemma_total_monotone((i + 1) as nat, j as nat, squad(groups));
    assert(squads(groups, j + 1) == squads(groups, j) + groups[j]);
    assert(squads_behind(groups, i) >= squads_behind(groups, j) + groups[j]);
    lemma_total_monotone((j + 1) as nat, groups.len(), squad(groups));
}

/// A screen brings down one squadron for every full hundred points of power
/// and one more if the roll says so, as far as there are any; without power it
/// brings down none.
pub proof fn law_a_hundred_points_a_squadron(groups: Seq<u32>, power: int, extra: bool)
    requires
        power >= 0,
    ensures
        ({
            let all = total(groups.len(), |i: int| groups[i] as int);
            let after = screened(groups, power, extra);
            let left = total(groups.len(), |i: int| after[i] as int);
            let fallen = all - left;
            let due = fallen - if extra {
                1int
            } else {
                0
            };
            &&& after.len() == groups.len()
            &&& power == 0 ==> after == groups
            &&& power > 0 && left > 0 ==> 100 * due <= power < 100 * due + 100
            &&& power > 0 && left == 0 && all > 0 ==> 100 * due <= power
            &&& 0 <= left <= all
        }),
{
    let after = screened(groups, power, extra);
    let losses = power / 100 + if extra {
        1int
    } else {
        0
    };
    law_losses_are_exact(groups, losses);
    let n = groups.len();
    lemma_total_same(n, |i: int| groups[i] as int, squad(groups));
    lemma_total_same(n, |i: int| after[i] as int, squad(after));
    lemma_total_monotone(0, n, squad(groups));
    lemma_total_monotone(0, n, squad(after));
    if !some_left(groups) {
        lemma_none_left(groups, n);
    }
}

proof fn lemma_none_left(groups: Seq<u32>, n: nat)
    requires
        n <= groups.len(),
        !some_left(groups),
    ensures
        total(n, squad(groups)) == 0,
    decreases n,
{
    if n > 0 {
        lemma_none_left(groups, (n - 1) as nat);
        assert(!(groups[n - 1] > 0));
    }
}

/// In a dogfight as many squadrons fall as were counted out, but at least one,
/// as far as there are any.
pub proof fn law_dogfights_cost_squadrons(groups: Seq<u32>, losses: u32)
    ensures
        ({
            let all = total(groups.len(), |i: int| groups[i] as int);
            let after = dueled(groups, losses);
            let left = total(groups.len(), |i: int| after[i] as int);
            &&& after.len() == groups.len()
            &&& losses >= 1 && losses <= all ==> all - left == losses
            &&& losses == 0 && all >= 1 ==> all - left == 1
            &&& losses > all ==> left == 0
        }),
{
    let after = dueled(groups, losses);
    law_losses_are_exact(
        groups,
        if losses > 1 {
            losses as int
        } else {
            1
        },
    );
    let n = groups.len();
    lemma_total_same(n, |i: int| groups[i] as int, squad(groups));
    lemma_total_same(n, |i: int| after[i] as int, squad(after));
    lemma_total_monotone(0, n, squad(groups));
}

/// Wings fight exactly if both have squadrons in the air and one squadron at
/// least, on either side, can shoot or turn.
pub proof fn law_when_wings_fight(
    world: GameWorld,
    attacker: Fleet,
    flown: Seq<u32>,
    defender: Fleet,
    met: Seq<u32>,
    i: int,
)
    ensures
        engaged(world, attacker, flown, defender, met) == engaged(
            world,
            defender,
            met,
            attacker,
            flown,
        ),
        (forall|k: int| 0 <= k < flown.len() ==> #[trigger] flown[k] == 0) ==> !engaged(
            world,
            attacker,
            flown,
            defender,
            met,
        ),
        ({
            let class = world.fighter_classes.at(attacker.fighters@[i].class);
            &&& 0 <= i < flown.len() && i < attacker.fighters@.len() && flown[i] > 0 && (
            class.overall_attack_strength > 0 || class.maneuverability > 0) && (exists|k: int|
                0 <= k < met.len() && #[trigger] met[k] > 0) ==> engaged(
                world,
                attacker,
                flown,
                defender,
                met,
            )
        }),
        (forall|k: int|
            0 <= k < flown.len() && #[trigger] flown[k] > 0 ==> k < attacker.fighters@.len() && ({
                let class = world.fighter_classes.at(attacker.fighters@[k].class);
                class.overall_attack_strength == 0 && class.maneuverability == 0
            })) && (forall|k: int|
            0 <= k < met.len() && #[trigger] met[k] > 0 ==> k < defender.fighters@.len() && ({
                let class = world.fighter_classes.at(defender.fighters@[k].class);
                class.overall_attack_strength == 0 && class.maneuverability == 0
            })) ==> !engaged(world, attacker, flown, defender, met),
{
    if 0 <= i < flown.len() && i < attacker.fighters@.len() && flown[i] > 0 {
        let class = world.fighter_classes.at(attacker.fighters@[i].class);
        if class.overall_attack_strength > 0 || class.maneuverability > 0 {
            assert(armed_group(world, attacker, flown, i));
        }
    }
    if armed_wing(world, attacker, flown) {
        let k = choose|k: int| armed_group(world, attacker, flown, k);
        assert(flown[k] > 0);
    }
    if armed_wing(world, defender, met) {
        let k = choose|k: int| armed_group(world, defender, met, k);
        assert(met[k] > 0);
    }
}

// ---- Recall ----------------------------------------------------------------

/// Survivors come home as long as there is room, in order: with room for all
/// every survivor does, and a group that loses survivors for want of room is
/// the last from which any come home. Groups that never took off are as they
/// were.
pub proof fn law_survivors_come_home(
    groups: Seq<u32>,
    survivors: Seq<u32>,
    flown: Seq<u32>,
    capacity: int,
    i: int,
)
    requires
        capacity >= 0,
        survivors.len() == groups.len(),
        flown.len() == groups.len(),
        0 <= i < groups.len(),
    ensures
        ({
            let home = recalled(groups, survivors, flown, capacity);
            let back = |k: int|
                if flown[k] == 0 {
                    0int
                } else {
                    survivors[k] as int
                };
            let ahead = total(i as nat, back);
            &&& home.len() == groups.len()
            &&& flown[i] == 0 ==> home[i] == groups[i]
            &&& flown[i] != 0 && ahead + survivors[i] <= capacity ==> home[i] == survivors[i]
            &&& flown[i] != 0 && ahead <= capacity < ahead + survivors[i] ==> home[i] == capacity
                - ahead
            &&& flown[i] != 0 && capacity < ahead ==> home[i] == 0
        }),
{
    let back = |k: int|
        if flown[k] == 0 {
            0int
        } else {
            survivors[k] as int
        };
    lemma_total_same(i as nat, back, returning(survivors, flown));
}

} // verus!
