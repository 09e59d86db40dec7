//! What guns, shields and hulls do in a space battle, measured from outside.

use crate::select::{lemma_total_same, tally, total};
use crate::space::{
    absorbed, alive_before, alive_count, classes, emperor_aboard, fire_each, fire_of, fire_term,
    fired_on, hit, ion_of, ion_term, is_emperor, living_class, living_snap, paired, recharged,
    snaps, some_alive, spurred, struck, volley_fits, ShipSnap,
};
use crate::text::{mentions, stands_at};
use crate::world::{Fleet, GameWorld, ShipInstance};
use vstd::prelude::*;

verus! {

// ---- A volley --------------------------------------------------------------

/// The damage that a volley adds to the `i`th hull.
pub open spec fn taken(before: Seq<ShipSnap>, after: Seq<ShipSnap>) -> spec_fn(int) -> int {
    |i: int| after[i].pending_damage - before[i].pending_damage
}

/// Fire is split, not repeated: without spread, a volley puts the same damage
/// on every living hull, and all of it together is no more than was fired. No
/// more than two points for each hull are lost in the splitting. Wrecks take
/// nothing, and nothing but the pending damage of a hull changes.
pub proof fn law_fire_is_split(targets: Seq<ShipSnap>, fire: int, ion: int)
    requires
        fire >= 0,
        ion >= 0,
        volley_fits(targets, fire, ion, Seq::empty()),
        forall|i: int|
            0 <= i < targets.len() ==> 0 <= (#[trigger] targets[i]).pending_ion_damage
                <= targets[i].pending_damage,
    ensures
        ({
            let after = fired_on(targets, fire, ion, Seq::empty());
            let living = tally(targets.len(), |i: int| targets[i].alive);
            let dealt = total(targets.len(), taken(targets, after));
            &&& after.len() == targets.len()
            &&& 0 <= dealt <= fire + ion
            &&& living > 0 ==> dealt > fire + ion - 2 * living
            &&& forall|i: int, j: int|
                0 <= i < targets.len() && 0 <= j < targets.len() && (#[trigger] targets[i]).alive
                    && (#[trigger] targets[j]).alive ==> after[i].pending_damage
                    - targets[i].pending_damage == after[j].pending_damage
                    - targets[j].pending_damage
            &&& forall|i: int|
                0 <= i < targets.len() ==> {
                    &&& !(#[trigger] targets[i]).alive ==> after[i] == targets[i]
                    &&& after[i] == (ShipSnap {
                        pending_damage: after[i].pending_damage,
                        pending_ion_damage: after[i].pending_ion_damage,
                        ..targets[i]
                    })
                    &&& targets[i].alive ==> (after[i].pending_damage - targets[i].pending_damage)
                        * living <= fire + ion
                }
        }),
{
    let after = fired_on(targets, fire, ion, Seq::empty());
    let alive = |i: int| targets[i].alive;
    let living = tally(targets.len(), alive);
    let f = taken(targets, after);
    assert(alive_count(targets) == living);
    if fire + ion > 0 && some_alive(targets) {
        let n = living as int;
        lemma_some_counted(targets);
        let each = fire_each(fire, ion, living);
        assert(n * (fire / n) <= fire < n * (fire / n) + n) by (nonlinear_arith)
            requires
                n > 0,
                fire >= 0,
        ;
        assert(n * (ion / n) <= ion < n * (ion / n) + n) by (nonlinear_arith)
            requires
                n > 0,
                ion >= 0,
        ;
        assert(fire / n >= 0 && ion / n >= 0) by (nonlinear_arith)
            requires
                n > 0,
                fire >= 0,
                ion >= 0,
        ;
        assert(each == fire / n + ion / n);
        assert(each * n == n * (fire / n) + n * (ion / n)) by (nonlinear_arith)
            requires
                each == fire / n + ion / n,
        ;
        assert forall|i: int| 0 <= i < targets.len() implies #[trigger] f(i) == if alive(i) {
            each
        } else {
            0
        } by {
            if targets[i].alive {
                assert(hit(each, Seq::<i64>::empty(), alive_before(targets, i)) == each);
            }
        }
        lemma_shares(targets.len(), f, alive, each);
        assert(total(targets.len(), f) == each * living);
        assert forall|i: int|
            0 <= i < targets.len() && (#[trigger] targets[i]).alive implies (
        after[i].pending_damage - targets[i].pending_damage) * living <= fire + ion by {
            assert(f(i) == each);
        }
        assert forall|i: int, j: int|
            0 <= i < targets.len() && 0 <= j < targets.len() && (#[trigger] targets[i]).alive && (
            #[trigger] targets[j]).alive implies after[i].pending_damage
            - targets[i].pending_damage == after[j].pending_damage - targets[j].pending_damage by {
            assert(f(i) == each);
            assert(f(j) == each);
        }
    } else {
        assert forall|i: int| 0 <= i < targets.len() implies #[trigger] f(i) == if alive(i) {
            0int
        } else {
            0
        } by {}
        lemma_shares(targets.len(), f, alive, 0);
        assert(0 * living == 0) by (nonlinear_arith);
        if living > 0 {
            lemma_counted_some(targets);
        }
    }
}

proof fn lemma_shares(n: nat, f: spec_fn(int) -> int, alive: spec_fn(int) -> bool, each: int)
    requires
        forall|i: int|
            0 <= i < n ==> #[trigger] f(i) == if alive(i) {
                each
            } else {
                0
            },
    ensures
        total(n, f) == each * tally(n, alive),
    decreases n,
{
    if n > 0 {
        let m = (n - 1) as nat;
        lemma_shares(m, f, alive, each);
        let k = tally(m, alive) as int;
        assert(f(m as int) == f(n - 1));
        assert(each * (k + 1) == each * k + each) by (nonlinear_arith);
    } else {
        assert(each * 0 == 0) by (nonlinear_arith);
    }
}

proof fn lemma_some_counted(ships: Seq<ShipSnap>)
    requires
        some_alive(ships),
    ensures
        tally(ships.len(), |i: int| ships[i].alive) > 0,
{
    let i = choose|i: int| 0 <= i < ships.len() && (#[trigger] ships[i]).alive;
    lemma_counted(ships.len(), |i: int| ships[i].alive, i);
}

/// What is there is counted.
pub(crate) proof fn lemma_counted(n: nat, f: spec_fn(int) -> bool, at: int)
    requires
        0 <= at < n,
        f(at),
    ensures
        tally(n, f) > 0,
    decreases n,
{
    if at < n - 1 {
        lemma_counted((n - 1) as nat, f, at);
    }
}

proof fn lemma_counted_some(ships: Seq<ShipSnap>)
    requires
        tally(ships.len(), |i: int| ships[i].alive) > 0,
    ensures
        some_alive(ships),
{
    lemma_count_witness(ships.len(), |i: int| ships[i].alive);
    let f = |i: int| ships[i].alive;
    let i = choose|i: int| 0 <= i < ships.len() && #[trigger] f(i);
    assert(ships[i].alive);
}

/// What is counted is there.
pub(crate) proof fn lemma_count_witness(n: nat, f: spec_fn(int) -> bool)
    requires
        tally(n, f) > 0,
    ensures
        exists|i: int| 0 <= i < n && #[trigger] f(i),
    decreases n,
{
    if f(n - 1) {
        assert(f(n - 1));
    } else {
        lemma_count_witness((n - 1) as nat, f);
    }
}

/// A roll shifts the damage to one hull and no other: the `k`th living hull
/// takes its share and the `k`th shift, and never less than nothing.
pub proof fn law_rolls_shift_one_hull(
    targets: Seq<ShipSnap>,
    fire: int,
    ion: int,
    spread: Seq<i64>,
    i: int,
)
    requires
        fire >= 0,
        ion >= 0,
        fire + ion > 0,
        volley_fits(targets, fire, ion, spread),
        volley_fits(targets, fire, ion, Seq::empty()),
        0 <= i < targets.len(),
        targets[i].alive,
        targets[i].pending_damage >= 0,
    ensures
        ({
            let even = fired_on(targets, fire, ion, Seq::empty())[i].pending_damage
                - targets[i].pending_damage;
            let rolled = fired_on(targets, fire, ion, spread)[i].pending_damage
                - targets[i].pending_damage;
            let k = tally(i as nat, |j: int| targets[j].alive);
            let shifted = even + if k < spread.len() {
                spread[k as int] as int
            } else {
                0
            };
            &&& shifted >= 0 ==> rolled == shifted
            &&& shifted < 0 ==> rolled == 0
        }),
{
    let n = alive_count(targets) as int;
    assert(some_alive(targets));
    lemma_some_counted(targets);
    assert(fire / n >= 0 && ion / n >= 0) by (nonlinear_arith)
        requires
            n > 0,
            fire >= 0,
            ion >= 0,
    ;
    let each = fire_each(fire, ion, n as nat);
    let k = alive_before(targets, i);
    assert(hit(each, Seq::<i64>::empty(), k) == each);
    assert(targets[i].pending_damage + hit(each, spread, k) <= i32::MAX);
    assert(targets[i].pending_damage + hit(each, Seq::<i64>::empty(), k) <= i32::MAX);
}

/// Ion damage is the part of a hull's damage that the ion cannons had in the
/// fire, rounded down.
pub proof fn law_ion_keeps_its_part(
    targets: Seq<ShipSnap>,
    fire: int,
    ion: int,
    spread: Seq<i64>,
    i: int,
)
    requires
        fire >= 0,
        ion >= 0,
        fire + ion > 0,
        volley_fits(targets, fire, ion, spread),
        0 <= i < targets.len(),
        targets[i].alive,
        0 <= targets[i].pending_ion_damage <= targets[i].pending_damage,
    ensures
        ({
            let after = fired_on(targets, fire, ion, spread)[i];
            let damage = after.pending_damage - targets[i].pending_damage;
            let part = after.pending_ion_damage - targets[i].pending_ion_damage;
            &&& part * (fire + ion) <= damage * ion < (part + 1) * (fire + ion)
            &&& 0 <= part <= damage
        }),
{
    let k = alive_before(targets, i);
    assert(some_alive(targets));
    let damage = hit(fire_each(fire, ion, alive_count(targets)), spread, k);
    assert(targets[i].pending_damage + damage <= i32::MAX);
    let all = fire + ion;
    let part = damage * ion / all;
    assert(part * all <= damage * ion < (part + 1) * all) by (nonlinear_arith)
        requires
            part == damage * ion / all,
            all > 0,
    ;
    assert(0 <= part <= damage) by (nonlinear_arith)
        requires
            part == damage * ion / all,
            0 <= ion <= all,
            all > 0,
            damage >= 0,
    ;
}

// ---- Guns ------------------------------------------------------------------

/// A fleet without hulls to fire from has no fire.
pub proof fn law_no_hulls_no_fire(world: GameWorld, fleet: Fleet)
    ensures
        fire_of(world, fleet, Seq::empty()) == 0,
        ion_of(world, fleet, Seq::empty()) == 0,
{
}

/// One living ship more adds the fire of its guns, each arc's guns times the
/// rating of the weapon, as far as the weapons are charged. A hull that is
/// lost fires nothing, and neither does a wreck.
pub proof fn law_every_gun_fires(
    world: GameWorld,
    fleet: Fleet,
    larger: Fleet,
    firing: Seq<ShipSnap>,
    ship: ShipInstance,
    hull: ShipSnap,
)
    requires
        ship.alive,
        firing.len() == classes(fleet).len(),
        larger.capital_ships@ == fleet.capital_ships@.push(ship),
    ensures
        ({
            let class = world.capital_ship_classes.at(ship.class);
            let fire = fire_of(world, larger, firing.push(hull)) - fire_of(world, fleet, firing);
            let ion = ion_of(world, larger, firing.push(hull)) - ion_of(world, fleet, firing);
            let turbo_rating = if class.turbolaser_attack_strength == 0 {
                1
            } else {
                class.turbolaser_attack_strength as int
            };
            let laser_rating = if class.laser_cannon_attack_strength == 0 {
                1
            } else {
                class.laser_cannon_attack_strength as int
            };
            let ion_rating = if class.ion_cannon_attack_strength == 0 {
                1
            } else {
                class.ion_cannon_attack_strength as int
            };
            let guns = (class.turbolaser_fore + class.turbolaser_aft + class.turbolaser_port
                + class.turbolaser_starboard) * turbo_rating + (class.laser_cannon_fore
                + class.laser_cannon_aft + class.laser_cannon_port
                + class.laser_cannon_starboard) * laser_rating;
            let ion_guns = (class.ion_cannon_fore + class.ion_cannon_aft + class.ion_cannon_port
                + class.ion_cannon_starboard) * ion_rating;
            &&& !hull.alive ==> fire == 0 && ion == 0
            &&& hull.alive ==> 15 * fire <= guns * hull.weapon_nibble < 15 * fire + 15
            &&& hull.alive ==> 15 * ion <= ion_guns * hull.weapon_nibble < 15 * ion + 15
        }),
{
    let a = classes(fleet);
    let b = classes(larger);
    let n = fleet.capital_ships@.len();
    crate::select::lemma_collect_same(n, living_class(fleet), living_class(larger));
    assert(b == a.push(ship.class));
    let more = firing.push(hull);
    let k = firing.len();
    assert(paired(a, firing) == k && paired(b, more) == k + 1);
    lemma_total_same(k, fire_term(world, a, firing), fire_term(world, b, more));
    lemma_total_same(k, ion_term(world, a, firing), ion_term(world, b, more));
}

/// A wreck in a fleet changes nothing about its fire.
pub proof fn law_wrecks_do_not_fire(
    world: GameWorld,
    fleet: Fleet,
    larger: Fleet,
    firing: Seq<ShipSnap>,
    wreck: ShipInstance,
)
    requires
        !wreck.alive,
        larger.capital_ships@ == fleet.capital_ships@.push(wreck),
    ensures
        fire_of(world, larger, firing) == fire_of(world, fleet, firing),
        ion_of(world, larger, firing) == ion_of(world, fleet, firing),
{
    let n = fleet.capital_ships@.len();
    crate::select::lemma_collect_same(n, living_class(fleet), living_class(larger));
}

// ---- Taking stock ----------------------------------------------------------

/// A living ship enters a battle with the hull it has, full shields, charged
/// weapons and no pending damage, behind the ships before it; a wreck does not
/// enter at all. It is a Death Star exactly if its class is one and its fleet
/// has one.
pub proof fn law_ships_enter_fresh(
    world: GameWorld,
    fleet: Fleet,
    larger: Fleet,
    ship: ShipInstance,
)
    requires
        larger.capital_ships@ == fleet.capital_ships@.push(ship),
        larger.has_death_star == fleet.has_death_star,
    ensures
        ({
            let before = snaps(world, fleet);
            let after = snaps(world, larger);
            let class = world.capital_ship_classes.at(ship.class);
            &&& !ship.alive ==> after == before
            &&& ship.alive ==> {
                let hull = after.last();
                &&& after == before.push(hull)
                &&& hull.alive
                &&& hull.hull_current == ship.hull_current
                &&& hull.hull_max == class.hull as i32
                &&& hull.shield_current == class.shield_strength as i32
                &&& hull.shield_max == class.shield_strength as i32
                &&& hull.pending_damage == 0
                &&& hull.pending_ion_damage == 0
                &&& hull.weapon_nibble == 15
                &&& class.shield_recharge_rate <= 15 ==> hull.shield_nibble
                    == class.shield_recharge_rate
                &&& class.shield_recharge_rate > 15 ==> hull.shield_nibble == 15
                &&& hull.is_death_star <==> fleet.has_death_star && class.dat_id.family_byte()
                    == 0x34
            }
        }),
        fleet.capital_ships@.len() == 0 ==> snaps(world, fleet).len() == 0,
{
    let n = fleet.capital_ships@.len();
    crate::select::lemma_collect_same(n, living_snap(world, fleet), living_snap(world, larger));
}

// ---- The Emperor -----------------------------------------------------------

/// The Emperor makes every three points out of two, rounded down, as far as
/// the field holds them, and touches nothing else.
pub proof fn law_the_emperor_adds_half(ships: Seq<ShipSnap>, i: int)
    requires
        0 <= i < ships.len(),
        0 <= ships[i].pending_ion_damage <= ships[i].pending_damage,
    ensures
        ({
            let s = ships[i];
            let after = spurred(ships)[i];
            &&& spurred(ships).len() == ships.len()
            &&& after == (ShipSnap {
                pending_damage: after.pending_damage,
                pending_ion_damage: after.pending_ion_damage,
                ..s
            })
            &&& 2 * after.pending_damage <= 3 * s.pending_damage
            &&& after.pending_damage < i32::MAX ==> 3 * s.pending_damage < 2 * after.pending_damage
                + 2
            &&& 2 * after.pending_ion_damage <= 3 * s.pending_ion_damage
            &&& after.pending_ion_damage < i32::MAX ==> 3 * s.pending_ion_damage < 2
                * after.pending_ion_damage + 2
        }),
{
}

/// Only a character of the Empire whose name says so is the Emperor, and it is
/// enough that one is aboard.
pub proof fn law_who_is_the_emperor(world: GameWorld, fleet: Fleet, i: int, at: int)
    requires
        0 <= i < fleet.characters@.len(),
        world.characters.has(fleet.characters@[i]),
    ensures
        ({
            let c = world.characters.at(fleet.characters@[i]);
            &&& !c.is_alliance && at >= 0 && at + 9 <= c.name@.len() && c.name@.subrange(at, at + 9)
                == "Palpatine"@ ==> emperor_aboard(world, fleet)
            &&& !c.is_alliance && at >= 0 && at + 7 <= c.name@.len() && c.name@.subrange(at, at + 7)
                == "Emperor"@ ==> emperor_aboard(world, fleet)
        }),
        (forall|k: int|
            0 <= k < fleet.characters@.len() && world.characters.has(
                #[trigger] fleet.characters@[k],
            ) ==> world.characters.at(fleet.characters@[k]).is_alliance) ==> !emperor_aboard(
            world,
            fleet,
        ),
        (forall|k: int|
            0 <= k < fleet.characters@.len() && world.characters.has(
                #[trigger] fleet.characters@[k],
            ) ==> !mentions(world.characters.at(fleet.characters@[k]).name@, "Palpatine"@)
                && !mentions(world.characters.at(fleet.characters@[k]).name@, "Emperor"@))
            ==> !emperor_aboard(world, fleet),
        fleet.characters@.len() == 0 ==> !emperor_aboard(world, fleet),
{
    reveal_strlit("Palpatine");
    reveal_strlit("Emperor");
    let c = world.characters.at(fleet.characters@[i]);
    if !c.is_alliance && at >= 0 && at + 9 <= c.name@.len() && c.name@.subrange(at, at + 9)
        == "Palpatine"@ {
        assert(stands_at(c.name@, "Palpatine"@, at));
        assert(is_emperor(world, fleet, i));
    }
    if !c.is_alliance && at >= 0 && at + 7 <= c.name@.len() && c.name@.subrange(at, at + 7)
        == "Emperor"@ {
        assert(stands_at(c.name@, "Emperor"@, at));
        assert(is_emperor(world, fleet, i));
    }
    if emperor_aboard(world, fleet) {
        let k = choose|k: int| is_emperor(world, fleet, k);
        assert(world.characters.has(fleet.characters@[k]));
    }
}

// ---- Shields ---------------------------------------------------------------

/// Shields under fire recharge by so many fifteenths of their maximum, rounded
/// down and never beyond it. Then they absorb what they can, where ion damage
/// counts twice: if they hold out, nothing is left of the damage; if they do
/// not, nothing is left of them, and what they held is taken off the damage
/// and its ion part in proportion, rounded down.
pub proof fn law_shields_take_their_measure(s: ShipSnap, pool: int)
    requires
        s.alive,
        0 <= s.pending_ion_damage <= s.pending_damage,
        s.pending_damage > 0,
        s.shield_nibble > 0 && s.shield_max > 0 ==> ({
            let charge = pool - s.shield_current;
            let room = s.shield_max - s.shield_current;
            ||| 15 * charge <= s.shield_max * s.shield_nibble < 15 * charge + 15 && charge <= room
            ||| charge == room && 15 * room <= s.shield_max * s.shield_nibble
        }),
        s.shield_nibble == 0 || s.shield_max <= 0 ==> pool == s.shield_current,
    ensures
        ({
            let after = absorbed(s);
            let force = s.pending_damage + s.pending_ion_damage;
            let spent = s.pending_damage - after.pending_damage;
            let ion_spent = s.pending_ion_damage - after.pending_ion_damage;
            &&& after == (ShipSnap {
                shield_current: after.shield_current,
                pending_damage: after.pending_damage,
                pending_ion_damage: after.pending_ion_damage,
                ..s
            })
            &&& pool <= 0 ==> after.shield_current == pool && spent == 0 && ion_spent == 0
            &&& pool >= force ==> after.shield_current == pool - force && after.pending_damage == 0
                && after.pending_ion_damage == 0
            &&& 0 < pool < force ==> {
                &&& after.shield_current == 0
                &&& spent * force <= s.pending_damage * pool < (spent + 1) * force
                &&& ion_spent * force <= s.pending_ion_damage * pool < (ion_spent + 1) * force
            }
        }),
{
    if s.shield_nibble > 0 && s.shield_max > 0 {
        let whole = s.shield_max * s.shield_nibble;
        assert(whole >= 0) by (nonlinear_arith)
            requires
                whole == s.shield_max * s.shield_nibble,
                s.shield_max > 0,
                s.shield_nibble > 0,
        ;
        let raised = s.shield_current + whole / 15;
        assert(pool == recharged(s));
    }
    let force = s.pending_damage + s.pending_ion_damage;
    let p = s.pending_damage as int;
    let q = s.pending_ion_damage as int;
    if pool >= force {
        assert(p * force / force == p && q * force / force == q) by (nonlinear_arith)
            requires
                force > 0,
        ;
    } else if pool > 0 {
        let a = p * pool / force;
        let b = q * pool / force;
        assert(a * force <= p * pool < (a + 1) * force) by (nonlinear_arith)
            requires
                a == p * pool / force,
                force > 0,
        ;
        assert(b * force <= q * pool < (b + 1) * force) by (nonlinear_arith)
            requires
                b == q * pool / force,
                force > 0,
        ;
        assert(0 <= a <= p && 0 <= b <= q) by (nonlinear_arith)
            requires
                a == p * pool / force,
                b == q * pool / force,
                0 < pool < force,
                p >= 0,
                q >= 0,
        ;
    }
}

/// Shields that are not under fire, and wrecks, are left alone.
pub proof fn law_idle_shields_rest(s: ShipSnap)
    requires
        !s.alive || s.pending_damage == 0,
    ensures
        absorbed(s) == s,
{
}

// ---- Hulls -----------------------------------------------------------------

/// A blow costs a hull as much as it weighs, one point at least, and no more
/// than there is; a hull with nothing left is lost. The pending damage is used
/// up. Hulls without pending damage and wrecks are left alone.
pub proof fn law_blows_cost_their_weight(s: ShipSnap, blow: int, generator_runs: bool)
    requires
        s.alive ==> s.hull_current > 0,
    ensures
        ({
            let after = struck(s, blow, generator_runs);
            let hit = s.alive && s.pending_damage != 0;
            let guarded = s.is_death_star && generator_runs;
            &&& !hit ==> after == s
            &&& hit ==> after == (ShipSnap {
                hull_current: after.hull_current,
                alive: after.alive,
                pending_damage: 0,
                pending_ion_damage: 0,
                ..s
            })
            &&& hit && guarded ==> after.hull_current == s.hull_current && after.alive
            &&& hit && !guarded && blow >= 1 && blow < s.hull_current ==> after.hull_current
                == s.hull_current - blow && after.alive
            &&& hit && !guarded && blow < 1 && s.hull_current > 1 ==> after.hull_current
                == s.hull_current - 1 && after.alive
            &&& hit && !guarded && (blow >= s.hull_current || s.hull_current == 1)
                ==> after.hull_current == 0 && !after.alive
        }),
{
}

} // verus!
