//! Space battles, phase by phase.
//!
//! A battle runs through weapon fire, shield absorption, hull damage and the
//! fighter engagement. Everything here works on whole numbers; what the rolls
//! amount to is worked out by the caller and handed in as a [`SpaceDice`].

use crate::combat::{CombatSystem, GNPRTB_COMBAT_DIFFICULTY_MODIFIER};
use crate::ids::{CapitalShipKey, CharacterKey, FleetKey};
use crate::select::{collect, lemma_total_monotone, tally, total};
use crate::text::{contains_text, mentions};
use crate::world::{CapitalShipClass, Fleet, GameWorld, ShipInstance};
use vstd::prelude::*;

verus! {

/// One hull during a battle.
#[derive(Debug, Clone, Copy, PartialEq, Eq, Structural)]
pub struct ShipSnap {
    pub hull_current: i32,
    pub hull_max: i32,
    /// What the shields can still absorb.
    pub shield_current: i32,
    pub shield_max: i32,
    /// Weapon damage that has not reached shields or hull yet.
    pub pending_damage: i32,
    /// The part of it from ion cannons, which count twice against shields.
    pub pending_ion_damage: i32,
    /// Shield recharge, in fifteenths of the maximum per battle.
    pub shield_nibble: u8,
    /// Weapon charge, in fifteenths.
    pub weapon_nibble: u8,
    pub alive: bool,
    pub is_death_star: bool,
}

impl ShipSnap {
    /// Pending damage is never negative, and ion damage is a part of it.
    pub open spec fn wf(self) -> bool {
        0 <= self.pending_ion_damage <= self.pending_damage
    }
}

/// Whether every hull of a list is well formed.
pub open spec fn all_wf(ships: Seq<ShipSnap>) -> bool {
    forall|i: int| 0 <= i < ships.len() ==> (#[trigger] ships[i]).wf()
}

/// Whether some hull of a list is alive.
pub open spec fn some_alive(ships: Seq<ShipSnap>) -> bool {
    exists|i: int| 0 <= i < ships.len() && (#[trigger] ships[i]).alive
}

/// Whether some group of a list has squadrons.
pub open spec fn some_left(groups: Seq<u32>) -> bool {
    exists|i: int| 0 <= i < groups.len() && #[trigger] groups[i] > 0
}

/// Checks whether some hull is alive.
pub(crate) fn any_alive_snap(ships: &Vec<ShipSnap>) -> (found: bool)
    ensures
        found == some_alive(ships@),
{
    for i in 0..ships.len()
        invariant
            forall|j: int| 0 <= j < i ==> !(#[trigger] ships@[j]).alive,
    {
        if ships[i].alive {
            assert(ships@[i as int].alive);
            return true;
        }
    }
    false
}

/// Checks whether some group has squadrons.
pub(crate) fn any_left(groups: &Vec<u32>) -> (found: bool)
    ensures
        found == some_left(groups@),
{
    for i in 0..groups.len()
        invariant
            forall|j: int| 0 <= j < i ==> #[trigger] groups@[j] == 0,
    {
        if groups[i] > 0 {
            assert(groups@[i as int] > 0);
            return true;
        }
    }
    false
}

// ---- Taking stock ----------------------------------------------------------

/// Whether every living ship and every fighter group of a fleet is of a known
/// class.
pub open spec fn classes_known(world: GameWorld, fleet: Fleet) -> bool {
    &&& forall|i: int|
        0 <= i < fleet.capital_ships@.len() && (#[trigger] fleet.capital_ships@[i]).alive
            ==> world.capital_ship_classes.has(fleet.capital_ships@[i].class)
    &&& forall|i: int|
        0 <= i < fleet.fighters@.len() ==> world.fighter_classes.has(
            (#[trigger] fleet.fighters@[i]).class,
        )
}

/// A fresh hull of a class.
pub open spec fn snap_of(class: CapitalShipClass, hull: i32, death_star_fleet: bool) -> ShipSnap {
    ShipSnap {
        hull_current: hull,
        hull_max: class.hull as i32,
        shield_current: class.shield_strength as i32,
        shield_max: class.shield_strength as i32,
        pending_damage: 0,
        pending_ion_damage: 0,
        shield_nibble: if class.shield_recharge_rate < 15 {
            class.shield_recharge_rate as u8
        } else {
            15
        },
        weapon_nibble: 15,
        alive: true,
        is_death_star: death_star_fleet && class.dat_id.family_byte() == 0x34,
    }
}

/// The `i`th ship as a hull, if it is alive.
pub open spec fn living_snap(world: GameWorld, fleet: Fleet) -> spec_fn(int) -> Option<ShipSnap> {
    |i: int|
        {
            let ship = fleet.capital_ships@[i];
            if ship.alive {
                Some(
                    snap_of(
                        world.capital_ship_classes.at(ship.class),
                        ship.hull_current,
                        fleet.has_death_star,
                    ),
                )
            } else {
                None
            }
        }
}

/// The living ships of a fleet as hulls.
pub open spec fn snaps(world: GameWorld, fleet: Fleet) -> Seq<ShipSnap> {
    collect(fleet.capital_ships@.len(), living_snap(world, fleet))
}

/// The squadron counts of a fleet.
pub open spec fn roster(fleet: Fleet) -> Seq<u32> {
    Seq::new(fleet.fighters@.len(), |i: int| fleet.fighters@[i].count)
}

/// The class of the `i`th ship, if it is alive.
pub open spec fn living_class(fleet: Fleet) -> spec_fn(int) -> Option<CapitalShipKey> {
    |i: int|
        if fleet.capital_ships@[i].alive {
            Some(fleet.capital_ships@[i].class)
        } else {
            None
        }
}

/// The classes of a fleet's living ships.
pub open spec fn classes(fleet: Fleet) -> Seq<CapitalShipKey> {
    collect(fleet.capital_ships@.len(), living_class(fleet))
}

/// Place `i`, if the ship there is alive.
pub open spec fn living_place(fleet: Fleet) -> spec_fn(int) -> Option<usize> {
    |i: int|
        if fleet.capital_ships@[i].alive {
            Some(i as usize)
        } else {
            None
        }
}

/// The places of a fleet's living ships among all its ships.
pub open spec fn living_places(fleet: Fleet) -> Seq<usize> {
    collect(fleet.capital_ships@.len(), living_place(fleet))
}

/// Lists the places of a fleet's living ships.
pub(crate) fn list_places(fleet: &Fleet) -> (list: Vec<usize>)
    ensures
        list@ == living_places(*fleet),
{
    let ghost f = living_place(*fleet);
    let mut list: Vec<usize> = Vec::new();
    for i in 0..fleet.capital_ships.len()
        invariant
            f == living_place(*fleet),
            list@ == collect(i as nat, f),
    {
        if fleet.capital_ships[i].alive {
            list.push(i);
        }
    }
    list
}

/// A list of living classes holds known classes.
proof fn lemma_classes_known(world: GameWorld, fleet: Fleet, n: nat)
    requires
        classes_known(world, fleet),
        n <= fleet.capital_ships@.len(),
    ensures
        forall|k: int|
            0 <= k < collect(n, living_class(fleet)).len() ==> world.capital_ship_classes.has(
                #[trigger] collect(n, living_class(fleet))[k],
            ),
        collect(n, living_class(fleet)).len() == collect(n, living_snap(world, fleet)).len(),
    decreases n,
{
    if n > 0 {
        let m = (n - 1) as nat;
        let f = living_class(fleet);
        lemma_classes_known(world, fleet, m);
        assert forall|k: int| 0 <= k < collect(n, f).len() implies world.capital_ship_classes.has(
            #[trigger] collect(n, f)[k],
        ) by {
            if k < collect(m, f).len() {
                assert(collect(n, f)[k] == collect(m, f)[k]);
            } else {
                assert(f(m as int) == Some(collect(n, f)[k]));
                assert(fleet.capital_ships@[m as int].alive);
            }
        }
    }
}

/// Lists the classes of a fleet's living ships.
pub(crate) fn list_classes(world: &GameWorld, fleet: &Fleet) -> (list: Vec<CapitalShipKey>)
    requires
        classes_known(*world, *fleet),
    ensures
        list@ == classes(*fleet),
        forall|k: int| 0 <= k < list@.len() ==> world.capital_ship_classes.has(#[trigger] list@[k]),
{
    let ghost f = living_class(*fleet);
    let mut list: Vec<CapitalShipKey> = Vec::new();
    for i in 0..fleet.capital_ships.len()
        invariant
            f == living_class(*fleet),
            list@ == collect(i as nat, f),
    {
        if fleet.capital_ships[i].alive {
            list.push(fleet.capital_ships[i].class);
        }
    }
    proof {
        lemma_classes_known(*world, *fleet, fleet.capital_ships@.len());
    }
    list
}

impl CombatSystem {
    /// Takes stock of a fleet: its living ships as hulls, and its squadrons.
    pub fn snapshot_fleet(world: &GameWorld, fleet: FleetKey) -> (stock: (Vec<ShipSnap>, Vec<u32>))
        requires
            world.fleets.has(fleet),
            classes_known(*world, world.fleets.at(fleet)),
        ensures
            stock.0@ == snaps(*world, world.fleets.at(fleet)),
            stock.1@ == roster(world.fleets.at(fleet)),
    {
        let f: &Fleet = world.fleets.at_key(fleet);
        let ghost living = living_snap(*world, *f);
        let mut ships: Vec<ShipSnap> = Vec::new();
        for i in 0..f.capital_ships.len()
            invariant
                classes_known(*world, *f),
                living == living_snap(*world, *f),
                ships@ == collect(i as nat, living),
        {
            let ship: ShipInstance = f.capital_ships[i];
            if ship.alive {
                assert(f.capital_ships@[i as int].alive);
                let class: &CapitalShipClass = world.capital_ship_classes.at_key(ship.class);
                let nibble: u8 = if class.shield_recharge_rate < 15 {
                    class.shield_recharge_rate as u8
                } else {
                    15
                };
                ships.push(
                    ShipSnap {
                        hull_current: ship.hull_current,
                        hull_max: class.hull as i32,
                        shield_current: class.shield_strength as i32,
                        shield_max: class.shield_strength as i32,
                        pending_damage: 0,
                        pending_ion_damage: 0,
                        shield_nibble: nibble,
                        weapon_nibble: 15,
                        alive: true,
                        is_death_star: f.has_death_star && class.dat_id.family() == 0x34,
                    },
                );
            }
        }
        let mut fighters: Vec<u32> = Vec::new();
        for i in 0..f.fighters.len()
            invariant
                fighters@ == roster(*f).take(i as int),
        {
            fighters.push(f.fighters[i].count);
            assert(fighters@ =~= roster(*f).take(i + 1));
        }
        assert(fighters@ =~= roster(*f));
        (ships, fighters)
    }

    /// The damage modifier for a difficulty, in percent; 100 where the table
    /// has none.
    pub fn damage_percent(world: &GameWorld, difficulty: u8) -> (percent: i32)
        ensures
            percent == ({
                let raw = world.gnprtb.value_spec(GNPRTB_COMBAT_DIFFICULTY_MODIFIER, difficulty);
                if raw > 0 {
                    raw
                } else {
                    100
                }
            }),
            percent > 0,
            world.gnprtb.value_spec(0x1400, difficulty) > 0 ==> percent == world.gnprtb.value_spec(
                0x1400,
                difficulty,
            ),
            world.gnprtb.value_spec(0x1400, difficulty) <= 0 ==> percent == 100,
    {
        let raw: i32 = world.gnprtb.value(GNPRTB_COMBAT_DIFFICULTY_MODIFIER, difficulty);
        if raw > 0 {
            raw
        } else {
            100
        }
    }
}

// ---- Weapon fire -----------------------------------------------------------

/// One, or more if the rating says so.
pub open spec fn rated(strength: u32) -> int {
    if strength > 1 {
        strength as int
    } else {
        1
    }
}

/// Turbolaser and laser cannon fire of a class at full charge, before charge
/// is counted: every arc's guns times the weapon's rating.
pub open spec fn guns(class: CapitalShipClass) -> int {
    (class.turbolaser_fore + class.turbolaser_aft + class.turbolaser_port
        + class.turbolaser_starboard) * rated(class.turbolaser_attack_strength) + (
    class.laser_cannon_fore + class.laser_cannon_aft + class.laser_cannon_port
        + class.laser_cannon_starboard) * rated(class.laser_cannon_attack_strength)
}

/// Ion cannon fire of a class, before charge is counted.
pub open spec fn ion_guns(class: CapitalShipClass) -> int {
    (class.ion_cannon_fore + class.ion_cannon_aft + class.ion_cannon_port
        + class.ion_cannon_starboard) * rated(class.ion_cannon_attack_strength)
}

/// Fire of the `k`th hull other than from ion cannons, if it is alive.
pub open spec fn fire_term(world: GameWorld, list: Seq<CapitalShipKey>, firing: Seq<ShipSnap>) -> spec_fn(
    int,
) -> int {
    |k: int|
        if firing[k].alive {
            guns(world.capital_ship_classes.at(list[k])) * firing[k].weapon_nibble / 15
        } else {
            0
        }
}

/// Ion cannon fire of the `k`th hull, if it is alive.
pub open spec fn ion_term(world: GameWorld, list: Seq<CapitalShipKey>, firing: Seq<ShipSnap>) -> spec_fn(
    int,
) -> int {
    |k: int|
        if firing[k].alive {
            ion_guns(world.capital_ship_classes.at(list[k])) * firing[k].weapon_nibble / 15
        } else {
            0
        }
}

/// How many hulls stand for ships of the fleet.
pub open spec fn paired(list: Seq<CapitalShipKey>, firing: Seq<ShipSnap>) -> nat {
    if list.len() < firing.len() {
        list.len()
    } else {
        firing.len()
    }
}

/// A fleet's fire other than from ion cannons.
pub open spec fn fire_of(world: GameWorld, fleet: Fleet, firing: Seq<ShipSnap>) -> int {
    total(paired(classes(fleet), firing), fire_term(world, classes(fleet), firing))
}

/// A fleet's ion cannon fire.
pub open spec fn ion_of(world: GameWorld, fleet: Fleet, firing: Seq<ShipSnap>) -> int {
    total(paired(classes(fleet), firing), ion_term(world, classes(fleet), firing))
}

/// How many hulls before `i` are alive.
pub open spec fn alive_before(ships: Seq<ShipSnap>, i: int) -> nat {
    tally(i as nat, |j: int| ships[j].alive)
}

/// How many hulls are alive.
pub open spec fn alive_count(ships: Seq<ShipSnap>) -> nat {
    alive_before(ships, ships.len() as int)
}

/// The fire that falls on each of `n` targets.
pub open spec fn fire_each(fire: int, ion: int, n: nat) -> int {
    fire / (n as int) + ion / (n as int)
}

/// The damage to one target: its share of the fire, shifted by the roll.
pub open spec fn hit(each: int, spread: Seq<i64>, k: nat) -> int {
    let shifted = each + if k < spread.len() {
        spread[k as int] as int
    } else {
        0
    };
    if shifted > 0 {
        shifted
    } else {
        0
    }
}

/// The targets after a volley of `fire` and `ion`. Each living target takes an
/// equal share, shifted by its own entry of `spread`.
pub open spec fn fired_on(targets: Seq<ShipSnap>, fire: int, ion: int, spread: Seq<i64>) -> Seq<
    ShipSnap,
> {
    if fire + ion == 0 || !some_alive(targets) {
        targets
    } else {
        let each = fire_each(fire, ion, alive_count(targets));
        Seq::new(
            targets.len(),
            |i: int|
                if targets[i].alive {
                    let damage = hit(each, spread, alive_before(targets, i));
                    ShipSnap {
                        pending_damage: (targets[i].pending_damage + damage) as i32,
                        pending_ion_damage: (targets[i].pending_ion_damage + damage * ion / (fire
                            + ion)) as i32,
                        ..targets[i]
                    }
                } else {
                    targets[i]
                },
        )
    }
}

/// Whether the volley's damage fits the targets' pools.
pub open spec fn volley_fits(targets: Seq<ShipSnap>, fire: int, ion: int, spread: Seq<i64>) -> bool {
    fire + ion > 0 && some_alive(targets) ==> {
        let each = fire_each(fire, ion, alive_count(targets));
        forall|i: int|
            0 <= i < targets.len() && (#[trigger] targets[i]).alive ==> targets[i].pending_damage
                + hit(each, spread, alive_before(targets, i)) <= i32::MAX
    }
}

/// Guns are never negative and fit in wide arithmetic.
proof fn lemma_guns(class: CapitalShipClass)
    ensures
        0 <= guns(class) <= 0x4_0000_0000 * 0x2_0000_0000,
        0 <= ion_guns(class) <= 0x4_0000_0000 * 0x1_0000_0000,
{
    let t = class.turbolaser_fore + class.turbolaser_aft + class.turbolaser_port
        + class.turbolaser_starboard;
    let l = class.laser_cannon_fore + class.laser_cannon_aft + class.laser_cannon_port
        + class.laser_cannon_starboard;
    let n = class.ion_cannon_fore + class.ion_cannon_aft + class.ion_cannon_port
        + class.ion_cannon_starboard;
    lemma_product(t, rated(class.turbolaser_attack_strength));
    lemma_product(l, rated(class.laser_cannon_attack_strength));
    lemma_product(n, rated(class.ion_cannon_attack_strength));
}

/// A product of a small sum and a rating is bounded.
proof fn lemma_product(a: int, b: int)
    requires
        0 <= a <= 0x4_0000_0000,
        0 <= b <= 0x1_0000_0000,
    ensures
        0 <= a * b <= 0x4_0000_0000 * 0x1_0000_0000,
{
    assert(0 <= a * b <= 0x4_0000_0000 * 0x1_0000_0000) by (nonlinear_arith)
        requires
            0 <= a <= 0x4_0000_0000,
            0 <= b <= 0x1_0000_0000,
    ;
}

/// Scaling by a charge keeps the sign and a bound.
proof fn lemma_charge(power: int, nibble: u8)
    requires
        0 <= power <= 0x4_0000_0000 * 0x2_0000_0000,
    ensures
        0 <= power * nibble <= 0x4_0000_0000 * 0x2_0000_0000 * 255,
        0 <= power * nibble / 15,
{
    assert(0 <= power * nibble <= 0x4_0000_0000 * 0x2_0000_0000 * 255) by (nonlinear_arith)
        requires
            0 <= power <= 0x4_0000_0000 * 0x2_0000_0000,
            0 <= nibble <= 255,
    ;
}

/// Every fire term is natural.
proof fn lemma_fire_terms(world: GameWorld, list: Seq<CapitalShipKey>, firing: Seq<ShipSnap>)
    ensures
        forall|k: int| #[trigger] fire_term(world, list, firing)(k) >= 0,
        forall|k: int| #[trigger] ion_term(world, list, firing)(k) >= 0,
{
    assert forall|k: int| #[trigger] fire_term(world, list, firing)(k) >= 0 by {
        lemma_guns(world.capital_ship_classes.at(list[k]));
        lemma_charge(guns(world.capital_ship_classes.at(list[k])), firing[k].weapon_nibble);
    }
    assert forall|k: int| #[trigger] ion_term(world, list, firing)(k) >= 0 by {
        lemma_guns(world.capital_ship_classes.at(list[k]));
        lemma_charge(ion_guns(world.capital_ship_classes.at(list[k])), firing[k].weapon_nibble);
    }
}

/// Multiplies guns by a rating that is at least one.
fn rate(guns: u64, strength: u32) -> (power: u128)
    requires
        guns <= 0x4_0000_0000,
    ensures
        power == guns * rated(strength),
        power <= 0x4_0000_0000 * 0x1_0000_0000,
{
    let rating: u32 = if strength > 1 {
        strength
    } else {
        1
    };
    proof {
        lemma_product(guns as int, rating as int);
    }
    guns as u128 * rating as u128
}

/// A class's fire at full charge: other weapons, and ion cannons.
fn count_guns(class: &CapitalShipClass) -> (power: (u128, u128))
    ensures
        power.0 == guns(*class),
        power.1 == ion_guns(*class),
{
    let turbo: u64 = class.turbolaser_fore as u64 + class.turbolaser_aft as u64
        + class.turbolaser_port as u64 + class.turbolaser_starboard as u64;
    let laser: u64 = class.laser_cannon_fore as u64 + class.laser_cannon_aft as u64
        + class.laser_cannon_port as u64 + class.laser_cannon_starboard as u64;
    let ion: u64 = class.ion_cannon_fore as u64 + class.ion_cannon_aft as u64
        + class.ion_cannon_port as u64 + class.ion_cannon_starboard as u64;
    let t: u128 = rate(turbo, class.turbolaser_attack_strength);
    let l: u128 = rate(laser, class.laser_cannon_attack_strength);
    let n: u128 = rate(ion, class.ion_cannon_attack_strength);
    (t + l, n)
}

impl CombatSystem {
    /// A fleet's fire: other weapons, and ion cannons.
    pub fn fire_power(world: &GameWorld, firing_fleet: FleetKey, firing: &Vec<ShipSnap>) -> (power: (
        i64,
        i64,
    ))
        requires
            world.fleets.has(firing_fleet),
            classes_known(*world, world.fleets.at(firing_fleet)),
            fire_of(*world, world.fleets.at(firing_fleet), firing@) + ion_of(
                *world,
                world.fleets.at(firing_fleet),
                firing@,
            ) <= i64::MAX,
        ensures
            power.0 == fire_of(*world, world.fleets.at(firing_fleet), firing@),
            power.1 == ion_of(*world, world.fleets.at(firing_fleet), firing@),
            power.0 >= 0,
            power.1 >= 0,
    {
        let fleet: &Fleet = world.fleets.at_key(firing_fleet);
        let list: Vec<CapitalShipKey> = list_classes(world, fleet);
        let ghost ff = fire_term(*world, list@, firing@);
        let ghost fi = ion_term(*world, list@, firing@);
        proof {
            lemma_fire_terms(*world, list@, firing@);
        }
        let pairs: usize = if list.len() < firing.len() {
            list.len()
        } else {
            firing.len()
        };
        proof {
            lemma_total_monotone(pairs as nat, pairs as nat, ff);
            lemma_total_monotone(pairs as nat, pairs as nat, fi);
        }
        let mut fire: i64 = 0;
        let mut ion: i64 = 0;
        for k in 0..pairs
            invariant
                pairs <= list@.len(),
                pairs <= firing@.len(),
                ff == fire_term(*world, list@, firing@),
                fi == ion_term(*world, list@, firing@),
                forall|k: int| #[trigger] ff(k) >= 0,
                forall|k: int| #[trigger] fi(k) >= 0,
                forall|k: int|
                    0 <= k < list@.len() ==> world.capital_ship_classes.has(#[trigger] list@[k]),
                total(pairs as nat, ff) + total(pairs as nat, fi) <= i64::MAX,
                total(pairs as nat, ff) >= 0,
                total(pairs as nat, fi) >= 0,
                fire == total(k as nat, ff),
                ion == total(k as nat, fi),
                fire >= 0,
                ion >= 0,
        {
            proof {
                lemma_total_monotone((k + 1) as nat, pairs as nat, ff);
                lemma_total_monotone((k + 1) as nat, pairs as nat, fi);
            }
            if firing[k].alive {
                let class: &CapitalShipClass = world.capital_ship_classes.at_key(list[k]);
                let (other, ions): (u128, u128) = count_guns(class);
                let nibble: u8 = firing[k].weapon_nibble;
                proof {
                    lemma_guns(*class);
                    lemma_charge(guns(*class), nibble);
                    lemma_charge(ion_guns(*class), nibble);
                    assert(ff(k as int) == guns(*class) * nibble / 15);
                    assert(fi(k as int) == ion_guns(*class) * nibble / 15);
                }
                let shot: u128 = other * nibble as u128 / 15;
                let ion_shot: u128 = ions * nibble as u128 / 15;
                fire = fire + shot as i64;
                ion = ion + ion_shot as i64;
            }
        }
        (fire, ion)
    }

    /// The share of a volley that falls on each living target, before the
    /// rolls shift it; none if nobody is left to hit.
    pub fn fire_share(fire: i64, ion: i64, targets: &Vec<ShipSnap>) -> (share: Option<i64>)
        requires
            0 <= fire,
            0 <= ion,
            fire + ion <= i64::MAX,
        ensures
            share == if fire + ion == 0 || !some_alive(targets@) {
                None
            } else {
                Some(fire_each(fire as int, ion as int, alive_count(targets@)) as i64)
            },
            share is Some ==> share->0 == fire_each(fire as int, ion as int, alive_count(targets@)),
            share is Some ==> ({
                let living = tally(targets@.len(), |i: int| targets@[i].alive);
                &&& share->0 * living <= fire + ion
                &&& fire + ion < (share->0 + 2) * living
            }),
    {
        if fire + ion == 0 || !any_alive_snap(targets) {
            return None;
        }
        let n: usize = count_alive(targets);
        proof {
            lemma_alive_positive(targets@);
            assert(fire as int / n as int <= fire) by (nonlinear_arith)
                requires
                    fire >= 0,
                    n > 0,
            ;
            assert(ion as int / n as int <= ion) by (nonlinear_arith)
                requires
                    ion >= 0,
                    n > 0,
            ;
            assert(0 <= fire as int / n as int) by (nonlinear_arith)
                requires
                    fire >= 0,
                    n > 0,
            ;
            assert(0 <= ion as int / n as int) by (nonlinear_arith)
                requires
                    ion >= 0,
                    n > 0,
            ;
        }
        proof {
            let m = n as int;
            assert(m * (fire as int / m) <= fire < m * (fire as int / m) + m) by (nonlinear_arith)
                requires
                    m > 0,
            ;
            assert(m * (ion as int / m) <= ion < m * (ion as int / m) + m) by (nonlinear_arith)
                requires
                    m > 0,
            ;
            let share = fire as int / m + ion as int / m;
            assert(share * m == m * (fire as int / m) + m * (ion as int / m)) by (nonlinear_arith)
                requires
                    share == fire as int / m + ion as int / m,
            ;
            assert((share + 2) * m == share * m + 2 * m) by (nonlinear_arith);
        }
        let a: i128 = fire as i128 / n as i128;
        let b: i128 = ion as i128 / n as i128;
        Some((a + b) as i64)
    }

    /// One fleet fires on the hulls of the other.
    pub fn phase_weapon_fire(
        world: &GameWorld,
        firing_fleet: FleetKey,
        firing: &Vec<ShipSnap>,
        targets: &mut Vec<ShipSnap>,
        spread: &Vec<i64>,
    )
        requires
            world.fleets.has(firing_fleet),
            classes_known(*world, world.fleets.at(firing_fleet)),
            all_wf(old(targets)@),
            ({
                let fire = fire_of(*world, world.fleets.at(firing_fleet), firing@);
                let ion = ion_of(*world, world.fleets.at(firing_fleet), firing@);
                &&& fire + ion <= i64::MAX
                &&& volley_fits(old(targets)@, fire, ion, spread@)
            }),
        ensures
            final(targets)@ == fired_on(
                old(targets)@,
                fire_of(*world, world.fleets.at(firing_fleet), firing@),
                ion_of(*world, world.fleets.at(firing_fleet), firing@),
                spread@,
            ),
            all_wf(final(targets)@),
    {
        let (fire, ion): (i64, i64) = CombatSystem::fire_power(world, firing_fleet, firing);
        let ghost before = targets@;
        let ghost f = fire as int;
        let ghost n = ion as int;
        let each: i64 = match CombatSystem::fire_share(fire, ion, targets) {
            Some(each) => each,
            None => {
                return;
            },
        };
        let whole: i64 = fire + ion;
        let ghost after = fired_on(before, f, n, spread@);
        let mut k: usize = 0;
        let count: usize = targets.len();
        for i in 0..count
            invariant
                count == before.len(),
                targets@.len() == before.len(),
                all_wf(before),
                f == fire,
                n == ion,
                fire >= 0,
                ion >= 0,
                whole == fire + ion,
                whole > 0,
                some_alive(before),
                each == fire_each(f, n, alive_count(before)),
                after == fired_on(before, f, n, spread@),
                volley_fits(before, f, n, spread@),
                k == alive_before(before, i as int),
                k <= i,
                forall|j: int| 0 <= j < i ==> #[trigger] targets@[j] == after[j],
                forall|j: int| 0 <= j < i ==> (#[trigger] targets@[j]).wf(),
                forall|j: int| i <= j < before.len() ==> #[trigger] targets@[j] == before[j],
        {
            let snap: ShipSnap = targets[i];
            assert(snap == before[i as int]);
            assert(before[i as int].wf());
            if snap.alive {
                let shift: i64 = if k < spread.len() {
                    spread[k]
                } else {
                    0
                };
                let shifted: i128 = each as i128 + shift as i128;
                let damage: i128 = if shifted > 0 {
                    shifted
                } else {
                    0
                };
                assert(damage == hit(each as int, spread@, k as nat));
                assert(before[i as int].pending_damage + damage <= i32::MAX);
                proof {
                    lemma_part(damage as int, ion as int, whole as int);
                    assert(damage * ion <= 0x7fff_ffff * 0x7fff_ffff_ffff_ffff) by (nonlinear_arith)
                        requires
                            0 <= damage <= 0x7fff_ffff,
                            0 <= ion <= 0x7fff_ffff_ffff_ffff,
                    ;
                }
                let ion_damage: i128 = damage * ion as i128 / whole as i128;
                targets[i] = ShipSnap {
                    pending_damage: (snap.pending_damage as i128 + damage) as i32,
                    pending_ion_damage: (snap.pending_ion_damage as i128 + ion_damage) as i32,
                    ..snap
                };
                k = k + 1;
            }
        }
        assert(targets@ =~= after);
    }
}

/// A part of a sum is no larger than the whole.
proof fn lemma_part(damage: int, part: int, whole: int)
    requires
        0 <= damage,
        0 <= part <= whole,
        whole > 0,
    ensures
        0 <= damage * part / whole <= damage,
{
    assert(0 <= damage * part <= damage * whole) by (nonlinear_arith)
        requires
            0 <= damage,
            0 <= part <= whole,
    ;
    assert(damage * part / whole <= damage * whole / whole) by (nonlinear_arith)
        requires
            0 <= damage * part <= damage * whole,
            whole > 0,
    ;
    assert(damage * whole / whole == damage) by (nonlinear_arith)
        requires
            whole > 0,
    ;
    assert(0 <= damage * part / whole) by (nonlinear_arith)
        requires
            0 <= damage * part,
            whole > 0,
    ;
}

/// Where a hull is alive, the count of living hulls is positive.
proof fn lemma_alive_positive(ships: Seq<ShipSnap>)
    requires
        some_alive(ships),
    ensures
        alive_count(ships) > 0,
{
    let i = choose|i: int| 0 <= i < ships.len() && (#[trigger] ships[i]).alive;
    lemma_alive_grows(ships, i + 1, ships.len() as int);
}

/// The count of living hulls grows with the list.
proof fn lemma_alive_grows(ships: Seq<ShipSnap>, m: int, n: int)
    requires
        0 <= m <= n,
    ensures
        alive_before(ships, m) <= alive_before(ships, n),
    decreases n,
{
    if m < n {
        lemma_alive_grows(ships, m, n - 1);
    }
}

/// Counts the living hulls.
fn count_alive(ships: &Vec<ShipSnap>) -> (count: usize)
    ensures
        count == alive_count(ships@),
{
    let mut count: usize = 0;
    for i in 0..ships.len()
        invariant
            count <= i,
            count == alive_before(ships@, i as int),
    {
        if ships[i].alive {
            count = count + 1;
        }
    }
    count
}

// ---- The Emperor -----------------------------------------------------------

/// Whether the `i`th character of a fleet is the Emperor.
pub open spec fn is_emperor(world: GameWorld, fleet: Fleet, i: int) -> bool {
    let key = fleet.characters@[i];
    &&& 0 <= i < fleet.characters@.len()
    &&& world.characters.has(key)
    &&& !world.characters.at(key).is_alliance
    &&& mentions(world.characters.at(key).name@, "Palpatine"@) || mentions(
        world.characters.at(key).name@,
        "Emperor"@,
    )
}

/// Whether the Emperor is aboard.
pub open spec fn emperor_aboard(world: GameWorld, fleet: Fleet) -> bool {
    exists|i: int| is_emperor(world, fleet, i)
}

/// Half as much again, rounded down, up to what a pool can hold.
pub open spec fn half_again(damage: i32) -> i32 {
    if damage * 3 / 2 > i32::MAX {
        i32::MAX
    } else {
        (damage * 3 / 2) as i32
    }
}

/// The hulls once the Emperor's presence has spurred on those who fired.
pub open spec fn spurred(ships: Seq<ShipSnap>) -> Seq<ShipSnap> {
    Seq::new(
        ships.len(),
        |i: int|
            ShipSnap {
                pending_damage: half_again(ships[i].pending_damage),
                pending_ion_damage: half_again(ships[i].pending_ion_damage),
                ..ships[i]
            },
    )
}

/// Checks whether the Emperor is aboard.
pub fn find_emperor(world: &GameWorld, fleet: &Fleet) -> (found: bool)
    ensures
        found == emperor_aboard(*world, *fleet),
{
    for i in 0..fleet.characters.len()
        invariant
            forall|j: int| 0 <= j < i ==> !is_emperor(*world, *fleet, j),
    {
        let key: CharacterKey = fleet.characters[i];
        if let Some(c) = world.characters.get(key) {
            if !c.is_alliance && (contains_text(c.name.as_str(), "Palpatine") || contains_text(
                c.name.as_str(),
                "Emperor",
            )) {
                assert(is_emperor(*world, *fleet, i as int));
                return true;
            }
        }
    }
    false
}

/// Half as much again.
fn raise(damage: i32) -> (raised: i32)
    requires
        damage >= 0,
    ensures
        raised == half_again(damage),
{
    let more: i64 = damage as i64 * 3 / 2;
    if more > i32::MAX as i64 {
        i32::MAX
    } else {
        more as i32
    }
}

/// Raises the pending damage of every hull.
pub fn spur(ships: &mut Vec<ShipSnap>)
    requires
        all_wf(old(ships)@),
    ensures
        final(ships)@ == spurred(old(ships)@),
        all_wf(final(ships)@),
{
    let ghost before = ships@;
    let count: usize = ships.len();
    for i in 0..count
        invariant
            count == before.len(),
            ships@.len() == before.len(),
            all_wf(before),
            forall|j: int| 0 <= j < i ==> #[trigger] ships@[j] == spurred(before)[j],
            forall|j: int| 0 <= j < i ==> (#[trigger] ships@[j]).wf(),
            forall|j: int| i <= j < before.len() ==> #[trigger] ships@[j] == before[j],
    {
        let snap: ShipSnap = ships[i];
        assert(snap == before[i as int]);
        assert(before[i as int].wf());
        ships[i] = ShipSnap {
            pending_damage: raise(snap.pending_damage),
            pending_ion_damage: raise(snap.pending_ion_damage),
            ..snap
        };
    }
    assert(ships@ =~= spurred(before));
}

// ---- Shields ---------------------------------------------------------------

/// The shield pool after recharging: so many fifteenths of the maximum more,
/// but never above the maximum.
pub open spec fn recharged(s: ShipSnap) -> int {
    if s.shield_nibble > 0 && s.shield_max > 0 {
        let raised = s.shield_current + s.shield_max * s.shield_nibble / 15;
        if raised < s.shield_max {
            raised
        } else {
            s.shield_max as int
        }
    } else {
        s.shield_current as int
    }
}

/// A hull under fire after its shields have absorbed what they can. Ion damage
/// counts twice against shields; what is absorbed is taken off both kinds of
/// damage in proportion.
pub open spec fn absorbed(s: ShipSnap) -> ShipSnap {
    let pool = recharged(s);
    if !s.alive || s.pending_damage == 0 {
        s
    } else if pool <= 0 {
        ShipSnap { shield_current: pool as i32, ..s }
    } else {
        let force = s.pending_damage + s.pending_ion_damage;
        let taken = if force < pool {
            force
        } else {
            pool
        };
        ShipSnap {
            shield_current: (pool - taken) as i32,
            pending_damage: (s.pending_damage - s.pending_damage * taken / force) as i32,
            pending_ion_damage: (s.pending_ion_damage - s.pending_ion_damage * taken
                / force) as i32,
            ..s
        }
    }
}

/// What is left of a share shrinks in step with what is left of the whole.
proof fn lemma_left(x: int, y: int, taken: int, force: int)
    requires
        0 <= x <= y,
        0 <= taken <= force,
        force > 0,
    ensures
        0 <= x - x * taken / force <= y - y * taken / force,
{
    lemma_part(x, taken, force);
    let d = y - x;
    assert(y * taken == x * taken + d * taken) by (nonlinear_arith)
        requires
            d == y - x,
    ;
    assert(d * taken <= d * force) by (nonlinear_arith)
        requires
            d >= 0,
            0 <= taken <= force,
    ;
    let a = x * taken;
    let b = d * taken;
    assert((a + b) / force <= (a + d * force) / force) by (nonlinear_arith)
        requires
            b <= d * force,
            force > 0,
    ;
    assert((a + d * force) / force == a / force + d) by (nonlinear_arith)
        requires
            force > 0,
    ;
}

/// The recharged pool fits its field.
proof fn lemma_recharge(s: ShipSnap)
    ensures
        i32::MIN <= recharged(s) <= i32::MAX,
        s.shield_max > 0 ==> 0 <= s.shield_max * s.shield_nibble / 15 <= 0x7fff_ffff * 255,
        s.shield_max > 0 ==> 0 <= s.shield_max * s.shield_nibble <= 0x7fff_ffff * 255,
{
    if s.shield_max > 0 {
        let m = s.shield_max as int;
        let n = s.shield_nibble as int;
        assert(0 <= m * n <= 0x7fff_ffff * 255) by (nonlinear_arith)
            requires
                0 <= m <= 0x7fff_ffff,
                0 <= n <= 255,
        ;
    }
}

impl CombatSystem {
    /// Shields absorb pending damage before it reaches the hulls.
    pub fn phase_shield_absorb(ships: &mut Vec<ShipSnap>)
        requires
            all_wf(old(ships)@),
        ensures
            final(ships)@ == Seq::new(old(ships)@.len(), |i: int| absorbed(old(ships)@[i])),
            all_wf(final(ships)@),
    {
        let ghost before = ships@;
        let ghost after = Seq::new(before.len(), |i: int| absorbed(before[i]));
        let count: usize = ships.len();
        for i in 0..count
            invariant
                count == before.len(),
                ships@.len() == before.len(),
                all_wf(before),
                after == Seq::new(before.len(), |i: int| absorbed(before[i])),
                forall|j: int| 0 <= j < i ==> #[trigger] ships@[j] == after[j],
                forall|j: int| 0 <= j < i ==> (#[trigger] ships@[j]).wf(),
                forall|j: int| i <= j < before.len() ==> #[trigger] ships@[j] == before[j],
        {
            let snap: ShipSnap = ships[i];
            assert(snap == before[i as int]);
            assert(before[i as int].wf());
            proof {
                lemma_recharge(snap);
            }
            if snap.alive && snap.pending_damage != 0 {
                let pool: i64 = if snap.shield_nibble > 0 && snap.shield_max > 0 {
                    let raised: i64 = snap.shield_current as i64 + snap.shield_max as i64
                        * snap.shield_nibble as i64 / 15;
                    if raised < snap.shield_max as i64 {
                        raised
                    } else {
                        snap.shield_max as i64
                    }
                } else {
                    snap.shield_current as i64
                };
                if pool <= 0 {
                    ships[i] = ShipSnap { shield_current: pool as i32, ..snap };
                } else {
                    let force: i64 = snap.pending_damage as i64 + snap.pending_ion_damage as i64;
                    let taken: i64 = if force < pool {
                        force
                    } else {
                        pool
                    };
                    proof {
                        let p = snap.pending_damage as int;
                        let q = snap.pending_ion_damage as int;
                        lemma_part(p, taken as int, force as int);
                        lemma_part(q, taken as int, force as int);
                        lemma_left(q, p, taken as int, force as int);
                        assert(0 <= p * taken <= 0x7fff_ffff * 0x7fff_ffff) by (nonlinear_arith)
                            requires
                                0 <= p <= 0x7fff_ffff,
                                0 <= taken <= 0x7fff_ffff,
                        ;
                        assert(0 <= q * taken <= 0x7fff_ffff * 0x7fff_ffff) by (nonlinear_arith)
                            requires
                                0 <= q <= 0x7fff_ffff,
                                0 <= taken <= 0x7fff_ffff,
                        ;
                    }
                    let raw: i64 = snap.pending_damage as i64 * taken / force;
                    let ion: i64 = snap.pending_ion_damage as i64 * taken / force;
                    ships[i] = ShipSnap {
                        shield_current: (pool - taken) as i32,
                        pending_damage: (snap.pending_damage as i64 - raw) as i32,
                        pending_ion_damage: (snap.pending_ion_damage as i64 - ion) as i32,
                        ..snap
                    };
                }
            }
        }
        assert(ships@ =~= after);
    }
}

// ---- Hulls -----------------------------------------------------------------

/// What a blow leaves of a hull.
pub open spec fn hull_left(hull: int, blow: int) -> int {
    if hull - blow > 0 {
        hull - blow
    } else {
        0
    }
}

/// A hull after the pending damage has reached it. `blow` is that damage after
/// the difficulty modifier; every blow counts at least one. A Death Star takes
/// none while its shield generator runs.
pub open spec fn struck(s: ShipSnap, blow: int, generator_runs: bool) -> ShipSnap {
    let left = hull_left(
        s.hull_current as int,
        if blow > 1 {
            blow
        } else {
            1
        },
    );
    if !s.alive || s.pending_damage == 0 {
        s
    } else if s.is_death_star && generator_runs {
        ShipSnap { pending_damage: 0, pending_ion_damage: 0, ..s }
    } else {
        ShipSnap {
            hull_current: left as i32,
            pending_damage: 0,
            pending_ion_damage: 0,
            alive: left != 0,
            ..s
        }
    }
}

/// The `i`th blow: as scaled by the caller, or the pending damage itself.
pub open spec fn blow_at(ships: Seq<ShipSnap>, scaled: Seq<i32>, i: int) -> int {
    if i < scaled.len() {
        scaled[i] as int
    } else {
        ships[i].pending_damage as int
    }
}

impl CombatSystem {
    /// Pending damage reaches the hulls.
    pub fn phase_hull_damage(ships: &mut Vec<ShipSnap>, scaled: &Vec<i32>, ds_shield_active: bool)
        requires
            all_wf(old(ships)@),
        ensures
            final(ships)@ == Seq::new(
                old(ships)@.len(),
                |i: int|
                    struck(old(ships)@[i], blow_at(old(ships)@, scaled@, i), ds_shield_active),
            ),
            all_wf(final(ships)@),
    {
        let ghost before = ships@;
        let ghost after = Seq::new(
            before.len(),
            |i: int| struck(before[i], blow_at(before, scaled@, i), ds_shield_active),
        );
        let count: usize = ships.len();
        for i in 0..count
            invariant
                count == before.len(),
                ships@.len() == before.len(),
                all_wf(before),
                after == Seq::new(
                    before.len(),
                    |i: int| struck(before[i], blow_at(before, scaled@, i), ds_shield_active),
                ),
                forall|j: int| 0 <= j < i ==> #[trigger] ships@[j] == after[j],
                forall|j: int| 0 <= j < i ==> (#[trigger] ships@[j]).wf(),
                forall|j: int| i <= j < before.len() ==> #[trigger] ships@[j] == before[j],
        {
            let snap: ShipSnap = ships[i];
            assert(snap == before[i as int]);
            assert(before[i as int].wf());
            if snap.alive && snap.pending_damage != 0 {
                if snap.is_death_star && ds_shield_active {
                    ships[i] = ShipSnap { pending_damage: 0, pending_ion_damage: 0, ..snap };
                } else {
                    let blow: i32 = if i < scaled.len() {
                        scaled[i]
                    } else {
                        snap.pending_damage
                    };
                    let blow: i64 = if blow > 1 {
                        blow as i64
                    } else {
                        1
                    };
                    let left: i64 = snap.hull_current as i64 - blow;
                    let left: i32 = if left > 0 {
                        left as i32
                    } else {
                        0
                    };
                    ships[i] = ShipSnap {
                        hull_current: left,
                        pending_damage: 0,
                        pending_ion_damage: 0,
                        alive: left != 0,
                        ..snap
                    };
                }
            }
        }
        assert(ships@ =~= after);
    }
}

} // verus!
