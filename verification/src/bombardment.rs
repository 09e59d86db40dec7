//! Orbital bombardment.
//!
//! The force of a strike is the distance between two pairs of numbers: the
//! fleet's bombardment rating and maneuverability, and the system's defense
//! rating and garrison strength. The damage is that distance divided by the
//! bombardment divisor, rounded down.

use crate::dat::Faction;
use crate::ids::{DefenseFacilityKey, FighterKey, FleetKey, SystemKey, TroopKey};
use crate::select::{lemma_total_bounded, lemma_total_but_one, lemma_total_same, total};
use crate::space::classes_known;
use crate::world::{
    class_row, find_class, law_first_row_counts, CapitalShipClass, ControlKind, FighterClass,
    FighterEntry, Fleet, GameWorld, ShipInstance, System,
};
use vstd::prelude::*;

verus! {

/// The table row that holds the bombardment divisor.
pub const GNPRTB_BOMBARDMENT_DIVISOR_PARAM: u16 = 0x1400;

/// The result of one strike.
#[derive(Debug, Clone, Copy, PartialEq, Eq, Structural)]
pub struct BombardmentResult {
    pub system: SystemKey,
    /// Zero when a side would strike its own system or has no net force;
    /// otherwise at least one.
    pub damage: i32,
    pub tick: u64,
}

/// Orbital bombardment.
pub struct BombardmentSystem;

/// Bombardment rating of the `i`th ship, if it is alive.
pub open spec fn ship_rating(world: GameWorld, fleet: Fleet) -> spec_fn(int) -> int {
    |i: int|
        {
            let ship = fleet.capital_ships@[i];
            if ship.alive {
                (world.capital_ship_classes.at(ship.class).bombardment_modifier as i32) as int
            } else {
                0
            }
        }
}

/// Maneuverability of the `i`th ship, if it is alive.
pub open spec fn ship_agility(world: GameWorld, fleet: Fleet) -> spec_fn(int) -> int {
    |i: int|
        {
            let ship = fleet.capital_ships@[i];
            if ship.alive {
                (world.capital_ship_classes.at(ship.class).maneuverability as i32) as int
            } else {
                0
            }
        }
}

/// Bomber rating of the `i`th fighter group.
pub open spec fn bomber_rating(world: GameWorld, fleet: Fleet) -> spec_fn(int) -> int {
    |i: int|
        {
            let group = fleet.fighters@[i];
            ((world.fighter_classes.at(group.class).bombardment_defense as i32) as int) * ((
            group.count as i32) as int)
        }
}

/// A fleet's bombardment rating and maneuverability.
pub open spec fn attack_stats(world: GameWorld, fleet: Fleet) -> (int, int) {
    (
        total(fleet.capital_ships@.len(), ship_rating(world, fleet)) + total(
            fleet.fighters@.len(),
            bomber_rating(world, fleet),
        ),
        total(fleet.capital_ships@.len(), ship_agility(world, fleet)),
    )
}

/// Defense rating of the `i`th facility; ten where its class is not known.
pub open spec fn facility_rating(world: GameWorld, sys: System) -> spec_fn(int) -> int {
    |i: int|
        {
            let key = sys.defense_facilities@[i];
            if world.defense_facilities.has(key) {
                match class_row(
                    world.defense_facility_classes@,
                    0,
                    world.defense_facilities.at(key).class_dat_id,
                ) {
                    Some(class) => class.bombardment_defense as int,
                    None => 10,
                }
            } else {
                0
            }
        }
}

/// Strength of the `i`th regiment.
pub open spec fn regiment_rating(world: GameWorld, sys: System) -> spec_fn(int) -> int {
    |i: int| world.troops.at(sys.ground_units@[i]).regiment_strength as int
}

/// A system's defense rating and garrison strength.
pub open spec fn defense_stats(world: GameWorld, sys: System) -> (int, int) {
    (
        total(sys.defense_facilities@.len(), facility_rating(world, sys)),
        total(sys.ground_units@.len(), regiment_rating(world, sys)),
    )
}

/// Whether a pair of ratings fits 32-bit fields.
pub open spec fn pair_fits(pair: (int, int)) -> bool {
    i32::MIN <= pair.0 <= i32::MAX && i32::MIN <= pair.1 <= i32::MAX
}

/// The square of the force of a strike.
pub open spec fn force_squared(attack: (int, int), defense: (int, int)) -> int {
    (attack.0 - defense.0) * (attack.0 - defense.0) + (attack.1 - defense.1) * (attack.1
        - defense.1)
}

/// Whether `quotient` is the square root of `squared` divided by `divisor`,
/// rounded down.
pub open spec fn root_over(squared: int, divisor: int, quotient: int) -> bool {
    &&& 0 <= quotient
    &&& (quotient * divisor) * (quotient * divisor) <= squared
    &&& squared < ((quotient + 1) * divisor) * ((quotient + 1) * divisor)
}

/// Whether a fleet would strike its own side's system.
pub open spec fn own_system(fleet: Fleet, sys: System) -> bool {
    if fleet.is_alliance {
        sys.control == ControlKind::Controlled(Faction::Alliance)
    } else {
        sys.control == ControlKind::Controlled(Faction::Empire)
    }
}

/// The divisor for a difficulty, at least one.
pub open spec fn divisor_of(world: GameWorld, difficulty: u8) -> int {
    let value = world.gnprtb.value_spec(GNPRTB_BOMBARDMENT_DIVISOR_PARAM, difficulty);
    if value > 1 {
        value as int
    } else {
        1
    }
}

/// Whether `damage` is the damage of a strike: none against a friendly system
/// or without force, else the force over the divisor rounded down, at least
/// one and at most what the field holds.
pub open spec fn strike_damage(
    world: GameWorld,
    fleet: Fleet,
    sys: System,
    difficulty: u8,
    damage: int,
) -> bool {
    let squared = force_squared(attack_stats(world, fleet), defense_stats(world, sys));
    if own_system(fleet, sys) || squared == 0 {
        damage == 0
    } else {
        exists|q: int| #[trigger]
            root_over(squared, divisor_of(world, difficulty), q) && damage == if q < 1 {
                1
            } else if q > i32::MAX {
                i32::MAX as int
            } else {
                q
            }
    }
}

/// A sum of bounded ratings fits wide arithmetic, either way.
proof fn lemma_wide(n: nat, f: spec_fn(int) -> int, bound: int)
    requires
        n <= usize::MAX,
        0 <= bound <= 0x4000_0000_0000_0000,
        forall|i: int| 0 - bound <= #[trigger] f(i) <= bound,
    ensures
        -0x4000_0000_0000_0000_0000_0000_0000_0000 <= total(n, f)
            <= 0x4000_0000_0000_0000_0000_0000_0000_0000,
{
    lemma_total_bounded(n, f, bound);
    let g = |i: int| 0 - f(i);
    assert forall|i: int| #[trigger] g(i) <= bound by {
        assert(f(i) >= 0 - bound);
    }
    lemma_total_bounded(n, g, bound);
    lemma_negated(n, f, g);
    assert(n * bound <= 0xffff_ffff_ffff_ffff * 0x4000_0000_0000_0000) by (nonlinear_arith)
        requires
            0 <= n <= 0xffff_ffff_ffff_ffff,
            0 <= bound <= 0x4000_0000_0000_0000,
    ;
}

/// Negating every term negates the sum.
proof fn lemma_negated(n: nat, f: spec_fn(int) -> int, g: spec_fn(int) -> int)
    requires
        forall|i: int| #[trigger] g(i) == 0 - f(i),
    ensures
        total(n, g) == 0 - total(n, f),
    decreases n,
{
    if n > 0 {
        lemma_negated((n - 1) as nat, f, g);
    }
}

/// A product of two 32-bit ratings.
proof fn lemma_rating_product(a: int, b: int)
    requires
        -0x8000_0000 <= a <= 0x8000_0000,
        -0x8000_0000 <= b <= 0x8000_0000,
    ensures
        -0x4000_0000_0000_0000 <= a * b <= 0x4000_0000_0000_0000,
{
    assert(-0x4000_0000_0000_0000 <= a * b <= 0x4000_0000_0000_0000) by (nonlinear_arith)
        requires
            -0x8000_0000 <= a <= 0x8000_0000,
            -0x8000_0000 <= b <= 0x8000_0000,
    ;
}

/// Finds the square root of `squared` divided by `divisor`, rounded down.
fn divide_root(squared: u128, divisor: u128) -> (quotient: u128)
    requires
        squared < 0x2_0000_0000 * 0x2_0000_0000,
        1 <= divisor <= 0x8000_0000,
    ensures
        root_over(squared as int, divisor as int, quotient as int),
        quotient < 0x2_0000_0000,
{
    let mut low: u128 = 0;
    let mut high: u128 = 0x2_0000_0000;
    proof {
        let d = divisor as int;
        assert(0x2_0000_0000 * 0x2_0000_0000 <= (0x2_0000_0000 * d) * (0x2_0000_0000 * d))
            by (nonlinear_arith)
            requires
                1 <= d,
        ;
        assert((0 * d) * (0 * d) == 0) by (nonlinear_arith);
    }
    while high - low > 1
        invariant
            low < high <= 0x2_0000_0000,
            1 <= divisor <= 0x8000_0000,
            (low * divisor) * (low * divisor) <= squared,
            squared < (high * divisor) * (high * divisor),
        decreases high - low,
    {
        let middle: u128 = low + (high - low) / 2;
        let m: u128 = middle;
        assert(0 <= m * divisor <= 0x1_ffff_ffff * 0x8000_0000) by (nonlinear_arith)
            requires
                0 <= m <= 0x1_ffff_ffff,
                1 <= divisor <= 0x8000_0000,
        ;
        let scaled: u128 = middle * divisor;
        assert(0 <= scaled * scaled <= (0x1_ffff_ffff * 0x8000_0000) * (0x1_ffff_ffff
            * 0x8000_0000)) by (nonlinear_arith)
            requires
                0 <= scaled <= 0x1_ffff_ffff * 0x8000_0000,
        ;
        if scaled * scaled <= squared {
            low = middle;
        } else {
            high = middle;
        }
    }
    assert(high == low + 1);
    low
}

/// The square root over a divisor, rounded down, is unique.
pub proof fn law_root_is_unique(squared: int, divisor: int, a: int, b: int)
    requires
        divisor > 0,
        root_over(squared, divisor, a),
        root_over(squared, divisor, b),
    ensures
        a == b,
{
    if a < b {
        lemma_root_order(divisor, a + 1, b);
    } else if b < a {
        lemma_root_order(divisor, b + 1, a);
    }
}

/// Larger quotients have larger squares.
proof fn lemma_root_order(divisor: int, a: int, b: int)
    requires
        divisor > 0,
        0 <= a <= b,
    ensures
        (a * divisor) * (a * divisor) <= (b * divisor) * (b * divisor),
{
    assert(0 <= a * divisor <= b * divisor) by (nonlinear_arith)
        requires
            divisor > 0,
            0 <= a <= b,
    ;
    let x = a * divisor;
    let y = b * divisor;
    assert(x * x <= y * y) by (nonlinear_arith)
        requires
            0 <= x <= y,
    ;
}

impl BombardmentSystem {
    /// A fleet's bombardment rating and maneuverability.
    pub fn fleet_bombardment_stats(world: &GameWorld, fleet: FleetKey) -> (stats: (i32, i32))
        requires
            world.fleets.has(fleet),
            classes_known(*world, world.fleets.at(fleet)),
            pair_fits(attack_stats(*world, world.fleets.at(fleet))),
        ensures
            (stats.0 as int, stats.1 as int) == attack_stats(*world, world.fleets.at(fleet)),
    {
        let f: &Fleet = world.fleets.at_key(fleet);
        let ghost fr = ship_rating(*world, *f);
        let ghost fa = ship_agility(*world, *f);
        let ghost fb = bomber_rating(*world, *f);
        let mut rating: i128 = 0;
        let mut agility: i128 = 0;
        for i in 0..f.capital_ships.len()
            invariant
                classes_known(*world, *f),
                fr == ship_rating(*world, *f),
                fa == ship_agility(*world, *f),
                forall|i: int| 0 - 0x8000_0000 <= #[trigger] fr(i) <= 0x8000_0000,
                forall|i: int| 0 - 0x8000_0000 <= #[trigger] fa(i) <= 0x8000_0000,
                rating == total(i as nat, fr),
                agility == total(i as nat, fa),
        {
            proof {
                lemma_wide(i as nat, fr, 0x8000_0000);
                lemma_wide(i as nat, fa, 0x8000_0000);
                lemma_wide((i + 1) as nat, fr, 0x8000_0000);
                lemma_wide((i + 1) as nat, fa, 0x8000_0000);
            }
            if f.capital_ships[i].alive {
                assert(f.capital_ships@[i as int].alive);
                let class: &CapitalShipClass = world.capital_ship_classes.at_key(
                    f.capital_ships[i].class,
                );
                assert(fr(i as int) == (class.bombardment_modifier as i32) as int);
                assert(fa(i as int) == (class.maneuverability as i32) as int);
                rating = rating + (class.bombardment_modifier as i32) as i128;
                agility = agility + (class.maneuverability as i32) as i128;
            }
        }
        let ghost ships = rating;
        let mut bombers: i128 = 0;
        assert forall|i: int| 0 - 0x4000_0000_0000_0000 <= #[trigger] fb(i)
            <= 0x4000_0000_0000_0000 by {
            let group = f.fighters@[i];
            lemma_rating_product(
                (world.fighter_classes.at(group.class).bombardment_defense as i32) as int,
                (group.count as i32) as int,
            );
        }
        for i in 0..f.fighters.len()
            invariant
                classes_known(*world, *f),
                fb == bomber_rating(*world, *f),
                forall|i: int|
                    0 - 0x4000_0000_0000_0000 <= #[trigger] fb(i) <= 0x4000_0000_0000_0000,
                bombers == total(i as nat, fb),
        {
            proof {
                lemma_wide(i as nat, fb, 0x4000_0000_0000_0000);
                lemma_wide((i + 1) as nat, fb, 0x4000_0000_0000_0000);
            }
            let class: &FighterClass = world.fighter_classes.at_key(f.fighters[i].class);
            let a: i32 = class.bombardment_defense as i32;
            let b: i32 = f.fighters[i].count as i32;
            proof {
                lemma_rating_product(a as int, b as int);
                assert(fb(i as int) == a * b);
            }
            bombers = bombers + a as i128 * b as i128;
        }
        proof {
            lemma_wide(f.capital_ships@.len(), fr, 0x8000_0000);
            lemma_wide(f.fighters@.len(), fb, 0x4000_0000_0000_0000);
        }
        ((rating + bombers) as i32, agility as i32)
    }

    /// A system's defense rating and garrison strength.
    pub fn system_bombardment_defense(world: &GameWorld, system: SystemKey) -> (stats: (i32, i32))
        requires
            world.systems.has(system),
            crate::ground::garrison_known(*world, world.systems.at(system)),
            pair_fits(defense_stats(*world, world.systems.at(system))),
        ensures
            (stats.0 as int, stats.1 as int) == defense_stats(*world, world.systems.at(system)),
    {
        let sys: &System = world.systems.at_key(system);
        let ghost ff = facility_rating(*world, *sys);
        let ghost ft = regiment_rating(*world, *sys);
        let mut defense: i128 = 0;
        for i in 0..sys.defense_facilities.len()
            invariant
                ff == facility_rating(*world, *sys),
                forall|i: int| 0 - 0x8000_0000 <= #[trigger] ff(i) <= 0x8000_0000,
                defense == total(i as nat, ff),
        {
            proof {
                lemma_wide(i as nat, ff, 0x8000_0000);
                lemma_wide((i + 1) as nat, ff, 0x8000_0000);
            }
            let key: DefenseFacilityKey = sys.defense_facilities[i];
            if let Some(facility) = world.defense_facilities.get(key) {
                let rating: i32 = match find_class(
                    &world.defense_facility_classes,
                    facility.class_dat_id,
                ) {
                    Some(class) => class.bombardment_defense,
                    None => 10,
                };
                assert(ff(i as int) == rating);
                defense = defense + rating as i128;
            }
        }
        let mut strength: i128 = 0;
        for i in 0..sys.ground_units.len()
            invariant
                crate::ground::garrison_known(*world, *sys),
                ft == regiment_rating(*world, *sys),
                forall|i: int| 0 - 0x8000_0000 <= #[trigger] ft(i) <= 0x8000_0000,
                strength == total(i as nat, ft),
        {
            proof {
                lemma_wide(i as nat, ft, 0x8000_0000);
                lemma_wide((i + 1) as nat, ft, 0x8000_0000);
            }
            let key: TroopKey = sys.ground_units[i];
            strength = strength + world.troops.at_key(key).regiment_strength as i128;
        }
        (defense as i32, strength as i32)
    }

    /// Resolves one strike of a fleet against a system. The world is left alone.
    pub fn resolve_bombardment(
        world: &GameWorld,
        attacker_fleet: FleetKey,
        system: SystemKey,
        difficulty: u8,
        tick: u64,
    ) -> (result: BombardmentResult)
        requires
            world.fleets.has(attacker_fleet),
            world.systems.has(system),
            !own_system(world.fleets.at(attacker_fleet), world.systems.at(system)) ==> {
                &&& classes_known(*world, world.fleets.at(attacker_fleet))
                &&& crate::ground::garrison_known(*world, world.systems.at(system))
                &&& pair_fits(attack_stats(*world, world.fleets.at(attacker_fleet)))
                &&& pair_fits(defense_stats(*world, world.systems.at(system)))
            },
        ensures
            result.system == system,
            result.tick == tick,
            strike_damage(
                *world,
                world.fleets.at(attacker_fleet),
                world.systems.at(system),
                difficulty,
                result.damage as int,
            ),
    {
        let fleet: &Fleet = world.fleets.at_key(attacker_fleet);
        let sys: &System = world.systems.at_key(system);
        let own: bool = if fleet.is_alliance {
            sys.control.is_controlled_by(Faction::Alliance)
        } else {
            sys.control.is_controlled_by(Faction::Empire)
        };
        if own {
            return BombardmentResult { system, damage: 0, tick };
        }
        let attack: (i32, i32) = BombardmentSystem::fleet_bombardment_stats(world, attacker_fleet);
        let defense: (i32, i32) = BombardmentSystem::system_bombardment_defense(world, system);
        let dx: i128 = attack.0 as i128 - defense.0 as i128;
        let dy: i128 = attack.1 as i128 - defense.1 as i128;
        proof {
            lemma_square(dx as int);
            lemma_square(dy as int);
        }
        let squared: i128 = dx * dx + dy * dy;
        let ghost force = force_squared(
            attack_stats(*world, *fleet),
            defense_stats(*world, *sys),
        );
        assert(squared == force);
        if squared == 0 {
            return BombardmentResult { system, damage: 0, tick };
        }
        let value: i32 = world.gnprtb.value(GNPRTB_BOMBARDMENT_DIVISOR_PARAM, difficulty);
        let divisor: u128 = if value > 1 {
            value as u128
        } else {
            1
        };
        let quotient: u128 = divide_root(squared as u128, divisor);
        assert(root_over(force, divisor_of(*world, difficulty), quotient as int));
        let damage: i32 = if quotient < 1 {
            1
        } else if quotient > i32::MAX as u128 {
            i32::MAX
        } else {
            quotient as i32
        };
        BombardmentResult { system, damage, tick }
    }
}

/// The square of a difference of two 32-bit numbers.
proof fn lemma_square(d: int)
    requires
        -0xffff_ffff <= d <= 0xffff_ffff,
    ensures
        0 <= d * d <= 0xffff_ffff * 0xffff_ffff,
{
    assert(0 <= d * d <= 0xffff_ffff * 0xffff_ffff) by (nonlinear_arith)
        requires
            -0xffff_ffff <= d <= 0xffff_ffff,
    ;
}

/// No side damages its own system, and a strike with any net force against
/// another system does at least one point of damage.
pub proof fn law_strike_bounds(
    world: GameWorld,
    fleet: Fleet,
    sys: System,
    difficulty: u8,
    damage: int,
)
    requires
        strike_damage(world, fleet, sys, difficulty, damage),
    ensures
        own_system(fleet, sys) ==> damage == 0,
        !own_system(fleet, sys) && attack_stats(world, fleet) != defense_stats(world, sys)
            ==> damage >= 1,
        0 <= damage <= i32::MAX,
{
    let a = attack_stats(world, fleet);
    let d = defense_stats(world, sys);
    if !own_system(fleet, sys) && a != d {
        let dx = a.0 - d.0;
        let dy = a.1 - d.1;
        assert(dx != 0 || dy != 0);
        assert(dx * dx + dy * dy > 0) by (nonlinear_arith)
            requires
                dx != 0 || dy != 0,
        ;
    }
}

/// One strike has one damage: two results for the same strike agree.
pub proof fn law_strike_is_determined(
    world: GameWorld,
    fleet: Fleet,
    sys: System,
    difficulty: u8,
    a: int,
    b: int,
)
    requires
        strike_damage(world, fleet, sys, difficulty, a),
        strike_damage(world, fleet, sys, difficulty, b),
    ensures
        a == b,
{
    let squared = force_squared(attack_stats(world, fleet), defense_stats(world, sys));
    let divisor = divisor_of(world, difficulty);
    if !own_system(fleet, sys) && squared != 0 {
        let p = choose|q: int| #[trigger]
            root_over(squared, divisor, q) && a == if q < 1 {
                1
            } else if q > i32::MAX {
                i32::MAX as int
            } else {
                q
            };
        let r = choose|q: int| #[trigger]
            root_over(squared, divisor, q) && b == if q < 1 {
                1
            } else if q > i32::MAX {
                i32::MAX as int
            } else {
                q
            };
        law_root_is_unique(squared, divisor, p, r);
    }
}

/// More net force never does less damage.
pub proof fn law_force_never_hurts_less(weaker: int, stronger: int, divisor: int, a: int, b: int)
    requires
        divisor > 0,
        weaker <= stronger,
        root_over(weaker, divisor, a),
        root_over(stronger, divisor, b),
    ensures
        a <= b,
{
    if b < a {
        lemma_root_order(divisor, b + 1, a);
    }
}

// ---- What every part of a fleet and a garrison adds ------------------------

/// A fleet without ships and fighters has no force to bombard with.
pub proof fn law_an_empty_fleet_has_no_force(world: GameWorld, fleet: Fleet)
    requires
        fleet.capital_ships@.len() == 0,
        fleet.fighters@.len() == 0,
    ensures
        attack_stats(world, fleet) == (0int, 0int),
{
}

/// One capital ship more adds the bombardment rating and the maneuverability
/// of its class; a wreck adds nothing.
pub proof fn law_another_ship(world: GameWorld, fleet: Fleet, larger: Fleet, ship: ShipInstance)
    requires
        larger.capital_ships@ == fleet.capital_ships@.push(ship),
        larger.fighters@ == fleet.fighters@,
    ensures
        ({
            let class = world.capital_ship_classes.at(ship.class);
            let before = attack_stats(world, fleet);
            let after = attack_stats(world, larger);
            &&& ship.alive ==> after.0 - before.0 == class.bombardment_modifier as i32 && after.1
                - before.1 == class.maneuverability as i32
            &&& !ship.alive ==> after == before
        }),
{
    let n = fleet.capital_ships@.len();
    lemma_total_same(n, ship_rating(world, fleet), ship_rating(world, larger));
    lemma_total_same(n, ship_agility(world, fleet), ship_agility(world, larger));
    lemma_total_same(
        fleet.fighters@.len(),
        bomber_rating(world, fleet),
        bomber_rating(world, larger),
    );
}

/// One squadron more in a group adds the bomber rating of its class, once, and
/// changes nothing else.
pub proof fn law_another_squadron(world: GameWorld, fleet: Fleet, larger: Fleet, i: int)
    requires
        0 <= i < fleet.fighters@.len(),
        fleet.fighters@[i].count < i32::MAX,
        larger.capital_ships@ == fleet.capital_ships@,
        larger.fighters@ == fleet.fighters@.update(
            i,
            FighterEntry {
                count: (fleet.fighters@[i].count + 1) as u32,
                ..fleet.fighters@[i]
            },
        ),
    ensures
        attack_stats(world, larger).0 - attack_stats(world, fleet).0 == world.fighter_classes.at(
            fleet.fighters@[i].class,
        ).bombardment_defense as i32,
        attack_stats(world, larger).1 == attack_stats(world, fleet).1,
{
    let n = fleet.fighters@.len();
    let f = bomber_rating(world, fleet);
    let g = bomber_rating(world, larger);
    let ships = fleet.capital_ships@.len();
    lemma_total_same(ships, ship_rating(world, fleet), ship_rating(world, larger));
    lemma_total_same(ships, ship_agility(world, fleet), ship_agility(world, larger));
    lemma_total_but_one(n, f, g, i);
    let rating = (world.fighter_classes.at(fleet.fighters@[i].class).bombardment_defense
        as i32) as int;
    let count = fleet.fighters@[i].count as int;
    assert(rating * (count + 1) == rating * count + rating) by (nonlinear_arith);
}

/// A group without squadrons adds nothing, and one with a single squadron adds
/// the bomber rating of its class.
pub proof fn law_another_group(world: GameWorld, fleet: Fleet, larger: Fleet, group: FighterEntry)
    requires
        larger.capital_ships@ == fleet.capital_ships@,
        larger.fighters@ == fleet.fighters@.push(group),
    ensures
        group.count == 0 ==> attack_stats(world, larger) == attack_stats(world, fleet),
        group.count == 1 ==> attack_stats(world, larger).0 - attack_stats(world, fleet).0
            == world.fighter_classes.at(group.class).bombardment_defense as i32,
        attack_stats(world, larger).1 == attack_stats(world, fleet).1,
{
    let n = fleet.fighters@.len();
    let ships = fleet.capital_ships@.len();
    lemma_total_same(ships, ship_rating(world, fleet), ship_rating(world, larger));
    lemma_total_same(ships, ship_agility(world, fleet), ship_agility(world, larger));
    lemma_total_same(n, bomber_rating(world, fleet), bomber_rating(world, larger));
    let rating = (world.fighter_classes.at(group.class).bombardment_defense as i32) as int;
    assert(rating * 0 == 0 && rating * 1 == rating) by (nonlinear_arith);
}

/// A group of many squadrons rates as much as as many groups of one.
pub proof fn law_groups_rate_by_squadrons(
    world: GameWorld,
    fleet: Fleet,
    one_group: Fleet,
    many_groups: Fleet,
    class: FighterKey,
    count: u32,
)
    requires
        count <= i32::MAX,
        one_group.capital_ships@ == fleet.capital_ships@,
        many_groups.capital_ships@ == fleet.capital_ships@,
        one_group.fighters@ == fleet.fighters@.push(FighterEntry { class, count }),
        many_groups.fighters@ == fleet.fighters@ + Seq::new(
            count as nat,
            |i: int| FighterEntry { class, count: 1 },
        ),
    ensures
        attack_stats(world, one_group) == attack_stats(world, many_groups),
{
    let n = fleet.fighters@.len();
    let ships = fleet.capital_ships@.len();
    let f = bomber_rating(world, one_group);
    let g = bomber_rating(world, many_groups);
    lemma_total_same(ships, ship_rating(world, one_group), ship_rating(world, many_groups));
    lemma_total_same(ships, ship_agility(world, one_group), ship_agility(world, many_groups));
    lemma_total_same(n, f, g);
    let rating = (world.fighter_classes.at(class).bombardment_defense as i32) as int;
    assert forall|i: int| n <= i < n + count implies #[trigger] g(i) == rating by {
        assert(many_groups.fighters@[i] == (FighterEntry { class, count: 1 }));
        assert(rating * 1 == rating) by (nonlinear_arith);
    }
    lemma_level(n, count as nat, g, rating);
}

/// Terms that are all alike add up to a multiple.
proof fn lemma_level(start: nat, count: nat, f: spec_fn(int) -> int, value: int)
    requires
        forall|i: int| start <= i < start + count ==> #[trigger] f(i) == value,
    ensures
        total(start + count, f) == total(start, f) + value * count,
    decreases count,
{
    if count > 0 {
        lemma_level(start, (count - 1) as nat, f, value);
        assert(value * (count - 1) + value == value * count) by (nonlinear_arith);
    } else {
        assert(value * 0 == 0) by (nonlinear_arith);
    }
}

/// A system with neither facilities nor regiments has no defense.
pub proof fn law_an_empty_system_has_no_defense(world: GameWorld, sys: System)
    requires
        sys.defense_facilities@.len() == 0,
        sys.ground_units@.len() == 0,
    ensures
        defense_stats(world, sys) == (0int, 0int),
{
}

/// One facility more adds the rating of its class, or ten where the class is
/// not known; a name that no facility bears adds nothing. `row` is the first
/// row of the table for the class, past its end if there is none.
pub proof fn law_another_facility(
    world: GameWorld,
    sys: System,
    larger: System,
    key: DefenseFacilityKey,
    row: int,
)
    requires
        larger.defense_facilities@ == sys.defense_facilities@.push(key),
        larger.ground_units@ == sys.ground_units@,
        0 <= row <= world.defense_facility_classes@.len(),
        forall|j: int|
            0 <= j < row ==> (#[trigger] world.defense_facility_classes@[j]).0
                != world.defense_facilities.at(key).class_dat_id,
        row < world.defense_facility_classes@.len() ==> world.defense_facility_classes@[row].0
            == world.defense_facilities.at(key).class_dat_id,
    ensures
        ({
            let before = defense_stats(world, sys);
            let after = defense_stats(world, larger);
            let rows = world.defense_facility_classes@;
            &&& after.1 == before.1
            &&& !world.defense_facilities.has(key) ==> after.0 == before.0
            &&& world.defense_facilities.has(key) && row < rows.len() ==> after.0 - before.0
                == rows[row].1.bombardment_defense
            &&& world.defense_facilities.has(key) && row == rows.len() ==> after.0 - before.0 == 10
        }),
{
    let n = sys.defense_facilities@.len();
    lemma_total_same(n, facility_rating(world, sys), facility_rating(world, larger));
    lemma_total_same(
        sys.ground_units@.len(),
        regiment_rating(world, sys),
        regiment_rating(world, larger),
    );
    law_first_row_counts(
        world.defense_facility_classes@,
        world.defense_facilities.at(key).class_dat_id,
        row,
    );
}

/// One regiment more adds its strength to the garrison and nothing else.
pub proof fn law_another_regiment(world: GameWorld, sys: System, larger: System, key: TroopKey)
    requires
        larger.defense_facilities@ == sys.defense_facilities@,
        larger.ground_units@ == sys.ground_units@.push(key),
    ensures
        defense_stats(world, larger).0 == defense_stats(world, sys).0,
        defense_stats(world, larger).1 - defense_stats(world, sys).1 == world.troops.at(
            key,
        ).regiment_strength,
{
    lemma_total_same(
        sys.defense_facilities@.len(),
        facility_rating(world, sys),
        facility_rating(world, larger),
    );
    lemma_total_same(
        sys.ground_units@.len(),
        regiment_rating(world, sys),
        regiment_rating(world, larger),
    );
}

/// The damage of a strike on anybody else's system, times the divisor, is the
/// distance between the two pairs of ratings, short of one more point. The
/// divisor is the table's value for the difficulty, one where that is less.
/// A fleet does no damage to a system that its own side holds.
pub proof fn law_damage_measures_the_force(
    world: GameWorld,
    fleet: Fleet,
    sys: System,
    difficulty: u8,
    damage: int,
)
    requires
        strike_damage(world, fleet, sys, difficulty, damage),
    ensures
        ({
            let a = attack_stats(world, fleet);
            let d = defense_stats(world, sys);
            let squared = (a.0 - d.0) * (a.0 - d.0) + (a.1 - d.1) * (a.1 - d.1);
            let value = world.gnprtb.value_spec(0x1400, difficulty);
            let divisor: int = if value < 1 {
                1
            } else {
                value as int
            };
            let friendly = match sys.control {
                ControlKind::Controlled(Faction::Alliance) => fleet.is_alliance,
                ControlKind::Controlled(Faction::Empire) => !fleet.is_alliance,
                _ => false,
            };
            &&& friendly || a == d <==> damage == 0
            &&& !friendly && a != d ==> {
                &&& 1 <= damage <= i32::MAX
                &&& damage > 1 ==> (damage * divisor) * (damage * divisor) <= squared
                &&& damage < i32::MAX ==> squared < ((damage + 1) * divisor) * ((damage + 1)
                    * divisor)
            }
        }),
{
    law_strike_bounds(world, fleet, sys, difficulty, damage);
    let a = attack_stats(world, fleet);
    let d = defense_stats(world, sys);
    let squared = force_squared(a, d);
    let divisor = divisor_of(world, difficulty);
    if !own_system(fleet, sys) && a != d {
        let dx = a.0 - d.0;
        let dy = a.1 - d.1;
        assert(dx * dx + dy * dy > 0) by (nonlinear_arith)
            requires
                dx != 0 || dy != 0,
        ;
        let q = choose|q: int| #[trigger]
            root_over(squared, divisor, q) && damage == if q < 1 {
                1
            } else if q > i32::MAX {
                i32::MAX as int
            } else {
                q
            };
        assert(root_over(squared, divisor, q));
        if q > damage {
            lemma_root_order(divisor, damage, q);
        } else if q < damage {
            lemma_root_order(divisor, q + 1, damage + 1);
        }
    }
    if a == d {
        let dx = a.0 - d.0;
        let dy = a.1 - d.1;
        assert(dx * dx + dy * dy == 0) by (nonlinear_arith)
            requires
                dx == 0,
                dy == 0,
        ;
    }
}

} // verus!
