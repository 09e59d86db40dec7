//! Ground battles.
//!
//! Every attacking regiment meets every defending one once, in order. How an
//! exchange turns out is worked out by the caller from the ratings that this
//! module hands out; who is still standing, what it costs and who wins is
//! settled here.

use crate::combat::{
    decide, winner_of, CombatSide, CombatSystem, GroundCombatResult, TroopDamageEvent,
};
use crate::fire_laws::{lemma_count_witness, lemma_counted};
use crate::ids::{CharacterKey, DefenseFacilityKey, FleetKey, SystemKey, TroopKey};
use crate::select::{
    collect, gives, lemma_collect_covers, lemma_total_bounded, lemma_total_monotone, tally, total,
};
use crate::world::{
    class_row, find_class, law_first_row_counts, Fleet, GameWorld, System, TroopClassDef,
};
use vstd::prelude::*;

verus! {

/// How one regiment's attack on another turns out.
#[derive(Debug, Clone, Copy, PartialEq, Eq, Structural)]
pub enum Exchange {
    /// Neither side has any power.
    Void,
    /// The attacker hits for so much.
    Hit(i16),
    /// The defender strikes back for so much.
    Counter(i16),
}

/// Whether every regiment on the ground is alive.
pub open spec fn garrison_known(world: GameWorld, sys: System) -> bool {
    forall|i: int|
        0 <= i < sys.ground_units@.len() ==> world.troops.has(#[trigger] sys.ground_units@[i])
}

/// The `i`th regiment, if it is of the side and has any strength.
pub open spec fn fit_troop(world: GameWorld, sys: System, side: bool) -> spec_fn(int) -> Option<
    TroopKey,
> {
    |i: int|
        {
            let key = sys.ground_units@[i];
            if world.troops.at(key).is_alliance == side && world.troops.at(key).regiment_strength
                > 0 {
                Some(key)
            } else {
                None
            }
        }
}

/// A side's regiments with any strength.
pub open spec fn fit_troops(world: GameWorld, sys: System, side: bool) -> Seq<TroopKey> {
    collect(sys.ground_units@.len(), fit_troop(world, sys, side))
}

/// The last event of the first `n` that concerns a regiment.
pub open spec fn last_event(events: Seq<TroopDamageEvent>, troop: TroopKey, n: nat) -> Option<
    TroopDamageEvent,
>
    decreases n,
{
    if n == 0 {
        None
    } else if events[n - 1].troop == troop {
        Some(events[n - 1])
    } else {
        last_event(events, troop, (n - 1) as nat)
    }
}

/// A regiment's strength after some events.
pub open spec fn strength_now(
    world: GameWorld,
    events: Seq<TroopDamageEvent>,
    troop: TroopKey,
) -> i16 {
    match last_event(events, troop, events.len()) {
        Some(event) => event.strength_after,
        None => world.troops.at(troop).regiment_strength,
    }
}

/// What a blow leaves of a regiment: every blow counts at least one, and none
/// takes more than there is.
pub open spec fn worn(strength: i16, blow: i16) -> i16 {
    let cost = if blow > 1 {
        blow
    } else {
        1
    };
    if cost < strength {
        (strength - cost) as i16
    } else {
        0
    }
}

/// The events after one attacker has met one defender. Nothing happens once
/// either has fallen.
pub open spec fn met(
    world: GameWorld,
    events: Seq<TroopDamageEvent>,
    attacker: TroopKey,
    defender: TroopKey,
    exchange: Exchange,
) -> Seq<TroopDamageEvent> {
    let a = strength_now(world, events, attacker);
    let d = strength_now(world, events, defender);
    if a <= 0 || d <= 0 {
        events
    } else {
        match exchange {
            Exchange::Void => events,
            Exchange::Hit(blow) => events.push(
                TroopDamageEvent {
                    troop: defender,
                    strength_before: d,
                    strength_after: worn(d, blow),
                },
            ),
            Exchange::Counter(blow) => events.push(
                TroopDamageEvent {
                    troop: attacker,
                    strength_before: a,
                    strength_after: worn(a, blow),
                },
            ),
        }
    }
}

/// The `p`th exchange; beyond the list nothing happens.
pub open spec fn exchange_at(exchanges: Seq<Exchange>, p: int) -> Exchange {
    if 0 <= p < exchanges.len() {
        exchanges[p]
    } else {
        Exchange::Void
    }
}

/// The events after the first `i` attackers have met every defender and the
/// next one has met the first `j`.
pub open spec fn melee(
    world: GameWorld,
    attackers: Seq<TroopKey>,
    defenders: Seq<TroopKey>,
    exchanges: Seq<Exchange>,
    i: nat,
    j: nat,
) -> Seq<TroopDamageEvent>
    decreases i, j,
{
    if j > 0 {
        met(
            world,
            melee(world, attackers, defenders, exchanges, i, (j - 1) as nat),
            attackers[i as int],
            defenders[j - 1],
            exchange_at(exchanges, i * defenders.len() + j - 1),
        )
    } else if i > 0 {
        melee(world, attackers, defenders, exchanges, (i - 1) as nat, defenders.len())
    } else {
        Seq::empty()
    }
}

/// All events of a ground battle.
pub open spec fn ground_events(
    world: GameWorld,
    sys: System,
    attacker_is_alliance: bool,
    exchanges: Seq<Exchange>,
) -> Seq<TroopDamageEvent> {
    let attackers = fit_troops(world, sys, attacker_is_alliance);
    let defenders = fit_troops(world, sys, !attacker_is_alliance);
    melee(world, attackers, defenders, exchanges, attackers.len(), 0)
}

/// Whether the `i`th regiment of a list still stands after some events.
pub open spec fn standing(
    world: GameWorld,
    troops: Seq<TroopKey>,
    events: Seq<TroopDamageEvent>,
) -> spec_fn(int) -> bool {
    |i: int| strength_now(world, events, troops[i]) > 0
}

/// How many regiments of a list still stand.
pub open spec fn survivors(
    world: GameWorld,
    troops: Seq<TroopKey>,
    events: Seq<TroopDamageEvent>,
) -> nat {
    tally(troops.len(), standing(world, troops, events))
}

impl CombatSystem {
    /// Lists a side's regiments with any strength.
    pub fn active_troops(world: &GameWorld, system: SystemKey, side: bool) -> (troops: Vec<TroopKey>)
        requires
            world.systems.has(system),
            garrison_known(*world, world.systems.at(system)),
        ensures
            troops@ == fit_troops(*world, world.systems.at(system), side),
            forall|k: int| 0 <= k < troops@.len() ==> world.troops.has(#[trigger] troops@[k]),
    {
        let sys: &System = world.systems.at_key(system);
        let ghost f = fit_troop(*world, *sys, side);
        let mut troops: Vec<TroopKey> = Vec::new();
        for i in 0..sys.ground_units.len()
            invariant
                garrison_known(*world, *sys),
                f == fit_troop(*world, *sys, side),
                troops@ == collect(i as nat, f),
                forall|k: int| 0 <= k < troops@.len() ==> world.troops.has(#[trigger] troops@[k]),
        {
            let key: TroopKey = sys.ground_units[i];
            let troop = world.troops.at_key(key);
            if troop.is_alliance == side && troop.regiment_strength > 0 {
                troops.push(key);
            }
        }
        troops
    }

    /// A regiment's strength after some events.
    pub fn current_strength(world: &GameWorld, events: &Vec<TroopDamageEvent>, troop: TroopKey) -> (
    strength: i16)
        requires
            world.troops.has(troop),
        ensures
            strength == strength_now(*world, events@, troop),
    {
        let mut n: usize = events.len();
        while n > 0
            invariant
                n <= events@.len(),
                last_event(events@, troop, events@.len()) == last_event(events@, troop, n as nat),
            decreases n,
        {
            if events[n - 1].troop == troop {
                return events[n - 1].strength_after;
            }
            n = n - 1;
        }
        world.troops.at_key(troop).regiment_strength
    }

    /// One attacker meets one defender.
    pub fn ground_exchange(
        world: &GameWorld,
        events: &mut Vec<TroopDamageEvent>,
        attacker: TroopKey,
        defender: TroopKey,
        exchange: Exchange,
    )
        requires
            world.troops.has(attacker),
            world.troops.has(defender),
        ensures
            final(events)@ == met(*world, old(events)@, attacker, defender, exchange),
    {
        let a: i16 = CombatSystem::current_strength(world, events, attacker);
        let d: i16 = CombatSystem::current_strength(world, events, defender);
        if a <= 0 || d <= 0 {
            return;
        }
        match exchange {
            Exchange::Void => {},
            Exchange::Hit(blow) => {
                events.push(
                    TroopDamageEvent {
                        troop: defender,
                        strength_before: d,
                        strength_after: wear(d, blow),
                    },
                );
            },
            Exchange::Counter(blow) => {
                events.push(
                    TroopDamageEvent {
                        troop: attacker,
                        strength_before: a,
                        strength_after: wear(a, blow),
                    },
                );
            },
        }
    }

    /// How many regiments of a list still stand.
    pub fn count_ground_survivors(
        troops: &Vec<TroopKey>,
        damage: &Vec<TroopDamageEvent>,
        world: &GameWorld,
    ) -> (count: usize)
        requires
            forall|k: int| 0 <= k < troops@.len() ==> world.troops.has(#[trigger] troops@[k]),
        ensures
            count == survivors(*world, troops@, damage@),
    {
        let ghost f = standing(*world, troops@, damage@);
        let mut count: usize = 0;
        for i in 0..troops.len()
            invariant
                forall|k: int| 0 <= k < troops@.len() ==> world.troops.has(#[trigger] troops@[k]),
                f == standing(*world, troops@, damage@),
                count <= i,
                count == tally(i as nat, f),
        {
            if CombatSystem::current_strength(world, damage, troops[i]) > 0 {
                count = count + 1;
            }
        }
        count
    }

    /// Fights a ground battle. The world is left alone; the result lists what
    /// changed.
    pub fn resolve_ground(
        world: &GameWorld,
        system: SystemKey,
        attacker_is_alliance: bool,
        exchanges: &Vec<Exchange>,
        tick: u64,
    ) -> (result: GroundCombatResult)
        requires
            world.systems.has(system),
            garrison_known(*world, world.systems.at(system)),
        ensures
            result.system == system,
            result.tick == tick,
            ({
                let sys = world.systems.at(system);
                let events = ground_events(*world, sys, attacker_is_alliance, exchanges@);
                &&& result.troop_damage@ == events
                &&& result.winner == winner_of(
                    survivors(*world, fit_troops(*world, sys, attacker_is_alliance), events) > 0,
                    survivors(*world, fit_troops(*world, sys, !attacker_is_alliance), events) > 0,
                )
            }),
            ({
                let sys = world.systems.at(system);
                let stands = |side: bool|
                    exists|i: int|
                        0 <= i < sys.ground_units@.len() && world.troops.at(
                            #[trigger] sys.ground_units@[i],
                        ).is_alliance == side && world.troops.at(
                            sys.ground_units@[i],
                        ).regiment_strength > 0 && strength_now(
                            *world,
                            result.troop_damage@,
                            sys.ground_units@[i],
                        ) > 0;
                &&& result.winner == CombatSide::Attacker <==> stands(attacker_is_alliance)
                    && !stands(!attacker_is_alliance)
                &&& result.winner == CombatSide::Defender <==> stands(!attacker_is_alliance)
                    && !stands(attacker_is_alliance)
            }),
    {
        let attackers: Vec<TroopKey> = CombatSystem::active_troops(
            world,
            system,
            attacker_is_alliance,
        );
        let defenders: Vec<TroopKey> = CombatSystem::active_troops(
            world,
            system,
            !attacker_is_alliance,
        );
        let mut damage: Vec<TroopDamageEvent> = Vec::new();
        let ghost m = defenders@.len();
        let mut i: usize = 0;
        // The position in the list of exchanges, while the list lasts.
        let mut p: usize = 0;
        while i < attackers.len()
            invariant
                i <= attackers@.len(),
                m == defenders@.len(),
                forall|k: int| 0 <= k < attackers@.len() ==> world.troops.has(#[trigger] attackers@[k]),
                forall|k: int| 0 <= k < defenders@.len() ==> world.troops.has(#[trigger] defenders@[k]),
                p <= exchanges@.len(),
                p == i * m || (p == exchanges@.len() && i * m >= p),
                damage@ == melee(*world, attackers@, defenders@, exchanges@, i as nat, 0),
            decreases attackers@.len() - i,
        {
            let mut j: usize = 0;
            while j < defenders.len()
                invariant
                    i < attackers@.len(),
                    j <= defenders@.len(),
                    m == defenders@.len(),
                    forall|k: int|
                        0 <= k < attackers@.len() ==> world.troops.has(#[trigger] attackers@[k]),
                    forall|k: int|
                        0 <= k < defenders@.len() ==> world.troops.has(#[trigger] defenders@[k]),
                    p <= exchanges@.len(),
                    p == i * m + j || (p == exchanges@.len() && i * m + j >= p),
                    i * m >= 0,
                    damage@ == melee(
                        *world,
                        attackers@,
                        defenders@,
                        exchanges@,
                        i as nat,
                        j as nat,
                    ),
                decreases defenders@.len() - j,
            {
                let exchange: Exchange = if p < exchanges.len() {
                    exchanges[p]
                } else {
                    Exchange::Void
                };
                assert(exchange == exchange_at(exchanges@, i * m + j));
                CombatSystem::ground_exchange(
                    world,
                    &mut damage,
                    attackers[i],
                    defenders[j],
                    exchange,
                );
                if p < exchanges.len() {
                    p = p + 1;
                }
                j = j + 1;
            }
            assert((i + 1) * m == i * m + m) by (nonlinear_arith);
            i = i + 1;
        }
        let atk_left: usize = CombatSystem::count_ground_survivors(&attackers, &damage, world);
        let def_left: usize = CombatSystem::count_ground_survivors(&defenders, &damage, world);
        let winner: CombatSide = decide(atk_left > 0, def_left > 0);
        proof {
            let sys = world.systems.at(system);
            lemma_who_stands(*world, sys, attacker_is_alliance, damage@);
            lemma_who_stands(*world, sys, !attacker_is_alliance, damage@);
        }
        GroundCombatResult { system, winner, troop_damage: damage, tick }
    }
}

/// What a blow leaves of a regiment.
fn wear(strength: i16, blow: i16) -> (left: i16)
    requires
        strength > 0,
    ensures
        left == worn(strength, blow),
{
    let cost: i16 = if blow > 1 {
        blow
    } else {
        1
    };
    if cost < strength {
        strength - cost
    } else {
        0
    }
}

/// A side has survivors exactly if one of its regiments that could fight still
/// has strength.
proof fn lemma_who_stands(
    world: GameWorld,
    sys: System,
    side: bool,
    events: Seq<TroopDamageEvent>,
)
    ensures
        survivors(world, fit_troops(world, sys, side), events) > 0 <==> exists|i: int|
            0 <= i < sys.ground_units@.len() && world.troops.at(
                #[trigger] sys.ground_units@[i],
            ).is_alliance == side && world.troops.at(sys.ground_units@[i]).regiment_strength > 0
                && strength_now(world, events, sys.ground_units@[i]) > 0,
{
    let units = sys.ground_units@;
    let g = fit_troop(world, sys, side);
    let troops = fit_troops(world, sys, side);
    let f = standing(world, troops, events);
    lemma_collect_covers(units.len(), g);
    if survivors(world, troops, events) > 0 {
        lemma_count_witness(troops.len(), f);
        let k = choose|k: int| 0 <= k < troops.len() && #[trigger] f(k);
        assert(gives(units.len(), g, troops[k]));
        let i = choose|i: int| 0 <= i < units.len() && #[trigger] g(i) == Some(troops[k]);
        assert(units[i] == troops[k]);
    }
    if exists|i: int|
        0 <= i < units.len() && world.troops.at(#[trigger] sys.ground_units@[i]).is_alliance == side
            && world.troops.at(sys.ground_units@[i]).regiment_strength > 0 && strength_now(
            world,
            events,
            sys.ground_units@[i],
        ) > 0 {
        let i = choose|i: int|
            0 <= i < units.len() && world.troops.at(#[trigger] sys.ground_units@[i]).is_alliance
                == side && world.troops.at(sys.ground_units@[i]).regiment_strength > 0
                && strength_now(world, events, sys.ground_units@[i]) > 0;
        assert(g(i) == Some(units[i]));
        let k = choose|k: int| 0 <= k < troops.len() && troops[k] == units[i];
        lemma_counted(troops.len(), f, k);
    }
}

// ---- Ratings ---------------------------------------------------------------

/// The defense rating of the `i`th facility, if it is of the side; ten where
/// its class is not known.
pub open spec fn facility_term(world: GameWorld, sys: System, side: bool) -> spec_fn(int) -> int {
    |i: int|
        {
            let key = sys.defense_facilities@[i];
            if world.defense_facilities.has(key) && world.defense_facilities.at(key).is_alliance
                == side {
                match class_row(
                    world.defense_facility_classes@,
                    0,
                    world.defense_facilities.at(key).class_dat_id,
                ) {
                    Some(class) => class.bombardment_defense as int,
                    None => 10,
                }
            } else {
                0
            }
        }
}

/// The combat rating of the `i`th character of a fleet.
pub open spec fn officer_term(world: GameWorld, fleet: Fleet) -> spec_fn(int) -> int {
    |i: int|
        {
            let key = fleet.characters@[i];
            if world.characters.has(key) {
                world.characters.at(key).combat.base as int
            } else {
                0
            }
        }
}

/// The combat rating of the officers aboard the `i`th fleet over a system, if
/// it is of the side.
pub open spec fn staff_term(world: GameWorld, sys: System, side: bool) -> spec_fn(int) -> int {
    |i: int|
        {
            let key = sys.fleets@[i];
            if world.fleets.has(key) && world.fleets.at(key).is_alliance == side {
                total(
                    world.fleets.at(key).characters@.len(),
                    officer_term(world, world.fleets.at(key)),
                )
            } else {
                0
            }
        }
}

/// A sum of ratings fits wide arithmetic.
proof fn lemma_ratings_fit(n: nat, f: spec_fn(int) -> int)
    requires
        n <= usize::MAX,
        forall|i: int| i32::MIN <= #[trigger] f(i) <= u32::MAX,
    ensures
        -0xffff_ffff_ffff_ffff * 0x8000_0000 <= total(n, f) <= 0xffff_ffff_ffff_ffff * 0xffff_ffff,
    decreases n,
{
    lemma_total_bounded(n, f, 0xffff_ffff);
    let g = |i: int| 0 - f(i);
    assert forall|i: int| #[trigger] g(i) <= 0x8000_0000 by {
        assert(f(i) >= i32::MIN);
    }
    lemma_total_bounded(n, g, 0x8000_0000);
    lemma_total_negated(n, f, g);
    assert(n * 0xffff_ffff <= 0xffff_ffff_ffff_ffff * 0xffff_ffff) by (nonlinear_arith)
        requires
            0 <= n <= 0xffff_ffff_ffff_ffff,
    ;
    assert(n * 0x8000_0000 <= 0xffff_ffff_ffff_ffff * 0x8000_0000) by (nonlinear_arith)
        requires
            0 <= n <= 0xffff_ffff_ffff_ffff,
    ;
}

/// Negating every term negates the sum.
proof fn lemma_total_negated(n: nat, f: spec_fn(int) -> int, g: spec_fn(int) -> int)
    requires
        forall|i: int| #[trigger] g(i) == 0 - f(i),
    ensures
        total(n, g) == 0 - total(n, f),
    decreases n,
{
    if n > 0 {
        lemma_total_negated((n - 1) as nat, f, g);
    }
}

impl CombatSystem {
    /// The defense rating of a side's facilities at a system.
    pub fn facility_defense(world: &GameWorld, system: SystemKey, side: bool) -> (rating: i128)
        requires
            world.systems.has(system),
        ensures
            rating == total(
                world.systems.at(system).defense_facilities@.len(),
                facility_term(*world, world.systems.at(system), side),
            ),
    {
        let sys: &System = world.systems.at_key(system);
        let ghost f = facility_term(*world, *sys, side);
        let mut rating: i128 = 0;
        for i in 0..sys.defense_facilities.len()
            invariant
                f == facility_term(*world, *sys, side),
                forall|i: int| i32::MIN <= #[trigger] f(i) <= u32::MAX,
                rating == total(i as nat, f),
        {
            proof {
                lemma_ratings_fit(i as nat, f);
                lemma_ratings_fit((i + 1) as nat, f);
            }
            let key: DefenseFacilityKey = sys.defense_facilities[i];
            if let Some(facility) = world.defense_facilities.get(key) {
                if facility.is_alliance == side {
                    let defense: i32 = match find_class(
                        &world.defense_facility_classes,
                        facility.class_dat_id,
                    ) {
                        Some(class) => class.bombardment_defense,
                        None => 10,
                    };
                    assert(f(i as int) == defense);
                    rating = rating + defense as i128;
                }
            }
        }
        rating
    }

    /// The combat rating of a side's officers aboard the fleets over a system.
    pub fn officer_rating(world: &GameWorld, system: SystemKey, side: bool) -> (rating: u128)
        requires
            world.systems.has(system),
            total(
                world.systems.at(system).fleets@.len(),
                staff_term(*world, world.systems.at(system), side),
            ) <= u128::MAX,
        ensures
            rating == total(
                world.systems.at(system).fleets@.len(),
                staff_term(*world, world.systems.at(system), side),
            ),
    {
        let sys: &System = world.systems.at_key(system);
        let ghost f = staff_term(*world, *sys, side);
        let ghost whole = sys.fleets@.len();
        assert forall|i: int| #[trigger] f(i) >= 0 by {
            let fleet = world.fleets.at(sys.fleets@[i]);
            lemma_total_monotone(
                fleet.characters@.len(),
                fleet.characters@.len(),
                officer_term(*world, fleet),
            );
        }
        let mut rating: u128 = 0;
        for i in 0..sys.fleets.len()
            invariant
                whole == sys.fleets@.len(),
                f == staff_term(*world, *sys, side),
                forall|i: int| #[trigger] f(i) >= 0,
                total(whole, f) <= u128::MAX,
                rating == total(i as nat, f),
        {
            proof {
                lemma_total_monotone((i + 1) as nat, whole, f);
            }
            let key: FleetKey = sys.fleets[i];
            if let Some(fleet) = world.fleets.get(key) {
                if fleet.is_alliance == side {
                    let ghost base = rating;
                    let ghost g = officer_term(*world, *fleet);
                    assert(f(i as int) == total(fleet.characters@.len(), g));
                    for j in 0..fleet.characters.len()
                        invariant
                            g == officer_term(*world, *fleet),
                            forall|i: int| #[trigger] g(i) >= 0,
                            base + total(fleet.characters@.len(), g) <= u128::MAX,
                            rating == base + total(j as nat, g),
                    {
                        proof {
                            lemma_total_monotone((j + 1) as nat, fleet.characters@.len(), g);
                        }
                        let who: CharacterKey = fleet.characters[j];
                        if let Some(c) = world.characters.get(who) {
                            assert(g(j as int) == c.combat.base);
                            rating = rating + c.combat.base as u128;
                        }
                    }
                }
            }
        }
        rating
    }

    /// A regiment's ratings; ten and ten where its class is not known.
    pub fn troop_ratings(world: &GameWorld, troop: TroopKey) -> (ratings: TroopClassDef)
        requires
            world.troops.has(troop),
        ensures
            ratings == match class_row(
                world.troop_classes@,
                0,
                world.troops.at(troop).class_dat_id,
            ) {
                Some(class) => class,
                None => (TroopClassDef { attack_strength: 10, defense_strength: 10 }),
            },
            (forall|i: int|
                0 <= i < world.troop_classes@.len() ==> (#[trigger] world.troop_classes@[i]).0
                    != world.troops.at(troop).class_dat_id) ==> ratings.attack_strength == 10
                && ratings.defense_strength == 10,
            forall|i: int|
                0 <= i < world.troop_classes@.len() && (#[trigger] world.troop_classes@[i]).0
                    == world.troops.at(troop).class_dat_id && (forall|j: int|
                    0 <= j < i ==> (#[trigger] world.troop_classes@[j]).0 != world.troops.at(
                        troop,
                    ).class_dat_id) ==> ratings == world.troop_classes@[i].1,
    {
        proof {
            let rows = world.troop_classes@;
            let id = world.troops.at(troop).class_dat_id;
            if forall|i: int| 0 <= i < rows.len() ==> (#[trigger] rows[i]).0 != id {
                law_first_row_counts(rows, id, rows.len() as int);
            }
            assert forall|i: int|
                0 <= i < rows.len() && (#[trigger] rows[i]).0 == id && (forall|j: int|
                    0 <= j < i ==> (#[trigger] rows[j]).0 != id) implies class_row(rows, 0, id)
                == Some(rows[i].1) by {
                law_first_row_counts(rows, id, i);
            }
        }
        match find_class(&world.troop_classes, world.troops.at_key(troop).class_dat_id) {
            Some(class) => class,
            None => TroopClassDef { attack_strength: 10, defense_strength: 10 },
        }
    }
}

} // verus!
