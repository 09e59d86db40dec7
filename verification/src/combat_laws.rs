//! What holds of every battle.

use crate::combat::{winner_of, CombatSide, ShipDamageEvent, TroopDamageEvent};
use crate::ground::{
    exchange_at, fit_troops, ground_events, last_event, melee, met, strength_now, Exchange,
};
use crate::ids::{FleetKey, TroopKey};
use crate::select::{collect, gives, lemma_collect_covers, lemma_total_monotone};
use crate::space::{
    absorbed, classes, living_place, living_places, living_snap, paired, recharged, snaps, struck,
    ShipSnap,
};
use crate::space_battle::{
    after_battle, after_blows, after_fire, before_battle, hull_event, hull_events, hulls,
    through_hulls, through_shields, SpaceDice,
};
use crate::space_fighters::{
    after_losses, carrier_capacity, dueled, engaged, entry, hangar, launched, lesser, picked, raid,
    raided, raided_by, recalled, returning, run_power, screen_of, screen_term, screened, spare,
    squad, squads, squads_behind, sting, target_at, targets_of,
};
use crate::world::{Fleet, GameWorld, System};
use vstd::prelude::*;

verus! {

// ---- Hulls and shields -----------------------------------------------------

/// Blows only wear hulls down, never below nothing; a lost hull stays lost,
/// and a hull is lost exactly when nothing is left of it.
pub proof fn law_blows_only_wear(s: ShipSnap, blow: int, generator_runs: bool)
    requires
        s.hull_current >= 0,
        s.alive ==> s.hull_current > 0,
    ensures
        ({
            let after = struck(s, blow, generator_runs);
            &&& 0 <= after.hull_current <= s.hull_current
            &&& after.alive ==> s.alive && after.hull_current > 0
            &&& s.alive && !after.alive ==> after.hull_current == 0
        }),
{
}

/// Whatever was not absorbed and was not nothing costs at least one point of
/// hull, unless the generator guards the hull.
pub proof fn law_every_blow_counts(s: ShipSnap, blow: int, generator_runs: bool)
    requires
        s.alive,
        s.hull_current > 0,
        s.pending_damage > 0,
        !(s.is_death_star && generator_runs),
    ensures
        struck(s, blow, generator_runs).hull_current < s.hull_current,
{
}

/// Shields take damage off and add none, touch no hull, and hold no more
/// afterwards than they held or can hold.
pub proof fn law_shields_only_absorb(s: ShipSnap)
    requires
        s.wf(),
    ensures
        ({
            let after = absorbed(s);
            &&& after.hull_current == s.hull_current
            &&& after.alive == s.alive
            &&& 0 <= after.pending_damage <= s.pending_damage
            &&& after.shield_current <= s.shield_current || after.shield_current <= s.shield_max
        }),
{
    let pool = recharged(s);
    if s.alive && s.pending_damage != 0 && pool > 0 {
        let force = s.pending_damage + s.pending_ion_damage;
        let taken = lesser(force, pool);
        let p = s.pending_damage as int;
        let part = p * taken / force;
        assert(0 <= p * taken <= p * force) by (nonlinear_arith)
            requires
                p >= 0,
                0 <= taken <= force,
        ;
        assert(0 <= part <= p) by (nonlinear_arith)
            requires
                0 <= p * taken <= p * force,
                part == p * taken / force,
                force > 0,
        ;
    }
    if s.shield_nibble > 0 && s.shield_max > 0 {
        assert(pool <= s.shield_max);
    }
}

/// A run of fighters wears shields and hull down, and brings no hull back.
pub proof fn law_runs_only_wear(s: ShipSnap, power: int, generator_runs: bool)
    requires
        power >= 0,
        s.hull_current >= 0,
    ensures
        ({
            let after = raided(s, power, generator_runs);
            &&& 0 <= after.hull_current <= s.hull_current
            &&& after.shield_current <= s.shield_current
            &&& after.alive ==> s.alive
        }),
{
}

/// Every reported hull has lost something.
pub proof fn law_reports_are_losses(
    fleet: FleetKey,
    ships: Seq<ShipSnap>,
    initial: Seq<i32>,
    places: Seq<usize>,
    k: int,
)
    requires
        0 <= k < hull_events(fleet, ships, initial, places).len(),
    ensures
        ({
            let event = hull_events(fleet, ships, initial, places)[k];
            &&& event.hull_after < event.hull_before
            &&& event.fleet == fleet
        }),
{
    let f = hull_event(fleet, ships, initial, places);
    lemma_collect_covers(ships.len(), f);
    let events = hull_events(fleet, ships, initial, places);
    assert(gives(ships.len(), f, events[k]));
    let i = choose|i: int| 0 <= i < ships.len() && #[trigger] f(i) == Some(events[k]);
}

// ---- Fighters --------------------------------------------------------------

/// As many squadrons take off as there are, up to the room there is, and no
/// group sends more than it has.
pub proof fn law_launch_fills_the_room(groups: Seq<u32>, capacity: int)
    requires
        capacity >= 0,
    ensures
        squads(launched(groups, capacity), groups.len() as int) == lesser(
            squads(groups, groups.len() as int),
            capacity,
        ),
        forall|i: int|
            0 <= i < groups.len() ==> #[trigger] launched(groups, capacity)[i] <= groups[i],
{
    lemma_launch(groups, capacity, groups.len());
    assert forall|i: int| 0 <= i < groups.len() implies #[trigger] launched(groups, capacity)[i]
        <= groups[i] by {
        lemma_squads_positive(groups, i);
    }
}

proof fn lemma_squads_positive(groups: Seq<u32>, n: int)
    requires
        0 <= n <= groups.len(),
    ensures
        0 <= squads(groups, n) <= squads(groups, groups.len() as int),
{
    lemma_total_monotone(n as nat, groups.len(), squad(groups));
}

proof fn lemma_launch(groups: Seq<u32>, capacity: int, n: nat)
    requires
        capacity >= 0,
        n <= groups.len(),
    ensures
        squads(launched(groups, capacity), n as int) == lesser(
            squads(groups, n as int),
            capacity,
        ),
    decreases n,
{
    let up = launched(groups, capacity);
    if n > 0 {
        lemma_launch(groups, capacity, (n - 1) as nat);
        lemma_squads_positive(groups, n - 1);
        assert(squads(up, n as int) == squads(up, n - 1) + squad(up)(n - 1));
        assert(squads(groups, n as int) == squads(groups, n - 1) + squad(groups)(n - 1));
        let room = spare(capacity, squads(groups, n - 1));
        assert(up[n - 1] == lesser(groups[n - 1] as int, room) as u32);
    }
}

/// Losses remove exactly as many squadrons as fell, or all of them, and no
/// group gains any.
pub proof fn law_losses_are_exact(groups: Seq<u32>, losses: int)
    requires
        losses >= 0,
    ensures
        squads(after_losses(groups, losses), groups.len() as int) == squads(
            groups,
            groups.len() as int,
        ) - lesser(losses, squads(groups, groups.len() as int)),
        forall|i: int|
            0 <= i < groups.len() ==> #[trigger] after_losses(groups, losses)[i] <= groups[i],
{
    lemma_losses(groups, losses, groups.len());
    assert forall|i: int| 0 <= i < groups.len() implies #[trigger] after_losses(groups, losses)[i]
        <= groups[i] by {
        lemma_squads_positive(groups, i + 1);
    }
}

proof fn lemma_losses(groups: Seq<u32>, losses: int, n: nat)
    requires
        losses >= 0,
        n <= groups.len(),
    ensures
        ({
            let whole = squads(groups, groups.len() as int);
            let upto = squads(groups, n as int);
            squads(after_losses(groups, losses), n as int) == upto - (lesser(losses, whole)
                - lesser(losses, whole - upto))
        }),
    decreases n,
{
    let left = after_losses(groups, losses);
    let whole = squads(groups, groups.len() as int);
    lemma_squads_positive(groups, n as int);
    if n > 0 {
        lemma_losses(groups, losses, (n - 1) as nat);
        lemma_squads_positive(groups, n - 1);
        assert(squads(left, n as int) == squads(left, n - 1) + squad(left)(n - 1));
        assert(squads(groups, n as int) == squads(groups, n - 1) + squad(groups)(n - 1));
        let behind = squads_behind(groups, n - 1);
        assert(behind == whole - squads(groups, n as int));
        let fallen = lesser(groups[n - 1] as int, spare(losses, behind));
        assert(0 <= fallen <= groups[n - 1]);
        assert(left[n - 1] == (groups[n - 1] - fallen) as u32);
        assert(left[n - 1] == groups[n - 1] - fallen);
    }
}

/// A group that flew comes home with no more squadrons than survived, and one
/// that stayed behind is as it was.
pub proof fn law_recall_adds_nothing(
    groups: Seq<u32>,
    survivors: Seq<u32>,
    flown: Seq<u32>,
    capacity: int,
    i: int,
)
    requires
        0 <= i < groups.len(),
    ensures
        entry(flown, i) == 0 ==> recalled(groups, survivors, flown, capacity)[i] == groups[i],
        entry(flown, i) != 0 ==> recalled(groups, survivors, flown, capacity)[i] <= entry(
            survivors,
            i,
        ),
{
    lemma_total_monotone(0, i as nat, returning(survivors, flown));
}

// ---- Regiments -------------------------------------------------------------

/// Every blow of a ground battle costs its target something, and takes no more
/// than there is.
pub proof fn law_ground_blows_wear(
    world: GameWorld,
    sys: System,
    attacker_is_alliance: bool,
    exchanges: Seq<Exchange>,
    k: int,
)
    requires
        0 <= k < ground_events(world, sys, attacker_is_alliance, exchanges).len(),
    ensures
        ({
            let event = ground_events(world, sys, attacker_is_alliance, exchanges)[k];
            0 <= event.strength_after < event.strength_before
        }),
{
    let attackers = fit_troops(world, sys, attacker_is_alliance);
    let defenders = fit_troops(world, sys, !attacker_is_alliance);
    lemma_melee(world, attackers, defenders, exchanges, attackers.len(), 0);
}

/// What holds of a list of events: each wears its target down, from the
/// strength that the events before it left.
spec fn wearing(world: GameWorld, events: Seq<TroopDamageEvent>) -> bool {
    forall|k: int| 0 <= k < events.len() ==> {
        &&& 0 <= (#[trigger] events[k]).strength_after < events[k].strength_before
        &&& events[k].strength_before <= world.troops.at(events[k].troop).regiment_strength
    }
}

proof fn lemma_melee(
    world: GameWorld,
    attackers: Seq<TroopKey>,
    defenders: Seq<TroopKey>,
    exchanges: Seq<Exchange>,
    i: nat,
    j: nat,
)
    ensures
        wearing(world, melee(world, attackers, defenders, exchanges, i, j)),
    decreases i, j,
{
    if j > 0 {
        let before = melee(world, attackers, defenders, exchanges, i, (j - 1) as nat);
        lemma_melee(world, attackers, defenders, exchanges, i, (j - 1) as nat);
        lemma_strength(world, before, attackers[i as int]);
        lemma_strength(world, before, defenders[j - 1]);
        let after = met(
            world,
            before,
            attackers[i as int],
            defenders[j - 1],
            exchange_at(exchanges, i * defenders.len() + j - 1),
        );
        assert(after == before || (after.len() == before.len() + 1 && after
            == before.push(after.last())));
    } else if i > 0 {
        lemma_melee(world, attackers, defenders, exchanges, (i - 1) as nat, defenders.len());
    }
}

proof fn lemma_strength(world: GameWorld, events: Seq<TroopDamageEvent>, troop: TroopKey)
    requires
        wearing(world, events),
    ensures
        strength_now(world, events, troop) <= world.troops.at(troop).regiment_strength,
{
    lemma_last(world, events, troop, events.len());
}

proof fn lemma_last(world: GameWorld, events: Seq<TroopDamageEvent>, troop: TroopKey, n: nat)
    requires
        n <= events.len(),
        wearing(world, events),
    ensures
        last_event(events, troop, n) matches Some(event) ==> event.strength_after
            <= world.troops.at(troop).regiment_strength,
    decreases n,
{
    if n > 0 {
        lemma_last(world, events, troop, (n - 1) as nat);
    }
}

/// A ground battle makes no regiment stronger than it was.
pub proof fn law_regiments_never_grow(
    world: GameWorld,
    sys: System,
    attacker_is_alliance: bool,
    exchanges: Seq<Exchange>,
    troop: TroopKey,
)
    ensures
        strength_now(world, ground_events(world, sys, attacker_is_alliance, exchanges), troop)
            <= world.troops.at(troop).regiment_strength,
{
    let attackers = fit_troops(world, sys, attacker_is_alliance);
    let defenders = fit_troops(world, sys, !attacker_is_alliance);
    lemma_melee(world, attackers, defenders, exchanges, attackers.len(), 0);
    lemma_strength(world, ground_events(world, sys, attacker_is_alliance, exchanges), troop);
}

/// A battle is a draw exactly when both sides have something left or neither
/// has, and the two sides see it alike.
pub proof fn law_winners_mirror(attacker_left: bool, defender_left: bool)
    ensures
        winner_of(attacker_left, defender_left) == CombatSide::Draw <==> attacker_left
            == defender_left,
        winner_of(attacker_left, defender_left) == CombatSide::Attacker <==> winner_of(
            defender_left,
            attacker_left,
        ) == CombatSide::Defender,
{
}

// ---- Whole battles ---------------------------------------------------------

/// Whether no hull of a list is below nothing.
pub open spec fn sound(ships: Seq<ShipSnap>) -> bool {
    forall|i: int| 0 <= i < ships.len() ==> 0 <= (#[trigger] ships[i]).hull_current
}

/// Whether hulls were only worn down, and none came back.
pub open spec fn only_worn(before: Seq<ShipSnap>, after: Seq<ShipSnap>) -> bool {
    &&& after.len() == before.len()
    &&& forall|i: int|
        0 <= i < before.len() ==> {
            &&& 0 <= (#[trigger] after[i]).hull_current <= before[i].hull_current
            &&& after[i].alive ==> before[i].alive
        }
}

/// Whether no group of a list grew.
pub open spec fn only_fewer(before: Seq<u32>, after: Seq<u32>) -> bool {
    &&& after.len() == before.len()
    &&& forall|i: int| 0 <= i < before.len() ==> #[trigger] after[i] <= before[i]
}

proof fn lemma_worn_on(a: Seq<ShipSnap>, b: Seq<ShipSnap>, c: Seq<ShipSnap>)
    requires
        only_worn(a, b),
        only_worn(b, c),
    ensures
        only_worn(a, c),
{
    assert forall|i: int| 0 <= i < a.len() implies 0 <= (#[trigger] c[i]).hull_current
        <= a[i].hull_current && (c[i].alive ==> a[i].alive) by {
        assert(b[i].hull_current <= a[i].hull_current);
    }
}

/// Shields and blows wear hulls down.
proof fn lemma_blows(ships: Seq<ShipSnap>, blows: Seq<i32>, generator_runs: bool)
    requires
        sound(ships),
    ensures
        only_worn(ships, through_hulls(through_shields(ships), blows, generator_runs)),
{
    let after = through_hulls(through_shields(ships), blows, generator_runs);
    assert forall|i: int| 0 <= i < ships.len() implies 0 <= (#[trigger] after[i]).hull_current
        <= ships[i].hull_current && (after[i].alive ==> ships[i].alive) by {
        assert(ships[i].hull_current >= 0);
        let s = absorbed(ships[i]);
        assert(s.hull_current == ships[i].hull_current && s.alive == ships[i].alive);
        assert(through_shields(ships)[i] == s);
    }
}

/// The positions of the living hulls are positions.
proof fn lemma_targets(ships: Seq<ShipSnap>)
    requires
        ships.len() <= usize::MAX,
    ensures
        forall|k: int|
            0 <= k < targets_of(ships).len() ==> (#[trigger] targets_of(ships)[k]) < ships.len(),
{
    let f = target_at(ships);
    lemma_collect_covers(ships.len(), f);
    let list = targets_of(ships);
    assert forall|k: int| 0 <= k < list.len() implies (#[trigger] list[k]) < ships.len() by {
        assert(gives(ships.len(), f, list[k]));
        let i = choose|i: int| 0 <= i < ships.len() && #[trigger] f(i) == Some(list[k]);
    }
}

proof fn lemma_run_power(world: GameWorld, fleet: Fleet, groups: Seq<u32>, q: int)
    ensures
        run_power(world, fleet, groups, q) >= 0,
{
    if q < fleet.fighters@.len() {
        let a = sting(world.fighter_classes.at(fleet.fighters@[q].class));
        let b = groups[q] as int;
        assert(a * b >= 0) by (nonlinear_arith)
            requires
                a >= 0,
                b >= 0,
        ;
    }
}

proof fn lemma_raid(
    world: GameWorld,
    fleet: Fleet,
    groups: Seq<u32>,
    ships: Seq<ShipSnap>,
    picks: Seq<usize>,
    generator_runs: bool,
    n: nat,
)
    requires
        sound(ships),
        ships.len() <= usize::MAX,
        targets_of(ships).len() > 0,
    ensures
        only_worn(ships, raid(world, fleet, groups, ships, picks, generator_runs, n).0),
    decreases n,
{
    if n > 0 {
        lemma_raid(world, fleet, groups, ships, picks, generator_runs, (n - 1) as nat);
        lemma_run_power(world, fleet, groups, n - 1);
        lemma_targets(ships);
        let (hit, used) = raid(
            world,
            fleet,
            groups,
            ships,
            picks,
            generator_runs,
            (n - 1) as nat,
        );
        let power = run_power(world, fleet, groups, n - 1);
        if power != 0 {
            let at = picked(targets_of(ships), picks, used);
            let after = hit.update(at, raided(hit[at], power, generator_runs));
            assert(0 <= at < ships.len());
            assert(0 <= hit[at].hull_current <= ships[at].hull_current);
            law_runs_only_wear(hit[at], power, generator_runs);
            assert forall|i: int| 0 <= i < ships.len() implies 0 <= (
            #[trigger] after[i]).hull_current <= ships[i].hull_current && (after[i].alive
                ==> ships[i].alive) by {
                assert(0 <= hit[i].hull_current <= ships[i].hull_current);
            }
        }
    }
}

proof fn lemma_raided_by(
    world: GameWorld,
    fleet: Fleet,
    groups: Seq<u32>,
    ships: Seq<ShipSnap>,
    picks: Seq<usize>,
    generator_runs: bool,
)
    requires
        sound(ships),
        ships.len() <= usize::MAX,
    ensures
        only_worn(ships, raided_by(world, fleet, groups, ships, picks, generator_runs)),
{
    if targets_of(ships).len() > 0 {
        lemma_raid(world, fleet, groups, ships, picks, generator_runs, groups.len());
    }
}

proof fn lemma_screened(groups: Seq<u32>, power: int, extra: bool)
    requires
        power >= 0,
    ensures
        only_fewer(groups, screened(groups, power, extra)),
{
    let losses = power / 100 + if extra {
        1int
    } else {
        0
    };
    law_losses_are_exact(groups, losses);
}

/// Whoever flew and came back is no more than set out.
proof fn lemma_wing(
    groups: Seq<u32>,
    room: int,
    power: int,
    extra: bool,
    fight: bool,
    losses: u32,
    room_after: int,
)
    requires
        room >= 0,
        power >= 0,
    ensures
        ({
            let up = launched(groups, room);
            let met = screened(up, power, extra);
            let back = if fight {
                dueled(met, losses)
            } else {
                met
            };
            only_fewer(groups, recalled(groups, back, up, room_after))
        }),
{
    let up = launched(groups, room);
    let met = screened(up, power, extra);
    let back = if fight {
        dueled(met, losses)
    } else {
        met
    };
    let home = recalled(groups, back, up, room_after);
    law_launch_fills_the_room(groups, room);
    lemma_screened(up, power, extra);
    law_losses_are_exact(
        met,
        if losses > 1 {
            losses as int
        } else {
            1
        },
    );
    assert forall|i: int| 0 <= i < groups.len() implies #[trigger] home[i] <= groups[i] by {
        law_recall_adds_nothing(groups, back, up, room_after, i);
        assert(up[i] <= groups[i]);
        assert(met[i] <= up[i]);
        assert(back[i] <= met[i]);
    }
}

/// Room and screens are never negative.
proof fn lemma_ratings(world: GameWorld, fleet: Fleet, ships: Seq<ShipSnap>, local: bool)
    ensures
        carrier_capacity(world, fleet, ships, local) >= 0,
        screen_of(world, fleet, ships) >= 0,
{
    let counts = |i: int| fleet.fighters@[i].count as int;
    lemma_total_monotone(0, fleet.fighters@.len(), counts);
    let pairs = paired(classes(fleet), ships);
    lemma_total_monotone(0, pairs, hangar(world, classes(fleet), ships));
    lemma_total_monotone(0, pairs, screen_term(world, classes(fleet), ships));
}

/// A whole battle only wears both sides down: no hull gains, none comes back,
/// and no group of fighters grows.
pub proof fn law_battles_only_wear(
    world: GameWorld,
    attacker: Fleet,
    defender: Fleet,
    dice: SpaceDice,
    generator_runs: bool,
)
    requires
        forall|i: int|
            0 <= i < attacker.capital_ships@.len() && (
            #[trigger] attacker.capital_ships@[i]).alive ==> attacker.capital_ships@[i].hull_current
                >= 0,
        forall|i: int|
            0 <= i < defender.capital_ships@.len() && (
            #[trigger] defender.capital_ships@[i]).alive ==> defender.capital_ships@[i].hull_current
                >= 0,
    ensures
        ({
            let b = before_battle(world, attacker, defender);
            let e = after_battle(world, attacker, defender, dice, generator_runs);
            &&& only_worn(b.atk_ships, e.atk_ships)
            &&& only_worn(b.def_ships, e.def_ships)
            &&& only_fewer(b.atk_fighters, e.atk_fighters)
            &&& only_fewer(b.def_fighters, e.def_fighters)
        }),
{
    let b = before_battle(world, attacker, defender);
    let s = after_fire(world, attacker, defender, dice);
    lemma_snaps_sound(world, attacker);
    lemma_snaps_sound(world, defender);
    assert(only_worn(b.atk_ships, s.atk_ships));
    assert(only_worn(b.def_ships, s.def_ships));
    assert(sound(s.atk_ships));
    assert(sound(s.def_ships));
    let c = after_blows(s, dice, generator_runs);
    lemma_blows(s.atk_ships, dice.attacker_blows@, generator_runs);
    lemma_blows(s.def_ships, dice.defender_blows@, generator_runs);
    lemma_worn_on(b.atk_ships, s.atk_ships, c.atk_ships);
    lemma_worn_on(b.def_ships, s.def_ships, c.def_ships);
    assert(sound(c.atk_ships));
    assert(sound(c.def_ships));
    let atk_local = c.atk_ships.len() == 0;
    let def_local = c.def_ships.len() == 0;
    let atk_room = carrier_capacity(world, attacker, c.atk_ships, atk_local);
    let def_room = carrier_capacity(world, defender, c.def_ships, def_local);
    let atk_up = launched(c.atk_fighters, atk_room);
    let def_up = launched(c.def_fighters, def_room);
    let def_ships = raided_by(
        world,
        attacker,
        atk_up,
        c.def_ships,
        dice.attacker_picks@,
        generator_runs,
    );
    let atk_ships = raided_by(
        world,
        defender,
        def_up,
        c.atk_ships,
        dice.defender_picks@,
        generator_runs,
    );
    lemma_raided_by(world, attacker, atk_up, c.def_ships, dice.attacker_picks@, generator_runs);
    lemma_raided_by(world, defender, def_up, c.atk_ships, dice.defender_picks@, generator_runs);
    lemma_worn_on(b.atk_ships, c.atk_ships, atk_ships);
    lemma_worn_on(b.def_ships, c.def_ships, def_ships);
    lemma_ratings(world, attacker, c.atk_ships, atk_local);
    lemma_ratings(world, defender, c.def_ships, def_local);
    lemma_ratings(world, attacker, atk_ships, atk_local);
    lemma_ratings(world, defender, def_ships, def_local);
    let def_met = screened(def_up, screen_of(world, attacker, atk_ships), dice.attacker_screen);
    let atk_met = screened(atk_up, screen_of(world, defender, def_ships), dice.defender_screen);
    let fight = engaged(world, attacker, atk_met, defender, def_met);
    lemma_wing(
        c.atk_fighters,
        atk_room,
        screen_of(world, defender, def_ships),
        dice.defender_screen,
        fight,
        dice.attacker_losses,
        carrier_capacity(world, attacker, atk_ships, atk_local),
    );
    lemma_wing(
        c.def_fighters,
        def_room,
        screen_of(world, attacker, atk_ships),
        dice.attacker_screen,
        fight,
        dice.defender_losses,
        carrier_capacity(world, defender, def_ships, def_local),
    );
}

/// Whether the same hulls are Death Stars, and none of those was hurt.
pub open spec fn stars_unhurt(before: Seq<ShipSnap>, after: Seq<ShipSnap>) -> bool {
    &&& after.len() == before.len()
    &&& forall|i: int|
        0 <= i < before.len() ==> {
            &&& (#[trigger] after[i]).is_death_star == before[i].is_death_star
            &&& before[i].is_death_star ==> after[i].hull_current == before[i].hull_current
                && after[i].alive == before[i].alive
        }
}

/// While its generator runs, nothing in a whole battle hurts a Death Star:
/// neither fire nor fighters, on whichever side it stands.
pub proof fn law_generator_guards_death_star(
    world: GameWorld,
    attacker: Fleet,
    defender: Fleet,
    dice: SpaceDice,
)
    ensures
        ({
            let b = before_battle(world, attacker, defender);
            let e = after_battle(world, attacker, defender, dice, true);
            &&& stars_unhurt(b.atk_ships, e.atk_ships)
            &&& stars_unhurt(b.def_ships, e.def_ships)
        }),
{
    let b = before_battle(world, attacker, defender);
    let s = after_fire(world, attacker, defender, dice);
    let c = after_blows(s, dice, true);
    assert(stars_unhurt(b.atk_ships, s.atk_ships));
    assert(stars_unhurt(b.def_ships, s.def_ships));
    lemma_blows_spare_stars(s.atk_ships, dice.attacker_blows@);
    lemma_blows_spare_stars(s.def_ships, dice.defender_blows@);
    assert(stars_unhurt(b.atk_ships, c.atk_ships));
    assert(stars_unhurt(b.def_ships, c.def_ships));
    lemma_few_ships(world, attacker);
    lemma_few_ships(world, defender);
    let atk_up = launched(
        c.atk_fighters,
        carrier_capacity(world, attacker, c.atk_ships, c.atk_ships.len() == 0),
    );
    let def_up = launched(
        c.def_fighters,
        carrier_capacity(world, defender, c.def_ships, c.def_ships.len() == 0),
    );
    if targets_of(c.def_ships).len() > 0 {
        lemma_raid_spares_stars(
            world,
            attacker,
            atk_up,
            c.def_ships,
            dice.attacker_picks@,
            atk_up.len(),
        );
    }
    if targets_of(c.atk_ships).len() > 0 {
        lemma_raid_spares_stars(
            world,
            defender,
            def_up,
            c.atk_ships,
            dice.defender_picks@,
            def_up.len(),
        );
    }
    let e = after_battle(world, attacker, defender, dice, true);
    assert(stars_unhurt(c.atk_ships, e.atk_ships) || e == s);
    assert(stars_unhurt(c.def_ships, e.def_ships) || e == s);
}

proof fn lemma_blows_spare_stars(ships: Seq<ShipSnap>, blows: Seq<i32>)
    ensures
        stars_unhurt(ships, through_hulls(through_shields(ships), blows, true)),
{
}

proof fn lemma_raid_spares_stars(
    world: GameWorld,
    fleet: Fleet,
    groups: Seq<u32>,
    ships: Seq<ShipSnap>,
    picks: Seq<usize>,
    n: nat,
)
    requires
        ships.len() <= usize::MAX,
        targets_of(ships).len() > 0,
    ensures
        stars_unhurt(ships, raid(world, fleet, groups, ships, picks, true, n).0),
    decreases n,
{
    if n > 0 {
        lemma_raid_spares_stars(world, fleet, groups, ships, picks, (n - 1) as nat);
        lemma_targets(ships);
        let (hit, used) = raid(world, fleet, groups, ships, picks, true, (n - 1) as nat);
        let power = run_power(world, fleet, groups, n - 1);
        if power != 0 {
            let at = picked(targets_of(ships), picks, used);
            assert(0 <= at < ships.len());
            assert(hit[at].is_death_star == ships[at].is_death_star);
        }
    }
}

/// A fleet lists no more living ships than it has.
pub(crate) proof fn lemma_few_ships(world: GameWorld, fleet: Fleet)
    ensures
        snaps(world, fleet).len() <= usize::MAX,
{
    lemma_collect_len(fleet.capital_ships@.len(), living_snap(world, fleet));
    assert(fleet.capital_ships.len() == fleet.capital_ships@.len());
}

/// Every report of a battle names a ship of the fleet that was alive when the
/// battle began, and the hull it had then.
pub proof fn law_reports_name_their_ships(
    world: GameWorld,
    attacker: FleetKey,
    defender: FleetKey,
    dice: SpaceDice,
    generator_runs: bool,
)
    ensures
        ({
            let a = world.fleets.at(attacker);
            let d = world.fleets.at(defender);
            let b = before_battle(world, a, d);
            let e = after_battle(world, a, d, dice, generator_runs);
            &&& reports_name(
                a,
                hull_events(attacker, e.atk_ships, hulls(b.atk_ships), living_places(a)),
            )
            &&& reports_name(
                d,
                hull_events(defender, e.def_ships, hulls(b.def_ships), living_places(d)),
            )
        }),
{
    let a = world.fleets.at(attacker);
    let d = world.fleets.at(defender);
    let b = before_battle(world, a, d);
    let s = after_fire(world, a, d, dice);
    let c = after_blows(s, dice, generator_runs);
    let e = after_battle(world, a, d, dice, generator_runs);
    lemma_few_ships(world, a);
    lemma_few_ships(world, d);
    lemma_raid_keeps_count(world, a, c.def_ships, dice.attacker_picks@, generator_runs);
    lemma_raid_keeps_count(world, d, c.atk_ships, dice.defender_picks@, generator_runs);
    assert(e.atk_ships.len() == b.atk_ships.len());
    assert(e.def_ships.len() == b.def_ships.len());
    lemma_reports_name(world, a, attacker, e.atk_ships);
    lemma_reports_name(world, d, defender, e.def_ships);
}

/// Whether every report names a living ship of a fleet and its hull.
pub open spec fn reports_name(fleet: Fleet, events: Seq<ShipDamageEvent>) -> bool {
    forall|k: int|
        0 <= k < events.len() ==> {
            let event = #[trigger] events[k];
            &&& event.ship_index < fleet.capital_ships@.len()
            &&& fleet.capital_ships@[event.ship_index as int].alive
            &&& fleet.capital_ships@[event.ship_index as int].hull_current == event.hull_before
        }
}

proof fn lemma_raid_keeps_count(
    world: GameWorld,
    fleet: Fleet,
    ships: Seq<ShipSnap>,
    picks: Seq<usize>,
    generator_runs: bool,
)
    requires
        ships.len() <= usize::MAX,
    ensures
        forall|groups: Seq<u32>|
            (#[trigger] raided_by(world, fleet, groups, ships, picks, generator_runs)).len()
                == ships.len(),
{
    assert forall|groups: Seq<u32>|
        (#[trigger] raided_by(world, fleet, groups, ships, picks, generator_runs)).len()
            == ships.len() by {
        if targets_of(ships).len() > 0 {
            lemma_raid_count(world, fleet, groups, ships, picks, generator_runs, groups.len());
        }
    }
}

pub(crate) proof fn lemma_raid_count(
    world: GameWorld,
    fleet: Fleet,
    groups: Seq<u32>,
    ships: Seq<ShipSnap>,
    picks: Seq<usize>,
    generator_runs: bool,
    n: nat,
)
    requires
        ships.len() <= usize::MAX,
        targets_of(ships).len() > 0,
    ensures
        raid(world, fleet, groups, ships, picks, generator_runs, n).0.len() == ships.len(),
    decreases n,
{
    if n > 0 {
        lemma_targets(ships);
        lemma_raid_count(world, fleet, groups, ships, picks, generator_runs, (n - 1) as nat);
    }
}

proof fn lemma_reports_name(world: GameWorld, fleet: Fleet, key: FleetKey, ships: Seq<ShipSnap>)
    requires
        ships.len() == snaps(world, fleet).len(),
    ensures
        reports_name(
            fleet,
            hull_events(key, ships, hulls(snaps(world, fleet)), living_places(fleet)),
        ),
{
    let initial = hulls(snaps(world, fleet));
    let places = living_places(fleet);
    let f = hull_event(key, ships, initial, places);
    let events = hull_events(key, ships, initial, places);
    lemma_collect_covers(ships.len(), f);
    assert(fleet.capital_ships.len() == fleet.capital_ships@.len());
    lemma_places(world, fleet, fleet.capital_ships@.len());
    assert forall|k: int| 0 <= k < events.len() implies ({
        let event = #[trigger] events[k];
        &&& event.ship_index < fleet.capital_ships@.len()
        &&& fleet.capital_ships@[event.ship_index as int].alive
        &&& fleet.capital_ships@[event.ship_index as int].hull_current == event.hull_before
    }) by {
        assert(gives(ships.len(), f, events[k]));
        let i = choose|i: int| 0 <= i < ships.len() && #[trigger] f(i) == Some(events[k]);
        assert(events[k].ship_index == places[i]);
    }
}

/// Living ships and their places are listed side by side.
pub(crate) proof fn lemma_places(world: GameWorld, fleet: Fleet, n: nat)
    requires
        n <= fleet.capital_ships@.len() <= usize::MAX,
    ensures
        ({
            let hulls = collect(n, living_snap(world, fleet));
            let places = collect(n, living_place(fleet));
            &&& places.len() == hulls.len()
            &&& forall|k: int|
                0 <= k < places.len() ==> {
                    let place = #[trigger] places[k];
                    &&& place < fleet.capital_ships@.len()
                    &&& fleet.capital_ships@[place as int].alive
                    &&& fleet.capital_ships@[place as int].hull_current == hulls[k].hull_current
                }
        }),
    decreases n,
{
    if n > 0 {
        lemma_places(world, fleet, (n - 1) as nat);
    }
}

proof fn lemma_snaps_sound(world: GameWorld, fleet: Fleet)
    requires
        forall|i: int|
            0 <= i < fleet.capital_ships@.len() && (#[trigger] fleet.capital_ships@[i]).alive
                ==> fleet.capital_ships@[i].hull_current >= 0,
    ensures
        sound(snaps(world, fleet)),
        snaps(world, fleet).len() <= usize::MAX,
{
    let f = living_snap(world, fleet);
    let n = fleet.capital_ships@.len();
    lemma_collect_covers(n, f);
    let list = snaps(world, fleet);
    assert forall|k: int| 0 <= k < list.len() implies 0 <= (#[trigger] list[k]).hull_current by {
        assert(gives(n, f, list[k]));
        let i = choose|i: int| 0 <= i < n && #[trigger] f(i) == Some(list[k]);
        assert(fleet.capital_ships@[i].alive);
    }
    lemma_few_ships(world, fleet);
}

proof fn lemma_collect_len<A>(n: nat, f: spec_fn(int) -> Option<A>)
    ensures
        collect(n, f).len() <= n,
    decreases n,
{
    if n > 0 {
        lemma_collect_len((n - 1) as nat, f);
    }
}

} // verus!
