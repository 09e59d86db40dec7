//! What holds of every ground battle, measured from outside.

use crate::combat::{winner_of, CombatSide, TroopDamageEvent};
use crate::fire_laws::{lemma_count_witness, lemma_counted};
use crate::ground::{
    facility_term, fit_troop, fit_troops, ground_events, last_event, melee, met, officer_term,
    staff_term, standing, strength_now, survivors, Exchange,
};
use crate::ids::{CharacterKey, DefenseFacilityKey, FleetKey, TroopKey};
use crate::select::{lemma_collect_same, lemma_total_same, tally, total};
use crate::world::{law_first_row_counts, Fleet, GameWorld, System};
use vstd::prelude::*;

verus! {

// ---- Exchanges -------------------------------------------------------------

/// An exchange between two regiments that still stand costs one of them the
/// weight of the blow, one point at least, and no more than it has: a hit the
/// defender, a counter-strike the attacker. Where either has fallen, or
/// neither has any power, nothing happens.
pub proof fn law_blows_land_where_they_should(
    world: GameWorld,
    events: Seq<TroopDamageEvent>,
    attacker: TroopKey,
    defender: TroopKey,
    exchange: Exchange,
)
    ensures
        ({
            let a = strength_now(world, events, attacker);
            let d = strength_now(world, events, defender);
            let after = met(world, events, attacker, defender, exchange);
            let news = after.last();
            let cost = news.strength_before - news.strength_after;
            &&& a <= 0 || d <= 0 ==> after == events
            &&& exchange == Exchange::Void ==> after == events
            &&& a > 0 && d > 0 && exchange is Hit ==> {
                let blow = exchange->Hit_0;
                &&& after == events.push(news)
                &&& news.troop == defender
                &&& news.strength_before == d
                &&& 1 <= blow <= d ==> cost == blow
                &&& blow < 1 ==> cost == 1
                &&& blow > d ==> cost == d
            }
            &&& a > 0 && d > 0 && exchange is Counter ==> {
                let blow = exchange->Counter_0;
                &&& after == events.push(news)
                &&& news.troop == attacker
                &&& news.strength_before == a
                &&& 1 <= blow <= a ==> cost == blow
                &&& blow < 1 ==> cost == 1
                &&& blow > a ==> cost == a
            }
        }),
{
}

/// A regiment has the strength it came with until it is reported otherwise,
/// and then the one last reported; a report on one regiment says nothing of
/// another.
pub proof fn law_the_last_report_counts(
    world: GameWorld,
    events: Seq<TroopDamageEvent>,
    event: TroopDamageEvent,
    troop: TroopKey,
)
    ensures
        strength_now(world, Seq::empty(), troop) == world.troops.at(troop).regiment_strength,
        strength_now(world, events.push(event), event.troop) == event.strength_after,
        troop != event.troop ==> strength_now(world, events.push(event), troop) == strength_now(
            world,
            events,
            troop,
        ),
{
    let more = events.push(event);
    lemma_earlier(events, more, troop, events.len());
    assert(more[events.len() as int] == event);
}

proof fn lemma_earlier(
    a: Seq<TroopDamageEvent>,
    b: Seq<TroopDamageEvent>,
    troop: TroopKey,
    n: nat,
)
    requires
        n <= a.len(),
        n <= b.len(),
        forall|k: int| 0 <= k < n ==> #[trigger] a[k] == b[k],
    ensures
        last_event(a, troop, n) == last_event(b, troop, n),
    decreases n,
{
    if n > 0 {
        assert(a[n - 1] == b[n - 1]);
        lemma_earlier(a, b, troop, (n - 1) as nat);
    }
}

// ---- The battle ------------------------------------------------------------

/// A regiment joins the battle on its side, behind those before it, exactly if
/// it has any strength.
pub proof fn law_who_fights(
    world: GameWorld,
    sys: System,
    larger: System,
    key: TroopKey,
    side: bool,
)
    requires
        larger.ground_units@ == sys.ground_units@.push(key),
    ensures
        fit_troops(world, larger, side) == if world.troops.at(key).is_alliance == side
            && world.troops.at(key).regiment_strength > 0 {
            fit_troops(world, sys, side).push(key)
        } else {
            fit_troops(world, sys, side)
        },
        sys.ground_units@.len() == 0 ==> fit_troops(world, sys, side).len() == 0,
{
    lemma_collect_same(
        sys.ground_units@.len(),
        fit_troop(world, sys, side),
        fit_troop(world, larger, side),
    );
}

/// Every attacker meets every defender once, the first attacker all of them
/// before the second meets any; the exchanges are used in that order, and
/// nothing happens where there is none left.
pub proof fn law_everyone_meets_everyone(
    world: GameWorld,
    attackers: Seq<TroopKey>,
    defenders: Seq<TroopKey>,
    exchanges: Seq<Exchange>,
    i: nat,
    j: nat,
)
    requires
        i < attackers.len(),
        j < defenders.len(),
    ensures
        ({
            let before = melee(world, attackers, defenders, exchanges, i, j);
            let after = melee(world, attackers, defenders, exchanges, i, j + 1);
            let turn = i * defenders.len() + j;
            &&& turn < exchanges.len() ==> after == met(
                world,
                before,
                attackers[i as int],
                defenders[j as int],
                exchanges[turn as int],
            )
            &&& turn >= exchanges.len() ==> after == before
        }),
        melee(world, attackers, defenders, exchanges, 0, 0).len() == 0,
        melee(world, attackers, defenders, exchanges, i + 1, 0) == melee(
            world,
            attackers,
            defenders,
            exchanges,
            i,
            defenders.len(),
        ),
{
    let turn = i * defenders.len() + j;
    assert(turn >= 0) by (nonlinear_arith)
        requires
            turn == i * defenders.len() + j,
    ;
}

/// A battle of one regiment against one is settled by their one exchange: it
/// costs the struck side the weight of the blow, and a regiment that loses all
/// its strength to it loses the battle. As long as both stand it is a draw.
pub proof fn law_duels_are_settled_by_strength(
    world: GameWorld,
    sys: System,
    attacker_is_alliance: bool,
    attacker: TroopKey,
    defender: TroopKey,
    exchange: Exchange,
)
    requires
        attacker != defender,
        fit_troops(world, sys, attacker_is_alliance) == seq![attacker],
        fit_troops(world, sys, !attacker_is_alliance) == seq![defender],
        world.troops.at(attacker).regiment_strength > 0,
        world.troops.at(defender).regiment_strength > 0,
    ensures
        ({
            let events = ground_events(world, sys, attacker_is_alliance, seq![exchange]);
            let winner = winner_of(
                survivors(world, seq![attacker], events) > 0,
                survivors(world, seq![defender], events) > 0,
            );
            let a = world.troops.at(attacker).regiment_strength;
            let d = world.troops.at(defender).regiment_strength;
            &&& exchange == Exchange::Void ==> events.len() == 0 && winner == CombatSide::Draw
            &&& exchange is Hit && 1 <= exchange->Hit_0 < d ==> events == seq![
                TroopDamageEvent {
                    troop: defender,
                    strength_before: d,
                    strength_after: (d - exchange->Hit_0) as i16,
                },
            ] && winner == CombatSide::Draw
            &&& exchange is Hit && exchange->Hit_0 >= d ==> events == seq![
                TroopDamageEvent { troop: defender, strength_before: d, strength_after: 0 },
            ] && winner == CombatSide::Attacker
            &&& exchange is Counter && 1 <= exchange->Counter_0 < a ==> events == seq![
                TroopDamageEvent {
                    troop: attacker,
                    strength_before: a,
                    strength_after: (a - exchange->Counter_0) as i16,
                },
            ] && winner == CombatSide::Draw
            &&& exchange is Counter && exchange->Counter_0 >= a ==> events == seq![
                TroopDamageEvent { troop: attacker, strength_before: a, strength_after: 0 },
            ] && winner == CombatSide::Defender
        }),
{
    let attackers = seq![attacker];
    let defenders = seq![defender];
    let exchanges = seq![exchange];
    law_everyone_meets_everyone(world, attackers, defenders, exchanges, 0, 0);
    let none = melee(world, attackers, defenders, exchanges, 0, 0);
    assert(none =~= Seq::<TroopDamageEvent>::empty());
    assert(0 * defenders.len() + 0 == 0) by (nonlinear_arith);
    let events = melee(world, attackers, defenders, exchanges, 1, 0);
    assert(events == met(world, none, attacker, defender, exchange));
    law_blows_land_where_they_should(world, none, attacker, defender, exchange);
    law_the_last_report_counts(world, none, events.last(), attacker);
    law_the_last_report_counts(world, none, events.last(), defender);
    assert(none.push(events.last()) =~= seq![events.last()]);
    law_survivors_stand(world, attackers, events, 0);
    law_survivors_stand(world, defenders, events, 0);
}

/// There are survivors exactly if a regiment still has strength, and no more
/// of them than regiments.
pub proof fn law_survivors_stand(
    world: GameWorld,
    troops: Seq<TroopKey>,
    events: Seq<TroopDamageEvent>,
    i: int,
)
    ensures
        0 <= i < troops.len() && strength_now(world, events, troops[i]) > 0 ==> survivors(
            world,
            troops,
            events,
        ) > 0,
        (forall|k: int|
            0 <= k < troops.len() ==> strength_now(world, events, #[trigger] troops[k]) <= 0)
            ==> survivors(world, troops, events) == 0,
        survivors(world, troops, events) <= troops.len(),
{
    let f = standing(world, troops, events);
    if 0 <= i < troops.len() && strength_now(world, events, troops[i]) > 0 {
        lemma_counted(troops.len(), f, i);
    }
    if survivors(world, troops, events) > 0 {
        lemma_count_witness(troops.len(), f);
        let k = choose|k: int| 0 <= k < troops.len() && #[trigger] f(k);
        assert(strength_now(world, events, troops[k]) > 0);
    }
    lemma_tally_bound(troops.len(), f);
}

proof fn lemma_tally_bound(n: nat, f: spec_fn(int) -> bool)
    ensures
        tally(n, f) <= n,
    decreases n,
{
    if n > 0 {
        lemma_tally_bound((n - 1) as nat, f);
    }
}

// ---- Ratings ---------------------------------------------------------------

/// One defense facility more adds the rating of its class to its own side, or
/// ten where the class is not known, and nothing to the other side. `row` is
/// the first row of the table for the class, past its end if there is none.
pub proof fn law_every_fort_counts(
    world: GameWorld,
    sys: System,
    larger: System,
    key: DefenseFacilityKey,
    row: int,
    side: bool,
)
    requires
        larger.defense_facilities@ == sys.defense_facilities@.push(key),
        0 <= row <= world.defense_facility_classes@.len(),
        forall|j: int|
            0 <= j < row ==> (#[trigger] world.defense_facility_classes@[j]).0
                != world.defense_facilities.at(key).class_dat_id,
        row < world.defense_facility_classes@.len() ==> world.defense_facility_classes@[row].0
            == world.defense_facilities.at(key).class_dat_id,
    ensures
        ({
            let n = sys.defense_facilities@.len();
            let before = total(n, facility_term(world, sys, side));
            let after = total(n + 1, facility_term(world, larger, side));
            let rows = world.defense_facility_classes@;
            let ours = world.defense_facilities.has(key) && world.defense_facilities.at(
                key,
            ).is_alliance == side;
            &&& !ours ==> after == before
            &&& ours && row < rows.len() ==> after - before == rows[row].1.bombardment_defense
            &&& ours && row == rows.len() ==> after - before == 10
        }),
{
    let n = sys.defense_facilities@.len();
    lemma_total_same(n, facility_term(world, sys, side), facility_term(world, larger, side));
    law_first_row_counts(
        world.defense_facility_classes@,
        world.defense_facilities.at(key).class_dat_id,
        row,
    );
}

/// One officer more aboard a fleet adds its base combat skill to the fleet's
/// staff, and one fleet more over a system adds its staff to its own side.
pub proof fn law_every_officer_counts(
    world: GameWorld,
    fleet: Fleet,
    larger: Fleet,
    who: CharacterKey,
    sys: System,
    crowded: System,
    key: FleetKey,
    side: bool,
)
    requires
        larger.characters@ == fleet.characters@.push(who),
        crowded.fleets@ == sys.fleets@.push(key),
    ensures
        ({
            let n = fleet.characters@.len();
            let gain = total(n + 1, officer_term(world, larger)) - total(
                n,
                officer_term(world, fleet),
            );
            &&& world.characters.has(who) ==> gain == world.characters.at(who).combat.base
            &&& !world.characters.has(who) ==> gain == 0
        }),
        ({
            let n = sys.fleets@.len();
            let gain = total(n + 1, staff_term(world, crowded, side)) - total(
                n,
                staff_term(world, sys, side),
            );
            let there = world.fleets.at(key);
            &&& world.fleets.has(key) && there.is_alliance == side ==> gain == total(
                there.characters@.len(),
                officer_term(world, there),
            )
            &&& !world.fleets.has(key) || there.is_alliance != side ==> gain == 0
        }),
{
    lemma_total_same(
        fleet.characters@.len(),
        officer_term(world, fleet),
        officer_term(world, larger),
    );
    lemma_total_same(
        sys.fleets@.len(),
        staff_term(world, sys, side),
        staff_term(world, crowded, side),
    );
}

} // verus!
