//! What battles on the ground, tactical battles and the player's orders do to
//! a campaign, measured from outside.

use crate::arena::{names, without};
use crate::campaign::{Campaign, GameSpeed};
use crate::combat::{CombatSide, TroopDamageEvent};
use crate::dat::Faction;
use crate::death_star::can_fire;
use crate::ground_campaign::{
    able, able_roster, after_occupation, closing_step, fighting, fights_on, lands, opening_of,
    opening_step, strengths_kept, GroundStep,
};
use crate::ids::{CharacterKey, FighterKey, FleetKey, SystemKey, TroopKey};
use crate::mission_effects::other_character;
use crate::panel::{panel_done, PanelAction};
use crate::panel_death_star::{death_star_move, fired, support_after_strike, system_shot};
use crate::panel_fleets::{assigned, can_merge, fleets_merged, law_joined_lists, unassigned};
use crate::select::{
    collect, gives, lemma_collect_covers, lemma_collect_same, lemma_tally_same, tally,
};
use crate::station_laws::lemma_kept;
use crate::tactical::{
    afloat, entry_of, kept_fighters, kept_ship, kept_ships, left_orbit, loss, losses, other_fleet,
    recounted, side_settled, told_to_retreat, BattleFighter, BattleSession, BattleShip,
};
use crate::world::{Character, FighterEntry, Fleet, GameWorld, ShipInstance, System, TroopUnit};
use vstd::prelude::*;

verus! {

// ---- On the ground ---------------------------------------------------------

/// A report of strength is written to the regiment it names and to no other;
/// one of no strength removes it.
pub proof fn law_strengths_are_written_back(
    slots: Seq<Option<TroopUnit>>,
    reported: Seq<(TroopKey, i16)>,
    n: nat,
    slot: int,
)
    requires
        n < reported.len(),
        0 <= slot < slots.len(),
    ensures
        ({
            let before = strengths_kept(slots, reported, n);
            let after = strengths_kept(slots, reported, n + 1);
            let (troop, strength) = reported[n as int];
            &&& after.len() == before.len()
            &&& troop.slot != slot ==> after[slot] == before[slot]
            &&& troop.slot == slot && strength <= 0 ==> after[slot] is None
            &&& troop.slot == slot && strength > 0 && before[slot] is None ==> after[slot] is None
            &&& troop.slot == slot && strength > 0 && before[slot] is Some ==> after[slot] is Some
                && (after[slot]->0).regiment_strength == strength && (after[slot]->0).is_alliance
                == (before[slot]->0).is_alliance && (after[slot]->0).class_dat_id == (
            before[slot]->0).class_dat_id
        }),
        strengths_kept(slots, reported, 0) == slots,
{
    lemma_strengths_len(slots, reported, n);
    lemma_strengths_len(slots, reported, n + 1);
}

proof fn lemma_strengths_len(slots: Seq<Option<TroopUnit>>, reported: Seq<(TroopKey, i16)>, n: nat)
    ensures
        strengths_kept(slots, reported, n).len() == slots.len(),
    decreases n,
{
    if n > 0 {
        lemma_strengths_len(slots, reported, (n - 1) as nat);
    }
}

/// A roster keeps exactly the regiments that live and have strength.
pub proof fn law_the_able_stay_on_the_roster(
    slots: Seq<Option<TroopUnit>>,
    roster: Seq<TroopKey>,
    troop: TroopKey,
)
    ensures
        able_roster(slots, roster).contains(troop) <==> {
            &&& roster.contains(troop)
            &&& troop.slot < slots.len()
            &&& slots[troop.slot as int] is Some
            &&& (slots[troop.slot as int]->0).regiment_strength > 0
        },
{
    lemma_kept(
        roster,
        able(slots, roster),
        |t: TroopKey|
            t.slot < slots.len() && slots[t.slot as int] is Some && (
            slots[t.slot as int]->0).regiment_strength > 0,
        troop,
    );
}

/// Exactly the fleets of a side in orbit that carry regiments put them ashore.
pub proof fn law_who_lands(
    world: GameWorld,
    sys: System,
    loaded: Seq<FleetKey>,
    side: bool,
    fleet: FleetKey,
)
    ensures
        collect(sys.fleets@.len(), lands(world, sys, loaded, side)).contains(fleet) <==> {
            &&& sys.fleets@.contains(fleet)
            &&& loaded.contains(fleet)
            &&& world.fleets.has(fleet)
            &&& world.fleets.at(fleet).is_alliance == side
        },
{
    lemma_kept(
        sys.fleets@,
        lands(world, sys, loaded, side),
        |f: FleetKey|
            loaded.contains(f) && world.fleets.has(f) && world.fleets.at(f).is_alliance == side,
        fleet,
    );
}

/// Whoever of the other side is alive at a system when it is occupied becomes
/// a captive of the occupier, that day and on no fleet; nobody else changes.
pub proof fn law_occupiers_take_captives(
    c: Character,
    system: SystemKey,
    winner: Faction,
    tick: u64,
)
    ensures
        ({
            let after = after_occupation(c, system, winner, tick);
            let enemy = (winner == Faction::Alliance && c.is_empire) || (winner == Faction::Empire
                && c.is_alliance);
            let taken = c.current_system == Some(system) && !c.is_killed && enemy;
            &&& !taken ==> after == c
            &&& taken ==> after.is_captive && after.captured_by == Some(winner)
                && after.capture_tick == Some(tick) && after.current_fleet is None
            &&& after.is_alliance == c.is_alliance && after.is_empire == c.is_empire
                && after.is_killed == c.is_killed && after.current_system == c.current_system
        }),
{
}

/// A landing leads to battle exactly if both sides can fight there; a side
/// that alone can takes the system if anybody landed; otherwise nothing
/// happens.
pub proof fn law_how_landings_begin(world: GameWorld, system: SystemKey, landed: usize)
    ensures
        ({
            let step = opening_step(opening_of(world, system, landed));
            let rebels = fighting(world, system, true) > 0;
            let imperials = fighting(world, system, false) > 0;
            &&& rebels && imperials ==> step == GroundStep::Fight
            &&& rebels && !imperials && landed > 0 ==> step == GroundStep::Occupy(Faction::Alliance)
            &&& !rebels && imperials && landed > 0 ==> step == GroundStep::Occupy(Faction::Empire)
            &&& rebels != imperials && landed == 0 ==> step == GroundStep::Stop
            &&& !rebels && !imperials ==> step == GroundStep::Stop
        }),
{
}

/// A fight goes on exactly while it is a draw in which somebody was worn down
/// and fewer than 256 rounds are over. Then the side that won takes the
/// system, and nobody does after a draw.
pub proof fn law_how_fights_end(
    rounds: u32,
    winner: CombatSide,
    events: Seq<TroopDamageEvent>,
    attacker_is_alliance: bool,
)
    ensures
        fights_on(rounds, winner, events) <==> rounds < 256 && winner == CombatSide::Draw && exists|
            i: int,
        |
            0 <= i < events.len() && (#[trigger] events[i]).strength_before
                > events[i].strength_after,
        closing_step(CombatSide::Draw, attacker_is_alliance) == GroundStep::Stop,
        closing_step(CombatSide::Attacker, true) == GroundStep::Occupy(Faction::Alliance),
        closing_step(CombatSide::Attacker, false) == GroundStep::Occupy(Faction::Empire),
        closing_step(CombatSide::Defender, true) == GroundStep::Occupy(Faction::Empire),
        closing_step(CombatSide::Defender, false) == GroundStep::Occupy(Faction::Alliance),
{
}

// ---- Tactical battles ------------------------------------------------------

/// A side has lost exactly those of its ships that are dead and did not
/// retreat.
pub proof fn law_what_was_lost(ships: Seq<BattleShip>, attacker: bool, index: usize)
    ensures
        losses(ships, attacker).contains(index) <==> exists|i: int|
            0 <= i < ships.len() && (#[trigger] ships[i]).fleet_ship_index == index
                && ships[i].is_attacker == attacker && !ships[i].alive && !ships[i].retreated,
{
    let f = loss(ships, attacker);
    let n = ships.len();
    lemma_collect_covers(n, f);
    let list = losses(ships, attacker);
    if list.contains(index) {
        let k = choose|k: int| 0 <= k < list.len() && list[k] == index;
        assert(gives(n, f, list[k]));
        let i = choose|i: int| 0 <= i < n && #[trigger] f(i) == Some(list[k]);
        assert(ships[i].fleet_ship_index == index);
    }
    if exists|i: int|
        0 <= i < ships.len() && (#[trigger] ships[i]).fleet_ship_index == index
            && ships[i].is_attacker == attacker && !ships[i].alive && !ships[i].retreated {
        let i = choose|i: int|
            0 <= i < ships.len() && (#[trigger] ships[i]).fleet_ship_index == index
                && ships[i].is_attacker == attacker && !ships[i].alive && !ships[i].retreated;
        assert(f(i) == Some(index));
    }
}

/// A fleet keeps exactly the ships that were alive and whose number among
/// those alive is not among the lost, as they were and in order.
pub proof fn law_which_ships_are_kept(
    ships: Seq<ShipInstance>,
    ship: ShipInstance,
    lost: Seq<usize>,
)
    ensures
        ({
            let number = tally(ships.len(), |i: int| ships[i].alive);
            let gone = exists|i: int| 0 <= i < lost.len() && #[trigger] lost[i] == number;
            kept_ships(ships.push(ship), lost) == if ship.alive && !gone {
                kept_ships(ships, lost).push(ship)
            } else {
                kept_ships(ships, lost)
            }
        }),
        kept_ships(Seq::empty(), lost).len() == 0,
{
    let more = ships.push(ship);
    let n = ships.len();
    assert forall|i: int| 0 <= i < n implies #[trigger] kept_ship(ships, lost)(i) == kept_ship(
        more,
        lost,
    )(i) by {
        lemma_tally_same(i as nat, afloat(ships), afloat(more));
    }
    lemma_collect_same(n, kept_ship(ships, lost), kept_ship(more, lost));
    lemma_tally_same(n, afloat(ships), afloat(more));
    lemma_tally_same(n, |i: int| ships[i].alive, afloat(more));
}

/// A report on fighters sets the count of the first entry of its class and
/// changes no other; without such an entry nothing changes.
pub proof fn law_reports_recount_one_class(
    entries: Seq<FighterEntry>,
    class: FighterKey,
    count: u32,
    k: int,
)
    requires
        0 <= k <= entries.len(),
        forall|j: int| 0 <= j < k ==> (#[trigger] entries[j]).class != class,
    ensures
        k == entries.len() ==> recounted(entries, class, count) == entries,
        k < entries.len() && entries[k].class == class ==> recounted(entries, class, count)
            == entries.update(k, FighterEntry { class, count }),
{
    lemma_entry(entries, class, k as nat, k as nat);
}

proof fn lemma_entry(entries: Seq<FighterEntry>, class: FighterKey, k: nat, left: nat)
    requires
        left <= k <= entries.len(),
        forall|j: int| 0 <= j < k ==> (#[trigger] entries[j]).class != class,
    ensures
        entry_of(entries, class, (k - left) as nat) == entry_of(entries, class, k),
    decreases left,
{
    if left > 0 {
        assert(entries[k - left].class != class);
        lemma_entry(entries, class, k, (left - 1) as nat);
    }
}

/// Reports on fighters are taken in turn, each by its own side only.
pub proof fn law_reports_are_taken_in_turn(
    entries: Seq<FighterEntry>,
    reports: Seq<BattleFighter>,
    attacker: bool,
    n: nat,
)
    requires
        n < reports.len(),
    ensures
        ({
            let before = kept_fighters(entries, reports, attacker, n);
            let after = kept_fighters(entries, reports, attacker, n + 1);
            let report = reports[n as int];
            &&& report.is_attacker != attacker ==> after == before
            &&& report.is_attacker == attacker ==> after == recounted(
                before,
                report.class_key,
                report.squad_count,
            )
        }),
        kept_fighters(entries, reports, attacker, 0) == entries,
{
}

/// Exactly the living ships of the player's side that were picked turn away,
/// and are no longer picked.
pub proof fn law_who_retreats(ship: BattleShip, player_is_attacker: bool)
    ensures
        ({
            let after = told_to_retreat(ship, player_is_attacker);
            let told = ship.selected && ship.alive && ship.is_attacker == player_is_attacker;
            &&& told ==> after.retreating && !after.selected
            &&& !told ==> after == ship
            &&& after.alive == ship.alive && after.is_attacker == ship.is_attacker
                && after.fleet_ship_index == ship.fleet_ship_index && after.retreated
                == ship.retreated
        }),
{
}

/// A fleet that is gone leaves the orbit of its system, and no other fleet
/// does.
pub proof fn law_lost_fleets_leave_orbit(
    before: Seq<Option<System>>,
    after: Seq<Option<System>>,
    system: SystemKey,
    fleet: FleetKey,
    other: FleetKey,
    slot: int,
)
    requires
        left_orbit(before, after, system, fleet),
        0 <= slot < before.len(),
        before[slot] is Some,
    ensures
        after[slot] is Some,
        slot == system.slot ==> ((after[slot]->0).fleets@.contains(other) <==> (
        before[slot]->0).fleets@.contains(other) && other != fleet),
        slot != system.slot ==> after[slot] == before[slot],
{
    let list = (before[slot]->0).fleets@;
    lemma_kept(list, other_fleet(list, fleet), |f: FleetKey| f != fleet, other);
}

// ---- The player's orders ---------------------------------------------------

/// A character assigned to a fleet is on its roster and posted to it; nobody
/// else's name comes or goes.
pub proof fn law_assignments(
    before: Campaign,
    after: Campaign,
    who: CharacterKey,
    fleet: FleetKey,
    other: CharacterKey,
)
    requires
        assigned(before, after, who, fleet),
        before.world.fleets.has(fleet),
    ensures
        after.world.fleets.has(fleet),
        after.world.fleets.at(fleet).characters@.contains(other) <==> before.world.fleets.at(
            fleet,
        ).characters@.contains(other) || other == who,
        before.world.characters.has(who) ==> after.world.characters.has(who)
            && after.world.characters.at(who).current_fleet == Some(fleet),
{
    law_joined_lists(before.world.fleets.at(fleet).characters@, seq![who], other);
    assert(seq![who][0] == who);
    assert(seq![who].contains(other) <==> other == who) by {
        if other == who {
            assert(seq![who][0] == other);
        }
    }
}

/// A character taken off a fleet is on its roster no more and posted nowhere.
pub proof fn law_removals(
    before: Campaign,
    after: Campaign,
    who: CharacterKey,
    fleet: FleetKey,
    other: CharacterKey,
)
    requires
        unassigned(before, after, who, fleet),
        before.world.fleets.has(fleet),
    ensures
        after.world.fleets.has(fleet),
        after.world.fleets.at(fleet).characters@.contains(other) <==> before.world.fleets.at(
            fleet,
        ).characters@.contains(other) && other != who,
        before.world.characters.has(who) ==> after.world.characters.has(who)
            && after.world.characters.at(who).current_fleet is None,
{
    let list = before.world.fleets.at(fleet).characters@;
    lemma_kept(list, other_character(list, who), |c: CharacterKey| c != who, other);
}

/// Merging puts every ship of the second fleet behind those of the first and
/// everybody aboard either aboard the joint fleet, which has a Death Star if
/// either had one, and the second fleet is gone. Other fleets are untouched.
pub proof fn law_merging_unites(
    before: Seq<Option<Fleet>>,
    after: Seq<Option<Fleet>>,
    a: FleetKey,
    b: FleetKey,
    one: Fleet,
    who: CharacterKey,
    slot: int,
)
    requires
        a != b,
        a.slot < before.len(),
        b.slot < before.len(),
        fleets_merged(before, after, a, b, one),
        0 <= slot < before.len(),
    ensures
        ({
            let first = before[a.slot as int]->0;
            let second = before[b.slot as int]->0;
            &&& after[b.slot as int] is None
            &&& after[a.slot as int] == Some(one)
            &&& slot != a.slot && slot != b.slot ==> after[slot] == before[slot]
            &&& one.capital_ships@ == first.capital_ships@ + second.capital_ships@
            &&& one.characters@.contains(who) <==> first.characters@.contains(who)
                || second.characters@.contains(who)
            &&& one.has_death_star <==> first.has_death_star || second.has_death_star
            &&& one.location == first.location && one.is_alliance == first.is_alliance
        }),
{
    assert(a.slot != b.slot);
    law_joined_lists(
        (before[a.slot as int]->0).characters@,
        (before[b.slot as int]->0).characters@,
        who,
    );
}

/// Fleets merge exactly if both live and neither is under way.
pub proof fn law_who_can_merge(campaign: Campaign, a: FleetKey, b: FleetKey)
    ensures
        ({
            let moving = |key: FleetKey|
                exists|i: int|
                    0 <= i < campaign.movement.orders@.len() && (
                    #[trigger] campaign.movement.orders@[i]).fleet == key;
            can_merge(campaign, a, b) <==> campaign.world.fleets.has(a)
                && campaign.world.fleets.has(b) && !moving(a) && !moving(b)
        }),
{
}

/// A system at which the superlaser was fired is destroyed, and the Death Star
/// is known to be there. Where it could not be fired nothing happens.
pub proof fn law_a_shot_destroys(before: Campaign, after: Campaign, system: SystemKey)
    requires
        fired(before, after, system),
    ensures
        can_fire(before.death_star, before.world, system) ==> after.world.systems.has(system)
            && after.world.systems.at(system).is_destroyed && after.death_star_location == Some(
            system,
        ) && after.tick == before.tick,
        !can_fire(before.death_star, before.world, system) ==> after == before,
{
    if can_fire(before.death_star, before.world, system) {
        let doomed = choose|doomed: GameWorld| #[trigger]
            system_shot(before, doomed, after, system);
        assert(system_shot(before, doomed, after, system));
        assert(doomed.systems.at(system).is_destroyed);
    }
}

/// The Death Star is sent off from where it is to where it was told, unless it
/// is gone, is under way or is there already.
pub proof fn law_where_the_death_star_goes(campaign: Campaign, system: SystemKey)
    ensures
        ({
            let fleet = campaign.death_star.death_star_fleet;
            let at = campaign.world.fleets.at(fleet->0).location;
            let moving = exists|i: int|
                0 <= i < campaign.movement.orders@.len() && (
                #[trigger] campaign.movement.orders@[i]).fleet == fleet->0;
            let goes = fleet is Some && campaign.world.fleets.has(fleet->0) && !moving && at
                != system;
            &&& goes ==> death_star_move(campaign, system) == Some((fleet->0, at, system))
            &&& !goes ==> death_star_move(campaign, system) is None
        }),
{
}

/// A strike costs the struck side support and not the striking one.
pub proof fn law_strikes_cost_the_struck(sys: System, attacker_is_alliance: bool, support: u32)
    ensures
        ({
            let after = support_after_strike(sys, attacker_is_alliance, support);
            &&& attacker_is_alliance ==> after.popularity_empire == support
                && after.popularity_alliance == sys.popularity_alliance
            &&& !attacker_is_alliance ==> after.popularity_alliance == support
                && after.popularity_empire == sys.popularity_empire
            &&& after.control == sys.control && after.is_destroyed == sys.is_destroyed
        }),
{
}

/// Time passes as ordered, the clock runs as it was set, and an order to build
/// waits behind the others.
pub proof fn law_orders_are_carried_out(
    before: Campaign,
    after: Campaign,
    n: u64,
    speed: u8,
    system: SystemKey,
    kind: crate::manufacturing::BuildableKind,
    ticks: u32,
)
    ensures
        panel_done(before, after, PanelAction::AdvanceTicks(n)) && before.tick + n <= u64::MAX
            ==> after.tick == before.tick + n && after.speed == before.speed,
        panel_done(before, after, PanelAction::SetGameSpeed(speed)) ==> after.speed == (match speed {
            0 => GameSpeed::Paused,
            1 => GameSpeed::Normal,
            2 => GameSpeed::Fast,
            _ => GameSpeed::Faster,
        }) && after.tick == before.tick,
        panel_done(before, after, PanelAction::Enqueue { system, kind, ticks })
            ==> after.queues.items@.len() == before.queues.items@.len() + 1
            && after.queues.items@.last().system == system && after.queues.items@.last().kind
            == kind && after.queues.items@.last().ticks_remaining == ticks && after.tick
            == before.tick,
{
}

/// A battle changes one fleet of a side and nothing but its ships and
/// fighters. The fleet leaves the world exactly when it has no fighters and
/// no ship that lived through the battle, whoever fought on the other side.
pub proof fn law_only_the_beaten_fleet_goes(
    before: GameWorld,
    after: GameWorld,
    session: BattleSession,
    attacker: bool,
    fleet: FleetKey,
    slot: int,
)
    requires
        side_settled(before, after, session, attacker),
        attacker ==> fleet == session.attacker_fleet,
        !attacker ==> fleet == session.defender_fleet,
    ensures
        after.fleets@.len() == before.fleets@.len(),
        0 <= slot < before.fleets@.len() && slot != fleet.slot ==> after.fleets@[slot]
            == before.fleets@[slot],
        after.fleets.has(fleet) ==> before.fleets.has(fleet) && after.systems@ == before.systems@
            && after.fleets.at(fleet).location == before.fleets.at(fleet).location
            && after.fleets.at(fleet).is_alliance == before.fleets.at(fleet).is_alliance
            && after.fleets.at(fleet).characters == before.fleets.at(fleet).characters
            && after.fleets.at(fleet).fighters@.len() == before.fleets.at(fleet).fighters@.len(),
        before.fleets.has(fleet) ==> (after.fleets.has(fleet) <==> {
            ||| before.fleets.at(fleet).fighters@.len() > 0
            ||| kept_ships(
                before.fleets.at(fleet).capital_ships@,
                losses(session.ships@, attacker),
            ).len() > 0
        }),
        after.fleets.has(fleet) ==> after.fleets.at(fleet).capital_ships@ == kept_ships(
            before.fleets.at(fleet).capital_ships@,
            losses(session.ships@, attacker),
        ),
        after.characters == before.characters,
        after.troops == before.troops,
{
    if before.fleets.has(fleet) {
        lemma_entries_stay(
            before.fleets.at(fleet).fighters@,
            session.fighters@,
            attacker,
            session.fighters@.len(),
        );
    }
}

/// The entry of a class stands in the list.
proof fn lemma_entry_in_list(entries: Seq<FighterEntry>, class: FighterKey, from: nat)
    ensures
        entry_of(entries, class, from) is Some ==> entry_of(entries, class, from)->0
            < entries.len(),
    decreases entries.len() - from,
{
    if from < entries.len() {
        lemma_entry_in_list(entries, class, from + 1);
    }
}

/// Reports neither add an entry of fighters nor take one away.
proof fn lemma_entries_stay(
    entries: Seq<FighterEntry>,
    reports: Seq<BattleFighter>,
    attacker: bool,
    n: nat,
)
    requires
        n <= reports.len(),
    ensures
        kept_fighters(entries, reports, attacker, n).len() == entries.len(),
    decreases n,
{
    if n > 0 {
        let m = (n - 1) as nat;
        lemma_entries_stay(entries, reports, attacker, m);
        lemma_entry_in_list(
            kept_fighters(entries, reports, attacker, m),
            reports[n - 1].class_key,
            0,
        );
    }
}

} // verus!
