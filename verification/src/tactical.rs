//! Carrying the outcome of a tactical battle back into the campaign.

use crate::arena::{occupied, without};
use crate::ids::{FighterKey, FleetKey, SystemKey};
use crate::select::{collect, tally};
use crate::world::{FighterEntry, Fleet, GameWorld, ShipInstance, System};
use vstd::prelude::*;

verus! {

/// A capital ship as a battle left it.
#[derive(Debug, Clone, Copy, PartialEq, Eq, Structural)]
pub struct BattleShip {
    pub is_attacker: bool,
    pub retreated: bool,
    pub alive: bool,
    /// Whether the player has picked the ship.
    pub selected: bool,
    /// Whether the ship is on its way out.
    pub retreating: bool,
    /// Position among the ships that were alive when the battle began.
    pub fleet_ship_index: usize,
}

/// The fighters of one class as a battle left them.
#[derive(Debug, Clone, Copy, PartialEq, Eq, Structural)]
pub struct BattleFighter {
    pub is_attacker: bool,
    pub class_key: FighterKey,
    pub squad_count: u32,
}

/// A finished tactical battle.
#[derive(Debug)]
pub struct BattleSession {
    pub attacker_fleet: FleetKey,
    pub defender_fleet: FleetKey,
    pub ships: Vec<BattleShip>,
    pub fighters: Vec<BattleFighter>,
}

/// The index of the `i`th ship of a battle, if it is of the side and was lost.
pub open spec fn loss(ships: Seq<BattleShip>, attacker: bool) -> spec_fn(int) -> Option<usize> {
    |i: int|
        if ships[i].is_attacker == attacker && !ships[i].retreated && !ships[i].alive {
            Some(ships[i].fleet_ship_index)
        } else {
            None
        }
}

/// The indices of the ships that a side lost.
pub open spec fn losses(ships: Seq<BattleShip>, attacker: bool) -> Seq<usize> {
    collect(ships.len(), loss(ships, attacker))
}

/// Whether the `i`th ship of a fleet was alive when the battle began.
pub open spec fn afloat(ships: Seq<ShipInstance>) -> spec_fn(int) -> bool {
    |i: int| ships[i].alive
}

/// The `i`th ship of a fleet, if it was alive and was not lost.
pub open spec fn kept_ship(ships: Seq<ShipInstance>, lost: Seq<usize>) -> spec_fn(int) -> Option<
    ShipInstance,
> {
    |i: int|
        if ships[i].alive && !sunk(lost, tally(i as nat, afloat(ships))) {
            Some(ships[i])
        } else {
            None
        }
}

/// Whether the index of a ship is among the lost.
pub open spec fn sunk(lost: Seq<usize>, index: nat) -> bool {
    exists|i: int| 0 <= i < lost.len() && #[trigger] lost[i] == index
}

/// The ships that a fleet keeps.
pub open spec fn kept_ships(ships: Seq<ShipInstance>, lost: Seq<usize>) -> Seq<ShipInstance> {
    collect(ships.len(), kept_ship(ships, lost))
}

/// Where the entry of a class stands, counted from `from`.
pub open spec fn entry_of(entries: Seq<FighterEntry>, class: FighterKey, from: nat) -> Option<nat>
    decreases entries.len() - from,
{
    if from >= entries.len() {
        None
    } else if entries[from as int].class == class {
        Some(from)
    } else {
        entry_of(entries, class, from + 1)
    }
}

/// The fighters of a fleet after one report: the first entry of the class
/// takes the count.
pub open spec fn recounted(entries: Seq<FighterEntry>, class: FighterKey, count: u32) -> Seq<
    FighterEntry,
> {
    match entry_of(entries, class, 0) {
        Some(k) => entries.update(k as int, FighterEntry { count, ..entries[k as int] }),
        None => entries,
    }
}

/// The fighters of a fleet after the first `n` reports of a battle.
pub open spec fn kept_fighters(
    entries: Seq<FighterEntry>,
    reports: Seq<BattleFighter>,
    attacker: bool,
    n: nat,
) -> Seq<FighterEntry>
    decreases n,
{
    if n == 0 {
        entries
    } else {
        let before = kept_fighters(entries, reports, attacker, (n - 1) as nat);
        let report = reports[n - 1];
        if report.is_attacker == attacker {
            recounted(before, report.class_key, report.squad_count)
        } else {
            before
        }
    }
}

/// The `i`th fleet of a list, if it is another one.
pub open spec fn other_fleet(list: Seq<FleetKey>, fleet: FleetKey) -> spec_fn(int) -> Option<
    FleetKey,
> {
    |i: int|
        if list[i] != fleet {
            Some(list[i])
        } else {
            None
        }
}

/// A list of fleets without one of them.
pub open spec fn without_fleet(list: Seq<FleetKey>, fleet: FleetKey) -> Seq<FleetKey> {
    collect(list.len(), other_fleet(list, fleet))
}

/// Whether `after` is `before` with a fleet struck from the orbit of a system.
pub open spec fn left_orbit(
    before: Seq<Option<System>>,
    after: Seq<Option<System>>,
    system: SystemKey,
    fleet: FleetKey,
) -> bool {
    let slot = system.slot as int;
    if occupied(before, slot) {
        &&& after.len() == before.len()
        &&& after == before.update(slot, after[slot])
        &&& after[slot] is Some
        &&& (after[slot]->0).fleets@ == without_fleet((before[slot]->0).fleets@, fleet)
        &&& after[slot]->0 == (System { fleets: (after[slot]->0).fleets, ..before[slot]->0 })
    } else {
        after == before
    }
}

/// Whether `fleet` is what a battle left of `before`.
pub open spec fn battered(before: Fleet, fleet: Fleet, session: BattleSession, attacker: bool) -> bool {
    &&& fleet == (Fleet {
        capital_ships: fleet.capital_ships,
        fighters: fleet.fighters,
        ..before
    })
    &&& fleet.capital_ships@ == kept_ships(
        before.capital_ships@,
        losses(session.ships@, attacker),
    )
    &&& fleet.fighters@ == kept_fighters(
        before.fighters@,
        session.fighters@,
        attacker,
        session.fighters@.len(),
    )
}

/// Whether nothing is left of a fleet after a battle.
pub open spec fn wiped_out(before: Fleet, session: BattleSession, attacker: bool) -> bool {
    &&& kept_ships(before.capital_ships@, losses(session.ships@, attacker)).len() == 0
    &&& before.fighters@.len() == 0
}

/// Whether `after` is the world `before` once one side's results were applied.
pub open spec fn side_settled(
    before: GameWorld,
    after: GameWorld,
    session: BattleSession,
    attacker: bool,
) -> bool {
    let key = if attacker {
        session.attacker_fleet
    } else {
        session.defender_fleet
    };
    let slot = key.slot as int;
    &&& after == (GameWorld { fleets: after.fleets, systems: after.systems, ..before })
    &&& if !before.fleets.has(key) {
        after.fleets@ == before.fleets@ && after.systems@ == before.systems@
    } else if wiped_out(before.fleets.at(key), session, attacker) {
        &&& after.fleets@ == without(before.fleets@, key.slot as nat)
        &&& left_orbit(before.systems@, after.systems@, before.fleets.at(key).location, key)
    } else {
        &&& after.systems@ == before.systems@
        &&& after.fleets.has(key)
        &&& after.fleets@ == before.fleets@.update(slot, Some(after.fleets.at(key)))
        &&& battered(before.fleets.at(key), after.fleets.at(key), session, attacker)
    }
}

/// Whether an index is among the lost.
fn is_sunk(lost: &Vec<usize>, index: usize) -> (found: bool)
    ensures
        found == sunk(lost@, index as nat),
{
    for i in 0..lost.len()
        invariant
            forall|j: int| 0 <= j < i ==> #[trigger] lost@[j] != index,
    {
        if lost[i] == index {
            assert(lost@[i as int] == index);
            return true;
        }
    }
    false
}

/// The indices of the ships that a side lost.
pub fn lost_ships(session: &BattleSession, attacker: bool) -> (lost: Vec<usize>)
    ensures
        lost@ == losses(session.ships@, attacker),
{
    let ghost f = loss(session.ships@, attacker);
    let mut lost: Vec<usize> = Vec::new();
    for i in 0..session.ships.len()
        invariant
            f == loss(session.ships@, attacker),
            lost@ == collect(i as nat, f),
    {
        let ship: BattleShip = session.ships[i];
        if ship.is_attacker == attacker && !ship.retreated && !ship.alive {
            lost.push(ship.fleet_ship_index);
        }
    }
    lost
}

/// The ships that a fleet keeps.
pub fn surviving_ships(ships: &Vec<ShipInstance>, lost: &Vec<usize>) -> (kept: Vec<ShipInstance>)
    ensures
        kept@ == kept_ships(ships@, lost@),
{
    let ghost f = kept_ship(ships@, lost@);
    let ghost g = afloat(ships@);
    let mut kept: Vec<ShipInstance> = Vec::new();
    let mut index: usize = 0;
    for i in 0..ships.len()
        invariant
            f == kept_ship(ships@, lost@),
            g == afloat(ships@),
            index <= i,
            index == tally(i as nat, g),
            kept@ == collect(i as nat, f),
    {
        if ships[i].alive {
            if !is_sunk(lost, index) {
                kept.push(ships[i]);
            }
            index = index + 1;
        }
    }
    kept
}

/// Gives the first entry of a class a new count.
fn recount(entries: &mut Vec<FighterEntry>, class: FighterKey, count: u32)
    ensures
        final(entries)@ == recounted(old(entries)@, class, count),
        final(entries)@.len() == old(entries)@.len(),
{
    let ghost before = entries@;
    let n: usize = entries.len();
    for i in 0..n
        invariant
            n == entries@.len(),
            entries@ == before,
            before == old(entries)@,
            entry_of(before, class, 0) == entry_of(before, class, i as nat),
    {
        if entries[i].class == class {
            entries[i].count = count;
            assert(entries@ =~= recounted(before, class, count));
            return;
        }
    }
}

/// Takes a fleet out of the orbit of a system.
pub(crate) fn leave_orbit(world: &mut GameWorld, system: SystemKey, fleet: FleetKey)
    ensures
        left_orbit(old(world).systems@, final(world).systems@, system, fleet),
        *final(world) == (GameWorld { systems: final(world).systems, ..*old(world) }),
{
    if let Some(sys) = world.systems.get_mut(system) {
        let ghost f = other_fleet(sys.fleets@, fleet);
        let mut rest: Vec<FleetKey> = Vec::new();
        for i in 0..sys.fleets.len()
            invariant
                f == other_fleet(sys.fleets@, fleet),
                rest@ == collect(i as nat, f),
        {
            if sys.fleets[i] != fleet {
                rest.push(sys.fleets[i]);
            }
        }
        sys.fleets = rest;
    }
}

/// Applies one side's results.
fn settle_side(session: &BattleSession, world: &mut GameWorld, attacker: bool)
    ensures
        side_settled(*old(world), *final(world), *session, attacker),
{
    let key: FleetKey = if attacker {
        session.attacker_fleet
    } else {
        session.defender_fleet
    };
    let lost: Vec<usize> = lost_ships(session, attacker);
    let mut gone: bool = false;
    let mut place: SystemKey = SystemKey { slot: 0 };
    if let Some(fleet) = world.fleets.get_mut(key) {
        let ghost before = *fleet;
        let kept: Vec<ShipInstance> = surviving_ships(&fleet.capital_ships, &lost);
        let mut entries: Vec<FighterEntry> = Vec::new();
        for i in 0..fleet.fighters.len()
            invariant
                entries@ == fleet.fighters@.take(i as int),
        {
            entries.push(fleet.fighters[i]);
            assert(entries@ =~= fleet.fighters@.take(i + 1));
        }
        assert(entries@ =~= before.fighters@);
        for i in 0..session.fighters.len()
            invariant
                entries@ == kept_fighters(before.fighters@, session.fighters@, attacker, i as nat),
                entries@.len() == before.fighters@.len(),
        {
            let report: BattleFighter = session.fighters[i];
            if report.is_attacker == attacker {
                recount(&mut entries, report.class_key, report.squad_count);
            }
        }
        fleet.capital_ships = kept;
        fleet.fighters = entries;
        gone = fleet.is_empty();
        place = fleet.location;
    }
    if gone {
        leave_orbit(world, place, key);
        let _ = world.fleets.remove(key);
        assert(world.fleets@ =~= without(old(world).fleets@, key.slot as nat));
    }
}

/// Applies the outcome of a tactical battle to the campaign, the attacker's
/// fleet first. Lost ships leave their fleet, fighter counts are written back,
/// and a fleet with nothing left leaves the world.
pub fn apply_tactical_results(session: &BattleSession, world: &mut GameWorld)
    ensures
        exists|between: GameWorld| #[trigger]
            side_settled(*old(world), between, *session, true) && side_settled(
                between,
                *final(world),
                *session,
                false,
            ),
{
    settle_side(session, world, true);
    let ghost between = *world;
    settle_side(session, world, false);
    assert(side_settled(*old(world), between, *session, true));
}

/// A ship after the player ordered a retreat: picked ships of the player's
/// side that are alive turn away.
pub open spec fn told_to_retreat(ship: BattleShip, player_is_attacker: bool) -> BattleShip {
    if ship.selected && ship.is_attacker == player_is_attacker && ship.alive {
        BattleShip { retreating: true, selected: false, ..ship }
    } else {
        ship
    }
}

/// Orders the picked ships of the player's side to retreat.
pub fn retreat_selected(session: &mut BattleSession, player_is_attacker: bool)
    ensures
        *final(session) == (BattleSession { ships: final(session).ships, ..*old(session) }),
        final(session).ships@ == old(session).ships@.map_values(
            |ship: BattleShip| told_to_retreat(ship, player_is_attacker),
        ),
{
    let ghost before = session.ships@;
    let count: usize = session.ships.len();
    for i in 0..count
        invariant
            count == before.len(),
            session.ships@.len() == before.len(),
            *session == (BattleSession { ships: session.ships, ..*old(session) }),
            forall|k: int|
                0 <= k < i ==> #[trigger] session.ships@[k] == told_to_retreat(
                    before[k],
                    player_is_attacker,
                ),
            forall|k: int| i <= k < before.len() ==> #[trigger] session.ships@[k] == before[k],
    {
        let ship: BattleShip = session.ships[i];
        if ship.selected && ship.is_attacker == player_is_attacker && ship.alive {
            session.ships.set(
                i,
                BattleShip {
                    is_attacker: ship.is_attacker,
                    retreated: ship.retreated,
                    alive: ship.alive,
                    selected: false,
                    retreating: true,
                    fleet_ship_index: ship.fleet_ship_index,
                },
            );
        }
    }
    assert(session.ships@ =~= before.map_values(
        |ship: BattleShip| told_to_retreat(ship, player_is_attacker),
    ));
}

/// The speed of a battle, kept within its limits.
pub fn battle_speed(asked: u32) -> (speed: u32)
    ensures
        speed == if asked < 1 {
            1
        } else if asked > 4 {
            4
        } else {
            asked
        },
{
    if asked < 1 {
        1
    } else if asked > 4 {
        4
    } else {
        asked
    }
}

/// A battle never adds ships to a fleet, and the ships that it keeps were
/// alive before it.
pub proof fn law_no_ship_is_gained(ships: Seq<ShipInstance>, lost: Seq<usize>)
    ensures
        kept_ships(ships, lost).len() <= ships.len(),
        forall|i: int|
            0 <= i < kept_ships(ships, lost).len() ==> (#[trigger] kept_ships(ships, lost)[i]).alive
                && ships.contains(kept_ships(ships, lost)[i]),
{
    lemma_kept_prefix(ships, lost, ships.len());
}

proof fn lemma_kept_prefix(ships: Seq<ShipInstance>, lost: Seq<usize>, n: nat)
    requires
        n <= ships.len(),
    ensures
        collect(n, kept_ship(ships, lost)).len() <= n,
        forall|i: int|
            0 <= i < collect(n, kept_ship(ships, lost)).len() ==> (#[trigger] collect(
                n,
                kept_ship(ships, lost),
            )[i]).alive && ships.contains(collect(n, kept_ship(ships, lost))[i]),
    decreases n,
{
    if n > 0 {
        lemma_kept_prefix(ships, lost, (n - 1) as nat);
        assert(ships.contains(ships[n - 1]));
    }
}

/// A side that lost nothing keeps every ship that was alive.
pub proof fn law_no_losses_no_change(ships: Seq<ShipInstance>)
    requires
        forall|i: int| 0 <= i < ships.len() ==> (#[trigger] ships[i]).alive,
    ensures
        kept_ships(ships, Seq::<usize>::empty()) == ships,
{
    lemma_all_kept(ships, ships.len());
    assert(ships.take(ships.len() as int) =~= ships);
}

proof fn lemma_all_kept(ships: Seq<ShipInstance>, n: nat)
    requires
        n <= ships.len(),
        forall|i: int| 0 <= i < ships.len() ==> (#[trigger] ships[i]).alive,
    ensures
        collect(n, kept_ship(ships, Seq::<usize>::empty())) == ships.take(n as int),
    decreases n,
{
    if n > 0 {
        lemma_all_kept(ships, (n - 1) as nat);
        assert(ships[n - 1].alive);
        assert(ships.take(n as int) =~= ships.take(n - 1).push(ships[n - 1]));
    } else {
        assert(ships.take(0) =~= Seq::empty());
    }
}

} // verus!
