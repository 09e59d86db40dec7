//! Where battles and landings happen, in terms of who is there.

use crate::arena::lemma_slots_bounded;
use crate::dat::Faction;
use crate::fire_laws::{lemma_count_witness, lemma_counted};
use crate::ground_campaign::{fighting, fights};
use crate::ids::{FleetKey, SystemKey, TroopKey};
use crate::orbit::{
    attackers_at, battle_at, contenders, defenders_at, first_invader, first_of_side,
    ground_battle_at, headquarters_of, landing_at, loaded_over, sole_side,
};
use crate::select::{collect, gives, lemma_collect_covers};
use crate::text::decimal;
use crate::world::{ControlKind, GameWorld, System};
use vstd::prelude::*;

verus! {

/// Whether a fleet of a side lives at a place of a list.
pub open spec fn stands_there(world: GameWorld, fleets: Seq<FleetKey>, side: bool, i: int) -> bool {
    &&& 0 <= i < fleets.len()
    &&& world.fleets.has(fleets[i])
    &&& world.fleets.at(fleets[i]).is_alliance == side
}

/// The first fleet of a side is one of the list, of the side and alive, and
/// none such comes before it; there is one as long as any is there.
pub proof fn law_the_first_fleet_of_a_side(
    world: GameWorld,
    fleets: Seq<FleetKey>,
    side: bool,
    i: int,
)
    ensures
        ({
            let found = first_of_side(world, fleets, side, 0);
            &&& found is Some ==> exists|k: int|
                stands_there(world, fleets, side, k) && found == Some(#[trigger] fleets[k])
            &&& stands_there(world, fleets, side, i) ==> exists|k: int|
                0 <= k <= i && stands_there(world, fleets, side, k) && found == Some(
                    #[trigger] fleets[k],
                )
        }),
{
    lemma_first(world, fleets, side, 0, i);
}

proof fn lemma_first(world: GameWorld, fleets: Seq<FleetKey>, side: bool, from: nat, i: int)
    ensures
        ({
            let found = first_of_side(world, fleets, side, from);
            &&& found is Some ==> exists|k: int|
                from <= k && stands_there(world, fleets, side, k) && found == Some(
                    #[trigger] fleets[k],
                )
            &&& from <= i && stands_there(world, fleets, side, i) ==> exists|k: int|
                from <= k <= i && stands_there(world, fleets, side, k) && found == Some(
                    #[trigger] fleets[k],
                )
        }),
    decreases fleets.len() - from,
{
    if from < fleets.len() {
        lemma_first(world, fleets, side, from + 1, i);
        assert(fleets[from as int] == fleets[from as int]);
    }
}

/// Battles are fought over exactly those systems where both sides have a fleet
/// and no battle was fought lately, between a fleet of the Alliance and one of
/// the Empire.
pub proof fn law_where_battles_are_fought(
    world: GameWorld,
    cooldowns: Map<usize, u64>,
    tick: u64,
    key: SystemKey,
)
    requires
        world.systems.has(key),
        tick < u64::MAX,
    ensures
        ({
            let list = collect(world.systems@.len(), battle_at(world, cooldowns, tick));
            let fleets = world.systems.at(key).fleets@;
            let both = (exists|i: int| #[trigger] stands_there(world, fleets, true, i)) && (exists|
                i: int,
            | #[trigger] stands_there(world, fleets, false, i));
            let lately = cooldowns.contains_key(key.slot) && tick - cooldowns[key.slot] < 5;
            (exists|k: int| 0 <= k < list.len() && (#[trigger] list[k]).0 == key) <==> both
                && !lately
        }),
{
    let f = battle_at(world, cooldowns, tick);
    let n = world.systems@.len();
    lemma_slots_bounded(&world.systems);
    lemma_collect_covers(n, f);
    let list = collect(n, f);
    let fleets = world.systems.at(key).fleets@;
    lemma_any(world, fleets, true);
    lemma_any(world, fleets, false);
    if exists|k: int| 0 <= k < list.len() && (#[trigger] list[k]).0 == key {
        let k = choose|k: int| 0 <= k < list.len() && (#[trigger] list[k]).0 == key;
        assert(gives(n, f, list[k]));
        let i = choose|i: int| 0 <= i < n && #[trigger] f(i) == Some(list[k]);
        assert(i == key.slot);
    }
    if f(key.slot as int) is Some {
        let k = choose|k: int| 0 <= k < list.len() && list[k] == f(key.slot as int)->0;
        assert(list[k].0 == key);
    }
}

proof fn lemma_any(world: GameWorld, fleets: Seq<FleetKey>, side: bool)
    ensures
        first_of_side(world, fleets, side, 0) is Some <==> exists|i: int| #[trigger]
            stands_there(world, fleets, side, i),
{
    if exists|i: int| #[trigger] stands_there(world, fleets, side, i) {
        let i = choose|i: int| #[trigger] stands_there(world, fleets, side, i);
        lemma_first(world, fleets, side, 0, i);
    } else {
        lemma_first(world, fleets, side, 0, 0);
    }
}

/// A side is alone over a system exactly if it has a fleet there and the other
/// has none.
pub proof fn law_who_is_alone_in_orbit(world: GameWorld, sys: System)
    ensures
        ({
            let rebels = exists|i: int| #[trigger] stands_there(world, sys.fleets@, true, i);
            let imperials = exists|i: int| #[trigger] stands_there(world, sys.fleets@, false, i);
            &&& rebels && !imperials ==> sole_side(world, sys) == Some(true)
            &&& !rebels && imperials ==> sole_side(world, sys) == Some(false)
            &&& rebels == imperials ==> sole_side(world, sys) is None
        }),
{
    lemma_any(world, sys.fleets@, true);
    lemma_any(world, sys.fleets@, false);
}

/// Landings are made at exactly the systems over which one side is alone and a
/// fleet carries regiments, by that side.
pub proof fn law_where_landings_are_made(
    world: GameWorld,
    loaded: Seq<FleetKey>,
    key: SystemKey,
    side: bool,
)
    ensures
        collect(world.systems@.len(), landing_at(world, loaded)).contains((key, side)) <==> {
            &&& world.systems.has(key)
            &&& sole_side(world, world.systems.at(key)) == Some(side)
            &&& exists|i: int|
                0 <= i < world.systems.at(key).fleets@.len() && loaded.contains(
                    #[trigger] world.systems.at(key).fleets@[i],
                )
        },
{
    let f = landing_at(world, loaded);
    let n = world.systems@.len();
    lemma_slots_bounded(&world.systems);
    lemma_collect_covers(n, f);
    let list = collect(n, f);
    if list.contains((key, side)) {
        let k = choose|k: int| 0 <= k < list.len() && list[k] == (key, side);
        assert(gives(n, f, list[k]));
        let i = choose|i: int| 0 <= i < n && #[trigger] f(i) == Some(list[k]);
    }
    if world.systems.has(key) && sole_side(world, world.systems.at(key)) == Some(side)
        && loaded_over(world.systems.at(key), loaded) {
        assert(f(key.slot as int) == Some((key, side)));
    }
}

/// The fleet that bombards before a landing is one of the Empire's that
/// carries regiments, and none such comes before it.
pub proof fn law_who_bombards_before_landing(
    world: GameWorld,
    fleets: Seq<FleetKey>,
    loaded: Seq<FleetKey>,
    from: nat,
    i: int,
)
    ensures
        ({
            let found = first_invader(world, fleets, loaded, from);
            &&& found is Some ==> exists|k: int|
                from <= k && stands_there(world, fleets, false, k) && loaded.contains(
                    fleets[k],
                ) && found == Some(#[trigger] fleets[k])
            &&& from <= i && stands_there(world, fleets, false, i) && loaded.contains(fleets[i])
                ==> exists|k: int|
                from <= k <= i && stands_there(world, fleets, false, k) && loaded.contains(
                    fleets[k],
                ) && found == Some(#[trigger] fleets[k])
        }),
    decreases fleets.len() - from,
{
    if from < fleets.len() {
        law_who_bombards_before_landing(world, fleets, loaded, from + 1, i);
        assert(fleets[from as int] == fleets[from as int]);
    }
}

/// Ground battles go on at exactly the systems where both sides have regiments
/// with any strength and none was fought today. The Empire attacks only where
/// it alone has fleets.
pub proof fn law_where_ground_battles_go_on(
    world: GameWorld,
    resolved: Set<usize>,
    key: SystemKey,
    alliance_attacks: bool,
)
    ensures
        ({
            let fights = |side: bool|
                exists|i: int|
                    0 <= i < world.systems.at(key).ground_units@.len() && world.troops.has(
                        #[trigger] world.systems.at(key).ground_units@[i],
                    ) && world.troops.at(
                        world.systems.at(key).ground_units@[i],
                    ).is_alliance == side && world.troops.at(
                        world.systems.at(key).ground_units@[i],
                    ).regiment_strength > 0;
            collect(world.systems@.len(), ground_battle_at(world, resolved)).contains(
                (key, alliance_attacks),
            ) <==> {
                &&& world.systems.has(key)
                &&& !resolved.contains(key.slot)
                &&& fights(true)
                &&& fights(false)
                &&& alliance_attacks == (sole_side(world, world.systems.at(key)) != Some(false))
            }
        }),
{
    let f = ground_battle_at(world, resolved);
    let n = world.systems@.len();
    lemma_slots_bounded(&world.systems);
    lemma_collect_covers(n, f);
    let list = collect(n, f);
    if world.systems.has(key) {
        lemma_fighting(world, key, true);
        lemma_fighting(world, key, false);
    }
    if list.contains((key, alliance_attacks)) {
        let k = choose|k: int| 0 <= k < list.len() && list[k] == (key, alliance_attacks);
        assert(gives(n, f, list[k]));
        let i = choose|i: int| 0 <= i < n && #[trigger] f(i) == Some(list[k]);
        assert(i == key.slot);
    }
    if world.systems.has(key) && f(key.slot as int) == Some((key, alliance_attacks)) {
        assert(list.contains(f(key.slot as int)->0));
    }
}

proof fn lemma_fighting(world: GameWorld, key: SystemKey, side: bool)
    requires
        world.systems.has(key),
    ensures
        fighting(world, key, side) > 0 <==> exists|i: int|
            0 <= i < world.systems.at(key).ground_units@.len() && world.troops.has(
                #[trigger] world.systems.at(key).ground_units@[i],
            ) && world.troops.at(world.systems.at(key).ground_units@[i]).is_alliance == side
                && world.troops.at(
                world.systems.at(key).ground_units@[i],
            ).regiment_strength > 0,
{
    let sys = world.systems.at(key);
    let units = sys.ground_units@;
    let f = fights(world, sys, side);
    if fighting(world, key, side) > 0 {
        lemma_count_witness(units.len(), f);
        let i = choose|i: int| 0 <= i < units.len() && #[trigger] f(i);
        assert(world.troops.has(world.systems.at(key).ground_units@[i]));
    }
    if exists|i: int|
        0 <= i < world.systems.at(key).ground_units@.len() && world.troops.has(
            #[trigger] world.systems.at(key).ground_units@[i],
        ) && world.troops.at(world.systems.at(key).ground_units@[i]).is_alliance == side
            && world.troops.at(
            world.systems.at(key).ground_units@[i],
        ).regiment_strength > 0 {
        let i = choose|i: int|
            0 <= i < world.systems.at(key).ground_units@.len() && world.troops.has(
                #[trigger] world.systems.at(key).ground_units@[i],
            ) && world.troops.at(world.systems.at(key).ground_units@[i]).is_alliance == side
                && world.troops.at(
                world.systems.at(key).ground_units@[i],
            ).regiment_strength > 0;
        lemma_counted(units.len(), f, i);
    }
}

/// The headquarters of a faction is the first system that is marked as one and
/// that the faction holds.
pub proof fn law_the_first_headquarters_counts(
    world: GameWorld,
    faction: Faction,
    from: nat,
    slot: int,
)
    ensures
        ({
            let found = headquarters_of(world, faction, from);
            let seat = |i: int|
                0 <= i < world.systems@.len() && world.systems@[i] is Some && (
                world.systems@[i]->0).is_headquarters && (world.systems@[i]->0).control
                    == ControlKind::Controlled(faction);
            &&& found is Some && world.systems@.len() <= usize::MAX ==> seat(found->0.slot as int)
                && found->0.slot >= from
            &&& from <= slot && seat(slot) && world.systems@.len() <= usize::MAX ==> found is Some
                && found->0.slot <= slot
        }),
    decreases world.systems@.len() - from,
{
    if from < world.systems@.len() {
        law_the_first_headquarters_counts(world, faction, from + 1, slot);
    }
}

// ---- Who lines up ----------------------------------------------------------

/// Whether a regiment of a side can fight.
spec fn can_line_up(world: GameWorld, troop: TroopKey, side: bool) -> bool {
    &&& world.troops.has(troop)
    &&& world.troops.at(troop).is_alliance == side
    &&& world.troops.at(troop).regiment_strength > 0
}

/// Those who line up are those who can fight.
proof fn lemma_lineup(
    world: GameWorld,
    garrison: Seq<TroopKey>,
    side: bool,
    title: Seq<char>,
    n: nat,
)
    requires
        n <= garrison.len(),
    ensures
        ({
            let list = contenders(world, garrison, side, title, n);
            &&& list.len() <= n
            &&& forall|k: int|
                0 <= k < list.len() ==> {
                    let one = #[trigger] list[k];
                    &&& can_line_up(world, one.troop, side)
                    &&& one.strength == world.troops.at(one.troop).regiment_strength
                    &&& one.name == title + decimal((k + 1) as nat)
                    &&& garrison.contains(one.troop)
                }
            &&& forall|i: int|
                0 <= i < n && can_line_up(world, #[trigger] garrison[i], side) ==> exists|k: int|
                    0 <= k < list.len() && (#[trigger] list[k]).troop == garrison[i]
        }),
    decreases n,
{
    if n > 0 {
        let m = (n - 1) as nat;
        lemma_lineup(world, garrison, side, title, m);
        let before = contenders(world, garrison, side, title, m);
        let list = contenders(world, garrison, side, title, n);
        let last = garrison[n - 1];
        assert(garrison.contains(last));
        assert forall|i: int|
            0 <= i < n && can_line_up(world, #[trigger] garrison[i], side) implies exists|k: int|
            0 <= k < list.len() && (#[trigger] list[k]).troop == garrison[i] by {
            if i < m {
                let k = choose|k: int|
                    0 <= k < before.len() && (#[trigger] before[k]).troop == garrison[i];
                assert(list[k] == before[k]);
            } else {
                assert(list[list.len() - 1].troop == garrison[i]);
            }
        }
    }
}

/// Every regiment of the garrison with strength left lines up, under its own
/// strength: with the attackers if it is of the attacking side, else with the
/// defenders. No other does, and the names are numbered from one.
pub proof fn law_who_lines_up(world: GameWorld, system: SystemKey, side: bool, i: int, k: int)
    requires
        world.systems.has(system),
        0 <= i < world.systems.at(system).ground_units@.len(),
        0 <= k,
    ensures
        ({
            let garrison = world.systems.at(system).ground_units@;
            let troop = garrison[i];
            let attackers = attackers_at(world, system, side);
            let defenders = defenders_at(world, system, side);
            let fit = world.troops.has(troop) && world.troops.at(troop).regiment_strength > 0;
            &&& fit && world.troops.at(troop).is_alliance == side ==> exists|j: int|
                0 <= j < attackers.len() && (#[trigger] attackers[j]).troop == troop
            &&& fit && world.troops.at(troop).is_alliance != side ==> exists|j: int|
                0 <= j < defenders.len() && (#[trigger] defenders[j]).troop == troop
            &&& k < attackers.len() ==> {
                let one = attackers[k];
                &&& garrison.contains(one.troop)
                &&& world.troops.has(one.troop)
                &&& world.troops.at(one.troop).is_alliance == side
                &&& one.strength == world.troops.at(one.troop).regiment_strength
                &&& one.strength > 0
                &&& one.name == "Attacker Regiment "@ + decimal((k + 1) as nat)
            }
            &&& k < defenders.len() ==> {
                let one = defenders[k];
                &&& garrison.contains(one.troop)
                &&& world.troops.has(one.troop)
                &&& world.troops.at(one.troop).is_alliance != side
                &&& one.strength == world.troops.at(one.troop).regiment_strength
                &&& one.strength > 0
                &&& one.name == "Defender Regiment "@ + decimal((k + 1) as nat)
            }
        }),
{
    let garrison = world.systems.at(system).ground_units@;
    lemma_lineup(world, garrison, side, "Attacker Regiment "@, garrison.len());
    lemma_lineup(world, garrison, !side, "Defender Regiment "@, garrison.len());
    let attackers = contenders(world, garrison, side, "Attacker Regiment "@, garrison.len());
    let defenders = contenders(world, garrison, !side, "Defender Regiment "@, garrison.len());
    assert(attackers_at(world, system, side) == attackers);
    assert(defenders_at(world, system, side) == defenders);
    let troop = garrison[i];
    if can_line_up(world, troop, side) {
        let j = choose|j: int| 0 <= j < attackers.len() && (#[trigger] attackers[j]).troop == troop;
        assert(attackers[j].troop == troop);
    }
    if can_line_up(world, troop, !side) {
        let j = choose|j: int| 0 <= j < defenders.len() && (#[trigger] defenders[j]).troop == troop;
        assert(defenders[j].troop == troop);
    }
    if k < attackers.len() {
        assert(can_line_up(world, attackers[k].troop, side));
    }
    if k < defenders.len() {
        assert(can_line_up(world, defenders[k].troop, !side));
    }
}

} // verus!
