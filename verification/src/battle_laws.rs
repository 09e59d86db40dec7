//! What holds of a space battle as a whole, from the fleets to the reports.

use crate::combat::{winner_of, CombatSide, FighterLossEvent, ShipDamageEvent};
use crate::fire_laws::law_fire_is_split;
use crate::ids::FleetKey;
use crate::select::{
    collect, gives, lemma_collect_covers, lemma_total_monotone, lemma_total_same, tally, total,
};
use crate::space::{
    absorbed, alive_count, classes, emperor_aboard, fire_of, fire_term, fired_on, ion_of, ion_term,
    living_snap, paired, roster, snaps, some_alive, some_left, spurred, struck, volley_fits,
    ShipSnap,
};
use crate::space_battle::{
    after_battle, after_blows, after_fire, before_battle, fighters_done, hull_event, hull_events,
    hulls, loss_event, loss_events, some_armed, SpaceDice, Standing,
};
use crate::space_fighters::{
    after_losses, carrier_capacity, entry, hangar, launched, picked, raid, raided, raided_by,
    recalled, returning, run_power, screen_of, screen_term, screened, squad, squads, squads_behind,
    target_at, targets_of,
};
use crate::wing_laws::law_when_wings_fight;
use crate::world::{Fleet, GameWorld};
use vstd::prelude::*;

verus! {

/// A side with something left beats one with nothing left.
pub proof fn law_the_last_one_standing_wins()
    ensures
        winner_of(true, false) == CombatSide::Attacker,
        winner_of(false, true) == CombatSide::Defender,
        winner_of(true, true) == CombatSide::Draw,
        winner_of(false, false) == CombatSide::Draw,
{
}

/// Whether the rolls of two battles are the same with the sides exchanged.
pub open spec fn mirrored(a: SpaceDice, b: SpaceDice) -> bool {
    &&& b.fire_on_defender@ == a.fire_on_attacker@
    &&& b.fire_on_attacker@ == a.fire_on_defender@
    &&& b.attacker_blows@ == a.defender_blows@
    &&& b.defender_blows@ == a.attacker_blows@
    &&& b.attacker_picks@ == a.defender_picks@
    &&& b.defender_picks@ == a.attacker_picks@
    &&& b.attacker_screen == a.defender_screen
    &&& b.defender_screen == a.attacker_screen
    &&& b.attacker_losses == a.defender_losses
    &&& b.defender_losses == a.attacker_losses
}

/// Neither side has an advantage from being the attacker: with the sides and
/// the rolls exchanged, every ship and every squadron fares the same.
pub proof fn law_sides_are_equal(
    world: GameWorld,
    one: Fleet,
    other: Fleet,
    dice: SpaceDice,
    swapped: SpaceDice,
    generator_runs: bool,
)
    requires
        mirrored(dice, swapped),
    ensures
        ({
            let a = after_battle(world, one, other, dice, generator_runs);
            let b = after_battle(world, other, one, swapped, generator_runs);
            &&& b.atk_ships == a.def_ships
            &&& b.def_ships == a.atk_ships
            &&& b.atk_fighters == a.def_fighters
            &&& b.def_fighters == a.atk_fighters
        }),
{
    let b = before_battle(world, one, other);
    lemma_fire_first(world, one, b.atk_ships, other, b.def_ships, dice.fire_on_defender@);
    lemma_fire_first(world, other, b.def_ships, one, b.atk_ships, dice.fire_on_attacker@);
    let s = after_fire(world, one, other, dice);
    let t = after_fire(world, other, one, swapped);
    assert(t.atk_ships == s.def_ships);
    assert(t.def_ships == s.atk_ships);
}

/// Being shot at does not keep a fleet from shooting back in the same exchange.
proof fn lemma_fire_first(
    world: GameWorld,
    firing: Fleet,
    guns: Seq<ShipSnap>,
    target: Fleet,
    ships: Seq<ShipSnap>,
    spread: Seq<i64>,
)
    ensures
        ({
            let after = fired_on(
                ships,
                fire_of(world, firing, guns),
                ion_of(world, firing, guns),
                spread,
            );
            &&& fire_of(world, target, after) == fire_of(world, target, ships)
            &&& ion_of(world, target, after) == ion_of(world, target, ships)
        }),
{
    let after = fired_on(ships, fire_of(world, firing, guns), ion_of(world, firing, guns), spread);
    let list = classes(target);
    let n = paired(list, ships);
    lemma_total_same(n, fire_term(world, list, ships), fire_term(world, list, after));
    lemma_total_same(n, ion_term(world, list, ships), ion_term(world, list, after));
}

/// As soon as either side has a ship, both fire with all they have when the
/// battle begins, and the Emperor spurs his own side on. Then shields absorb
/// what they can of the damage, and what is left strikes the hulls with the
/// weight that the rolls give it. Fighters come last.
pub proof fn law_phases_in_order(
    world: GameWorld,
    attacker: Fleet,
    defender: Fleet,
    dice: SpaceDice,
    generator_runs: bool,
    i: int,
)
    ensures
        ({
            let b = before_battle(world, attacker, defender);
            let s = after_fire(world, attacker, defender, dice);
            let c = after_blows(s, dice, generator_runs);
            let e = after_battle(world, attacker, defender, dice, generator_runs);
            let ships = snaps(world, attacker).len() > 0 || snaps(world, defender).len() > 0;
            let squadrons = (exists|k: int|
                0 <= k < attacker.fighters@.len() && (#[trigger] attacker.fighters@[k]).count > 0)
                || (exists|k: int|
                0 <= k < defender.fighters@.len() && (#[trigger] defender.fighters@[k]).count > 0);
            let hit = fired_on(
                snaps(world, defender),
                fire_of(world, attacker, snaps(world, attacker)),
                ion_of(world, attacker, snaps(world, attacker)),
                dice.fire_on_defender@,
            );
            &&& b.atk_ships == snaps(world, attacker) && b.def_ships == snaps(world, defender)
            &&& ships ==> s.def_ships == if emperor_aboard(world, attacker) {
                spurred(hit)
            } else {
                hit
            }
            &&& 0 <= i < s.def_ships.len() ==> {
                let shielded = absorbed(s.def_ships[i]);
                let blow = if i < dice.defender_blows@.len() {
                    dice.defender_blows@[i]
                } else {
                    shielded.pending_damage
                };
                c.def_ships[i] == struck(shielded, blow as int, generator_runs)
            }
            &&& ships || squadrons ==> e == fighters_done(
                world,
                attacker,
                defender,
                c,
                dice,
                generator_runs,
            )
            &&& !ships && !squadrons ==> e.atk_ships.len() == 0 && e.def_ships.len() == 0
                && e.atk_fighters == b.atk_fighters && e.def_fighters == b.def_fighters
        }),
{
    let b = before_battle(world, attacker, defender);
    lemma_fresh(world, attacker);
    lemma_fresh(world, defender);
    if b.atk_ships.len() > 0 {
        assert(b.atk_ships[0].alive && b.atk_ships[0].weapon_nibble > 0);
    }
    if b.def_ships.len() > 0 {
        assert(b.def_ships[0].alive && b.def_ships[0].weapon_nibble > 0);
    }
    lemma_squadrons(attacker);
    lemma_squadrons(defender);
}

proof fn lemma_squadrons(fleet: Fleet)
    ensures
        some_left(roster(fleet)) <==> exists|k: int|
            0 <= k < fleet.fighters@.len() && (#[trigger] fleet.fighters@[k]).count > 0,
{
    if some_left(roster(fleet)) {
        let k = choose|k: int| 0 <= k < roster(fleet).len() && #[trigger] roster(fleet)[k] > 0;
        assert(fleet.fighters@[k].count > 0);
    }
    if exists|k: int| 0 <= k < fleet.fighters@.len() && (#[trigger] fleet.fighters@[k]).count > 0 {
        let k = choose|k: int|
            0 <= k < fleet.fighters@.len() && (#[trigger] fleet.fighters@[k]).count > 0;
        assert(roster(fleet)[k] > 0);
    }
}

/// A fleet that came with ships needs them for its fighters: if none is left
/// when fighters take off, none takes off; and if none is left when they
/// return, of those that took off none comes home.
pub proof fn law_wings_need_carriers(
    world: GameWorld,
    attacker: Fleet,
    defender: Fleet,
    b: Standing,
    dice: SpaceDice,
    generator_runs: bool,
    i: int,
)
    requires
        b.atk_ships.len() > 0,
        0 <= i < b.atk_fighters.len(),
    ensures
        ({
            let e = fighters_done(world, attacker, defender, b, dice, generator_runs);
            &&& (forall|k: int| 0 <= k < b.atk_ships.len() ==> !(#[trigger] b.atk_ships[k]).alive)
                ==> e.atk_fighters[i] == b.atk_fighters[i]
            &&& (forall|k: int| 0 <= k < e.atk_ships.len() ==> !(#[trigger] e.atk_ships[k]).alive)
                ==> e.atk_fighters[i] == 0 || e.atk_fighters[i] == b.atk_fighters[i]
            &&& (forall|k: int| 0 <= k < e.atk_ships.len() ==> !(#[trigger] e.atk_ships[k]).alive)
                && launched(
                b.atk_fighters,
                carrier_capacity(world, attacker, b.atk_ships, false),
            )[i] > 0 ==> e.atk_fighters[i] == 0
        }),
{
    let e = fighters_done(world, attacker, defender, b, dice, generator_runs);
    if forall|k: int| 0 <= k < b.atk_ships.len() ==> !(#[trigger] b.atk_ships[k]).alive {
        lemma_no_room(world, attacker, b.atk_ships);
        lemma_total_monotone(0, i as nat, squad(b.atk_fighters));
    }
    if forall|k: int| 0 <= k < e.atk_ships.len() ==> !(#[trigger] e.atk_ships[k]).alive {
        lemma_no_room(world, attacker, e.atk_ships);
        lemma_nobody_home(b.atk_fighters, i);
    }
}

proof fn lemma_nobody_home(groups: Seq<u32>, i: int)
    requires
        0 <= i < groups.len(),
    ensures
        forall|survivors: Seq<u32>, flown: Seq<u32>|
            (#[trigger] recalled(groups, survivors, flown, 0))[i] == 0 || recalled(
                groups,
                survivors,
                flown,
                0,
            )[i] == groups[i] && entry(flown, i) == 0,
{
    assert forall|survivors: Seq<u32>, flown: Seq<u32>|
        (#[trigger] recalled(groups, survivors, flown, 0))[i] == 0 || recalled(
            groups,
            survivors,
            flown,
            0,
        )[i] == groups[i] && entry(flown, i) == 0 by {
        lemma_total_monotone(0, i as nat, returning(survivors, flown));
    }
}

proof fn lemma_no_room(world: GameWorld, fleet: Fleet, ships: Seq<ShipSnap>)
    requires
        forall|k: int| 0 <= k < ships.len() ==> !(#[trigger] ships[k]).alive,
    ensures
        carrier_capacity(world, fleet, ships, false) == 0,
{
    let list = classes(fleet);
    let n = paired(list, ships);
    lemma_even(n, hangar(world, list, ships), 0);
    assert(0 * n == 0) by (nonlinear_arith);
}

/// Whether a list of hulls has neither shields nor Death Stars.
pub open spec fn unshielded(ships: Seq<ShipSnap>) -> bool {
    forall|i: int|
        0 <= i < ships.len() ==> (#[trigger] ships[i]).shield_current <= 0 && ships[i].shield_max
            <= 0 && !ships[i].is_death_star && ships[i].hull_current > 0
}

/// Where only guns decide, hulls lose what is fired. Against ships without
/// shields, with no fighters on either side, no Emperor and no roll in the
/// damage, every ship of the defender loses the same from its hull as far as
/// it has it, all of them together no more than the attacker's fire and no
/// less than that but for two points a ship.
pub proof fn law_guns_wear_hulls(
    world: GameWorld,
    attacker: Fleet,
    defender: Fleet,
    dice: SpaceDice,
    generator_runs: bool,
    each: int,
    i: int,
)
    requires
        ({
            let b = before_battle(world, attacker, defender);
            let fire = fire_of(world, attacker, b.atk_ships);
            let ion = ion_of(world, attacker, b.atk_ships);
            &&& unshielded(b.def_ships)
            &&& 0 <= i < b.def_ships.len()
            &&& b.def_ships.len() <= usize::MAX
            &&& fire >= 0 && ion >= 0 && fire + ion > 2 * b.def_ships.len()
            &&& volley_fits(b.def_ships, fire, ion, Seq::empty())
            &&& each == fired_on(b.def_ships, fire, ion, Seq::empty())[i].pending_damage
        }),
        attacker.fighters@.len() == 0,
        defender.fighters@.len() == 0,
        !emperor_aboard(world, attacker),
        dice.fire_on_defender@.len() == 0,
        dice.defender_blows@.len() == 0,
    ensures
        ({
            let b = before_battle(world, attacker, defender);
            let e = after_battle(world, attacker, defender, dice, generator_runs);
            let count = b.def_ships.len();
            let all = fire_of(world, attacker, b.atk_ships) + ion_of(
                world,
                attacker,
                b.atk_ships,
            );
            &&& each * count <= all < (each + 2) * count
            &&& e.def_ships.len() == count
            &&& each < b.def_ships[i].hull_current ==> e.def_ships[i].hull_current
                == b.def_ships[i].hull_current - each && e.def_ships[i].alive
            &&& each >= b.def_ships[i].hull_current ==> e.def_ships[i].hull_current == 0
                && !e.def_ships[i].alive
        }),
{
    let b = before_battle(world, attacker, defender);
    let fire = fire_of(world, attacker, b.atk_ships);
    let ion = ion_of(world, attacker, b.atk_ships);
    let ships = b.def_ships;
    let n = ships.len() as int;
    lemma_fresh(world, attacker);
    lemma_fresh(world, defender);
    assert(dice.fire_on_defender@ =~= Seq::<i64>::empty());
    let hit = fired_on(ships, fire, ion, Seq::empty());
    lemma_all_alive(ships, ships.len());
    assert(alive_count(ships) == n);
    assert(ships[i].alive && some_alive(ships));
    law_fire_is_split(ships, fire, ion);
    let alive = |k: int| ships[k].alive;
    let dealt = crate::select::total(ships.len(), crate::fire_laws::taken(ships, hit));
    assert forall|k: int| 0 <= k < ships.len() implies #[trigger] crate::fire_laws::taken(
        ships,
        hit,
    )(k) == each by {
        assert(ships[k].alive && ships[k].pending_damage == 0);
    }
    lemma_even(ships.len(), crate::fire_laws::taken(ships, hit), each);
    assert((each + 2) * n == each * n + 2 * n) by (nonlinear_arith);
    assert(each > 0) by (nonlinear_arith)
        requires
            (each + 2) * n > 2 * n,
            n > 0,
            each * n + 2 * n == (each + 2) * n,
    ;
    assert(fire + ion > 0);
    lemma_attackers_there(world, attacker, b.atk_ships);
    let s = after_fire(world, attacker, defender, dice);
    assert(some_armed(b.def_ships)) by {
        assert(b.def_ships[i].alive && b.def_ships[i].weapon_nibble > 0);
    }
    assert(s.def_ships == hit);
    let c = after_blows(s, dice, generator_runs);
    assert(absorbed(hit[i]) == (ShipSnap { ..hit[i] }));
    assert(dice.defender_blows@.len() == 0);
    assert(c.def_ships[i].hull_current == crate::space::hull_left(
        ships[i].hull_current as int,
        each,
    ));
    let e = after_battle(world, attacker, defender, dice, generator_runs);
    lemma_no_raid(
        world,
        attacker,
        launched(
            c.atk_fighters,
            carrier_capacity(world, attacker, c.atk_ships, c.atk_ships.len() == 0),
        ),
        c.def_ships,
        dice.attacker_picks@,
        generator_runs,
    );
    assert(e.def_ships == c.def_ships);
}

proof fn lemma_attackers_there(world: GameWorld, fleet: Fleet, ships: Seq<ShipSnap>)
    ensures
        ships.len() == 0 ==> fire_of(world, fleet, ships) == 0,
{
}

proof fn lemma_even(n: nat, f: spec_fn(int) -> int, each: int)
    requires
        forall|k: int| 0 <= k < n ==> #[trigger] f(k) == each,
    ensures
        crate::select::total(n, f) == each * n,
    decreases n,
{
    if n > 0 {
        lemma_even((n - 1) as nat, f, each);
        assert(f(n - 1) == each);
        assert(each * (n - 1) + each == each * n) by (nonlinear_arith);
    } else {
        assert(each * 0 == 0) by (nonlinear_arith);
    }
}

proof fn lemma_all_alive(ships: Seq<ShipSnap>, n: nat)
    requires
        n <= ships.len(),
        forall|k: int| 0 <= k < ships.len() ==> (#[trigger] ships[k]).alive,
    ensures
        tally(n, |j: int| ships[j].alive) == n,
    decreases n,
{
    if n > 0 {
        lemma_all_alive(ships, (n - 1) as nat);
        assert(ships[n - 1].alive);
    }
}

proof fn lemma_no_raid(
    world: GameWorld,
    fleet: Fleet,
    groups: Seq<u32>,
    ships: Seq<ShipSnap>,
    picks: Seq<usize>,
    generator_runs: bool,
)
    requires
        groups.len() == 0,
    ensures
        raided_by(world, fleet, groups, ships, picks, generator_runs) == ships,
{
}

/// Ships enter a battle alive and without pending damage.
proof fn lemma_fresh(world: GameWorld, fleet: Fleet)
    ensures
        forall|k: int|
            0 <= k < snaps(world, fleet).len() ==> {
                let s = #[trigger] snaps(world, fleet)[k];
                s.alive && s.pending_damage == 0 && s.pending_ion_damage == 0 && s.weapon_nibble
                    == 15
            },
{
    let f = living_snap(world, fleet);
    let n = fleet.capital_ships@.len();
    lemma_collect_covers(n, f);
    let list = snaps(world, fleet);
    assert forall|k: int| 0 <= k < list.len() implies ({
        let s = #[trigger] list[k];
        s.alive && s.pending_damage == 0 && s.pending_ion_damage == 0 && s.weapon_nibble == 15
    }) by {
        assert(gives(n, f, list[k]));
        let i = choose|i: int| 0 <= i < n && #[trigger] f(i) == Some(list[k]);
    }
}

/// A wing of one group that is based in the system takes part in the battle:
/// against a fleet without fighters it attacks one living ship with the power
/// of all its squadrons, and then loses one squadron for every hundred points
/// of the screen of the ships that are left, and one more if the roll says so.
pub proof fn law_local_wings_take_part(
    world: GameWorld,
    wing: Fleet,
    defender: Fleet,
    dice: SpaceDice,
    generator_runs: bool,
    at: int,
)
    requires
        wing.capital_ships@.len() == 0,
        wing.fighters@.len() == 1,
        wing.fighters@[0].count > 0,
        defender.fighters@.len() == 0,
        run_power(world, wing, seq![wing.fighters@[0].count], 0) > 0,
        ({
            let ships = snaps(world, defender);
            let wish: int = if dice.attacker_picks@.len() > 0 {
                dice.attacker_picks@[0] as int
            } else {
                ships.len() as int / 2
            };
            &&& ships.len() <= usize::MAX
            &&& 0 <= at < ships.len()
            &&& at == if wish < ships.len() {
                wish
            } else {
                ships.len() - 1
            }
        }),
    ensures
        ({
            let b = before_battle(world, wing, defender);
            let e = after_battle(world, wing, defender, dice, generator_runs);
            let count = wing.fighters@[0].count;
            let screen = screen_of(world, defender, e.def_ships);
            let fallen = screen / 100 + if dice.defender_screen {
                1int
            } else {
                0
            };
            &&& e.def_ships == b.def_ships.update(
                at,
                raided(
                    b.def_ships[at],
                    run_power(world, wing, seq![count], 0),
                    generator_runs,
                ),
            )
            &&& e.atk_fighters.len() == 1
            &&& screen == 0 ==> e.atk_fighters[0] == count
            &&& screen > 0 && fallen < count ==> e.atk_fighters[0] == count - fallen
            &&& screen > 0 && fallen >= count ==> e.atk_fighters[0] == 0
        }),
{
    let b = before_battle(world, wing, defender);
    let count = wing.fighters@[0].count;
    let ships = b.def_ships;
    lemma_fresh(world, defender);
    assert(b.atk_ships.len() == 0);
    assert(b.atk_fighters =~= seq![count]);
    assert(b.def_fighters =~= Seq::<u32>::empty());
    assert(b.atk_fighters[0] > 0 && some_left(b.atk_fighters));
    let s = after_fire(world, wing, defender, dice);
    assert(s.def_ships =~= ships);
    assert(s.atk_ships =~= b.atk_ships);
    let c = after_blows(s, dice, generator_runs);
    assert(c.def_ships =~= ships);
    assert(c.atk_ships =~= b.atk_ships);
    lemma_local(world, wing, c.atk_ships, count);
    let up = launched(c.atk_fighters, carrier_capacity(world, wing, c.atk_ships, true));
    assert(up =~= seq![count]);
    lemma_all_alive(ships, ships.len());
    lemma_every_target(ships, ships.len());
    let e = after_battle(world, wing, defender, dice, generator_runs);
    let hit = raided_by(world, wing, up, ships, dice.attacker_picks@, generator_runs);
    lemma_one_group(world, wing, up, ships, dice.attacker_picks@, generator_runs);
    assert(hit == ships.update(at, raided(ships[at], run_power(world, wing, up, 0), generator_runs)));
    assert(e.def_ships == hit);
    let screen = screen_of(world, defender, hit);
    let met = screened(up, screen, dice.defender_screen);
    assert(squads(up, 1) == count) by {
        assert(total(1, squad(up)) == total(0, squad(up)) + squad(up)(0));
    }
    assert(squads_behind(up, 0) == 0);
    let none = Seq::<u32>::empty();
    assert(launched(none, carrier_capacity(world, defender, c.def_ships, false)) =~= none);
    lemma_screen_positive(world, defender, hit);
    assert(!some_left(screened(none, screen_of(world, wing, c.atk_ships), dice.attacker_screen)));
    assert(e.atk_fighters =~= recalled(
        seq![count],
        met,
        up,
        carrier_capacity(world, wing, c.atk_ships, true),
    ));
    assert(total(0, returning(met, up)) == 0);
}

proof fn lemma_screen_positive(world: GameWorld, fleet: Fleet, ships: Seq<ShipSnap>)
    ensures
        screen_of(world, fleet, ships) >= 0,
{
    let pairs = paired(classes(fleet), ships);
    lemma_total_monotone(0, pairs, screen_term(world, classes(fleet), ships));
}

proof fn lemma_local(world: GameWorld, wing: Fleet, ships: Seq<ShipSnap>, count: u32)
    requires
        wing.fighters@.len() == 1,
        wing.fighters@[0].count == count,
    ensures
        carrier_capacity(world, wing, ships, true) == count,
{
    let f = |i: int| wing.fighters@[i].count as int;
    assert(total(1, f) == total(0, f) + f(0));
}

proof fn lemma_every_target(ships: Seq<ShipSnap>, n: nat)
    requires
        n <= ships.len() <= usize::MAX,
        forall|k: int| 0 <= k < ships.len() ==> (#[trigger] ships[k]).alive,
    ensures
        collect(n, target_at(ships)) == Seq::new(n, |k: int| k as usize),
    decreases n,
{
    if n > 0 {
        lemma_every_target(ships, (n - 1) as nat);
        assert(ships[n - 1].alive);
    }
    assert(collect(n, target_at(ships)) =~= Seq::new(n, |k: int| k as usize));
}

proof fn lemma_one_group(
    world: GameWorld,
    fleet: Fleet,
    groups: Seq<u32>,
    ships: Seq<ShipSnap>,
    picks: Seq<usize>,
    generator_runs: bool,
)
    requires
        groups.len() == 1,
        run_power(world, fleet, groups, 0) > 0,
        targets_of(ships).len() > 0,
    ensures
        raided_by(world, fleet, groups, ships, picks, generator_runs) == ({
            let at = picked(targets_of(ships), picks, 0);
            ships.update(
                at,
                raided(ships[at], run_power(world, fleet, groups, 0), generator_runs),
            )
        }),
{
    assert(raid(world, fleet, groups, ships, picks, generator_runs, 0) == (ships, 0nat));
    assert(raid(world, fleet, groups, ships, picks, generator_runs, 1).0 == ({
        let at = picked(targets_of(ships), picks, 0);
        ships.update(at, raided(ships[at], run_power(world, fleet, groups, 0), generator_runs))
    }));
}

/// Two wings of one group, both based in the system, fight it out in the air
/// if either can shoot or turn: each loses the squadrons counted out for it,
/// one at least, as far as it has them. Wings that can do neither lose none.
pub proof fn law_local_wings_fight(
    world: GameWorld,
    one: Fleet,
    other: Fleet,
    dice: SpaceDice,
    generator_runs: bool,
)
    requires
        one.capital_ships@.len() == 0,
        other.capital_ships@.len() == 0,
        one.fighters@.len() == 1,
        other.fighters@.len() == 1,
        one.fighters@[0].count > 0,
        other.fighters@[0].count > 0,
    ensures
        ({
            let e = after_battle(world, one, other, dice, generator_runs);
            let a = world.fighter_classes.at(one.fighters@[0].class);
            let d = world.fighter_classes.at(other.fighters@[0].class);
            let fight = a.overall_attack_strength > 0 || a.maneuverability > 0
                || d.overall_attack_strength > 0 || d.maneuverability > 0;
            let start = one.fighters@[0].count;
            let lost: int = if dice.attacker_losses == 0 {
                1
            } else {
                dice.attacker_losses as int
            };
            &&& e.atk_fighters.len() == 1
            &&& !fight ==> e.atk_fighters[0] == start
            &&& fight && lost <= start ==> e.atk_fighters[0] == start - lost
            &&& fight && lost > start ==> e.atk_fighters[0] == 0
        }),
{
    let b = before_battle(world, one, other);
    let x = one.fighters@[0].count;
    let y = other.fighters@[0].count;
    assert(b.atk_fighters =~= seq![x]);
    assert(b.def_fighters =~= seq![y]);
    assert(b.atk_fighters[0] > 0 && some_left(b.atk_fighters));
    let s = after_fire(world, one, other, dice);
    let c = after_blows(s, dice, generator_runs);
    assert(c.atk_ships.len() == 0 && c.def_ships.len() == 0);
    lemma_local(world, one, c.atk_ships, x);
    lemma_local(world, other, c.def_ships, y);
    let up = launched(c.atk_fighters, x as int);
    let met = launched(c.def_fighters, y as int);
    assert(up =~= seq![x]);
    assert(met =~= seq![y]);
    assert(up[0] > 0 && met[0] > 0);
    assert(some_left(up) && some_left(met));
    law_when_wings_fight(world, one, up, other, met, 0);
    law_when_wings_fight(world, other, met, one, up, 0);
    assert(squads(up, 1) == x) by {
        assert(total(1, squad(up)) == total(0, squad(up)) + squad(up)(0));
    }
    assert(squads_behind(up, 0) == 0);
    assert(total(0, returning(after_losses(up, 1), up)) == 0);
    let e = after_battle(world, one, other, dice, generator_runs);
    assert(targets_of(c.atk_ships).len() == 0 && targets_of(c.def_ships).len() == 0);
    assert(screen_of(world, other, c.def_ships) == 0 && screen_of(world, one, c.atk_ships) == 0);
}

// ---- Reports ---------------------------------------------------------------

/// No loss goes unreported: every hull that ends a battle with less than it
/// began with is reported once, in order, with its fleet, its place and both
/// figures; and every group that lost squadrons likewise.
pub proof fn law_every_loss_is_reported(
    key: FleetKey,
    ships: Seq<ShipSnap>,
    initial: Seq<i32>,
    places: Seq<usize>,
    groups: Seq<u32>,
    squads_before: Seq<u32>,
    i: int,
)
    requires
        initial.len() == ships.len(),
        places.len() == ships.len(),
        groups.len() == squads_before.len() <= usize::MAX,
    ensures
        0 <= i < ships.len() ==> (hull_events(key, ships, initial, places).contains(
            ShipDamageEvent {
                fleet: key,
                ship_index: places[i],
                hull_before: initial[i],
                hull_after: ships[i].hull_current,
            },
        ) <==> exists|j: int|
            0 <= j < ships.len() && (#[trigger] ships[j]).hull_current < initial[j] && places[j]
                == places[i] && initial[j] == initial[i] && ships[j].hull_current
                == ships[i].hull_current),
        0 <= i < groups.len() ==> (loss_events(key, groups, squads_before).contains(
            FighterLossEvent {
                fleet: key,
                fighter_index: i as usize,
                squads_before: squads_before[i],
                squads_after: groups[i],
            },
        ) <==> groups[i] < squads_before[i]),
        hull_events(key, ships, initial, places).len() == tally(
            ships.len(),
            |j: int| ships[j].hull_current < initial[j],
        ),
        loss_events(key, groups, squads_before).len() == tally(
            groups.len(),
            |j: int| groups[j] < squads_before[j],
        ),
{
    let f = hull_event(key, ships, initial, places);
    let n = ships.len();
    lemma_collect_covers(n, f);
    if 0 <= i < n {
        let event = ShipDamageEvent {
            fleet: key,
            ship_index: places[i],
            hull_before: initial[i],
            hull_after: ships[i].hull_current,
        };
        if hull_events(key, ships, initial, places).contains(event) {
            let list = hull_events(key, ships, initial, places);
            let k = choose|k: int| 0 <= k < list.len() && list[k] == event;
            assert(gives(n, f, list[k]));
            let j = choose|j: int| 0 <= j < n && #[trigger] f(j) == Some(list[k]);
            assert(ships[j].hull_current < initial[j]);
        }
        if exists|j: int|
            0 <= j < ships.len() && (#[trigger] ships[j]).hull_current < initial[j] && places[j]
                == places[i] && initial[j] == initial[i] && ships[j].hull_current
                == ships[i].hull_current {
            let j = choose|j: int|
                0 <= j < ships.len() && (#[trigger] ships[j]).hull_current < initial[j]
                    && places[j] == places[i] && initial[j] == initial[i] && ships[j].hull_current
                    == ships[i].hull_current;
            assert(f(j) == Some(event));
        }
    }
    let g = loss_event(key, groups, squads_before);
    let m = squads_before.len();
    lemma_collect_covers(m, g);
    if 0 <= i < m {
        let event = FighterLossEvent {
            fleet: key,
            fighter_index: i as usize,
            squads_before: squads_before[i],
            squads_after: groups[i],
        };
        let list = loss_events(key, groups, squads_before);
        if list.contains(event) {
            let k = choose|k: int| 0 <= k < list.len() && list[k] == event;
            assert(gives(m, g, list[k]));
            let j = choose|j: int| 0 <= j < m && #[trigger] g(j) == Some(list[k]);
            assert(j == i);
        }
        if groups[i] < squads_before[i] {
            assert(g(i) == Some(event));
        }
    }
    lemma_collect_count(n, f, |j: int| ships[j].hull_current < initial[j]);
    lemma_collect_count(m, g, |j: int| groups[j] < squads_before[j]);
}

/// As much is collected as there is.
pub(crate) proof fn lemma_collect_count<A>(
    n: nat,
    f: spec_fn(int) -> Option<A>,
    there: spec_fn(int) -> bool,
)
    requires
        forall|i: int| 0 <= i < n ==> (#[trigger] f(i) is Some) == there(i),
    ensures
        collect(n, f).len() == tally(n, there),
    decreases n,
{
    if n > 0 {
        lemma_collect_count((n - 1) as nat, f, there);
        assert(f(n - 1) is Some == there(n - 1));
    }
}

} // verus!
