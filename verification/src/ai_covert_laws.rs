//! How the computer player hands out covert work, rescues, scouting, research
//! and calming missions, in terms of the world it looks at.

use crate::ai::{mission_order, AIState, Advice, AiFaction, Order};
use crate::ai_build_laws::lemma_collect_rises;
use crate::ai_choice_laws::{at_hand, middle, popularity};
use crate::ai_covert::{
    abduction_targets, assassination_targets, calming_orders, captive, combined_skill, covert_pass,
    covert_plan, diplomat, enemy_leader, enemy_person, enemy_yard, enemy_yards, operative,
    operatives, recon_plan, rescue_orders, rescuer, research_order, researcher, restless,
    sabotage_targets, scouted, shipworks, system_targets, table_of, uncharted, worthwhile, Covert,
};
use crate::ai_missions::hostile_system;
use crate::ai_strength::{lemma_strength_fits, strength_of};
use crate::arena::lemma_slots_bounded;
use crate::dat::{ExplorationStatus, Faction};
use crate::ids::{CharacterKey, SystemKey};
use crate::missions::MissionKind;
use crate::research::{ResearchState, TechType};
use crate::select::{
    collect, gives, lemma_collect_covers, lemma_highest, lemma_sorted_slots, lemma_tally_same,
    stable_sort, tally,
};
use crate::tuning::GameConfig;
use crate::world::{Character, ControlKind, GameWorld};
use vstd::prelude::*;

verus! {

// ---- Lists of people and places --------------------------------------------

/// The covert operatives are exactly the people at hand with skill enough,
/// and none comes before a better one; equals stand in the order of the slots.
pub proof fn law_best_spies_come_first(
    state: AIState,
    world: GameWorld,
    faction: AiFaction,
    threshold: u32,
    i: int,
    j: int,
    k: int,
)
    ensures
        ({
            let list = operatives(state, world, faction, threshold);
            let skill = |c: CharacterKey| middle(world.characters.at(c).espionage);
            &&& 0 <= j < list.len() ==> at_hand(state, world, faction, list[j].0.slot as int)
                && skill(list[j].0) >= threshold
            &&& at_hand(state, world, faction, i) && middle(
                (world.characters@[i]->0).espionage,
            ) >= threshold ==> exists|l: int|
                0 <= l < list.len() && (#[trigger] list[l]).0.slot == i
            &&& 0 <= j < k < list.len() ==> skill(list[j].0) > skill(list[k].0) || (skill(list[j].0)
                == skill(list[k].0) && list[j].0.slot < list[k].0.slot)
        }),
{
    let f = operative(state, world, faction, threshold);
    let n = world.characters@.len();
    lemma_slots_bounded(&world.characters);
    lemma_sorted_slots(n, f, |c: CharacterKey| c.slot as int);
    let list = operatives(state, world, faction, threshold);
    if 0 <= j < k < list.len() {
        let a = list[j];
        let b = list[k];
    }
    if at_hand(state, world, faction, i) && middle((world.characters@[i]->0).espionage)
        >= threshold {
        assert(f(i) is Some);
        let l = choose|l: int| 0 <= l < list.len() && list[l] == f(i)->0;
        assert(list[l].0.slot == i);
    }
}

/// How many of a system's yards are not of a side.
pub open spec fn foreign_yards(world: GameWorld, key: SystemKey, side: bool) -> nat {
    let list = world.systems.at(key).manufacturing_facilities@;
    tally(
        list.len(),
        |i: int|
            world.manufacturing_facilities.has(list[i]) && world.manufacturing_facilities.at(
                list[i],
            ).is_alliance != side,
    )
}

proof fn lemma_foreign_yards(world: GameWorld, key: SystemKey, side: bool)
    ensures
        enemy_yards(world, world.systems.at(key), side) == foreign_yards(world, key, side),
        foreign_yards(world, key, side) <= usize::MAX,
{
    let sys = world.systems.at(key);
    let list = sys.manufacturing_facilities@;
    lemma_tally_same(
        list.len(),
        enemy_yard(world, sys, side),
        |i: int|
            world.manufacturing_facilities.has(list[i]) && world.manufacturing_facilities.at(
                list[i],
            ).is_alliance != side,
    );
    lemma_tally_most(list.len(), enemy_yard(world, sys, side));
    assert(sys.manufacturing_facilities.len() == list.len());
}

proof fn lemma_tally_most(n: nat, f: spec_fn(int) -> bool)
    ensures
        tally(n, f) <= n,
    decreases n,
{
    if n > 0 {
        lemma_tally_most((n - 1) as nat, f);
    }
}

/// Saboteurs are aimed at exactly the systems with yards of the enemy, those
/// with the most yards first.
pub proof fn law_saboteurs_seek_yards(world: GameWorld, side: bool, key: SystemKey, j: int, k: int)
    ensures
        ({
            let list = sabotage_targets(world, side);
            &&& 0 <= j < list.len() ==> world.systems.has(list[j].0) && foreign_yards(
                world,
                list[j].0,
                side,
            ) > 0 && list[j].1 is None
            &&& world.systems.has(key) && foreign_yards(world, key, side) > 0 ==> exists|l: int|
                0 <= l < list.len() && (#[trigger] list[l]).0 == key
            &&& 0 <= j < k < list.len() ==> foreign_yards(world, list[j].0, side) > foreign_yards(
                world,
                list[k].0,
                side,
            ) || (foreign_yards(world, list[j].0, side) == foreign_yards(world, list[k].0, side)
                && list[j].0.slot < list[k].0.slot)
        }),
{
    let f = shipworks(world, side);
    let n = world.systems@.len();
    lemma_slots_bounded(&world.systems);
    lemma_sorted_slots(n, f, |s: SystemKey| s.slot as int);
    let ranked = stable_sort(collect(n, f));
    let list = sabotage_targets(world, side);
    lemma_foreign_yards(world, key, side);
    if 0 <= j < list.len() {
        assert(list[j].0 == ranked[j].0);
        lemma_foreign_yards(world, list[j].0, side);
    }
    if 0 <= k < list.len() {
        assert(list[k].0 == ranked[k].0);
        lemma_foreign_yards(world, list[k].0, side);
    }
    if world.systems.has(key) && foreign_yards(world, key, side) > 0 {
        assert(f(key.slot as int) is Some);
        let l = choose|l: int| 0 <= l < ranked.len() && ranked[l] == f(key.slot as int)->0;
        assert(list[l].0 == key);
    }
}

/// Every skill counts towards the combined skill, and loyalty does not.
pub proof fn law_combined_skill_is_the_sum(c: Character)
    ensures
        combined_skill(c) == middle(c.diplomacy) + middle(c.espionage) + middle(c.ship_design)
            + middle(c.troop_training) + middle(c.facility_design) + middle(c.combat) + middle(
            c.leadership,
        ),
{
}

/// Whether a character is not the faction's own.
pub open spec fn foreign(world: GameWorld, faction: AiFaction, i: int) -> bool {
    &&& 0 <= i < world.characters@.len()
    &&& world.characters@[i] is Some
    &&& !match faction {
        AiFaction::Alliance => (world.characters@[i]->0).is_alliance,
        AiFaction::Empire => (world.characters@[i]->0).is_empire,
    }
}

/// No leader of the enemy is overlooked by the assassins.
pub proof fn law_no_leader_is_overlooked(
    world: GameWorld,
    faction: AiFaction,
    base: SystemKey,
    i: int,
)
    requires
        foreign(world, faction, i),
        (world.characters@[i]->0).is_major,
    ensures
        assassination_targets(world, faction, base).contains(
            (base, Some(CharacterKey { slot: i as usize })),
        ),
{
    let f = enemy_leader(world, faction);
    let n = world.characters@.len();
    lemma_slots_bounded(&world.characters);
    lemma_sorted_slots(n, f, |c: CharacterKey| c.slot as int);
    let ranked = stable_sort(collect(n, f));
    assert(f(i) is Some);
    let l = choose|l: int| 0 <= l < ranked.len() && ranked[l] == f(i)->0;
    assert(assassination_targets(world, faction, base)[l] == (
        base,
        Some(CharacterKey { slot: i as usize }),
    ));
}

/// Kidnappers are aimed at exactly the free characters of the enemy, the
/// weakest fighters first.
pub proof fn law_kidnappers_seek_the_weak(
    world: GameWorld,
    faction: AiFaction,
    base: SystemKey,
    i: int,
    j: int,
    k: int,
)
    ensures
        ({
            let list = abduction_targets(world, faction, base);
            let fight = |t: (SystemKey, Option<CharacterKey>)|
                middle(world.characters.at(t.1->0).combat);
            &&& 0 <= j < list.len() ==> list[j].0 == base && list[j].1 is Some && foreign(
                world,
                faction,
                list[j].1->0.slot as int,
            ) && !world.characters.at(list[j].1->0).is_captive
            &&& foreign(world, faction, i) && !(world.characters@[i]->0).is_captive
                ==> list.contains((base, Some(CharacterKey { slot: i as usize })))
            &&& 0 <= j < k < list.len() ==> fight(list[j]) < fight(list[k]) || (fight(list[j])
                == fight(list[k]) && list[j].1->0.slot < list[k].1->0.slot)
        }),
{
    let f = enemy_person(world, faction);
    let n = world.characters@.len();
    lemma_slots_bounded(&world.characters);
    lemma_sorted_slots(n, f, |c: CharacterKey| c.slot as int);
    let ranked = stable_sort(collect(n, f));
    let list = abduction_targets(world, faction, base);
    if 0 <= j < list.len() {
        assert(list[j] == (base, Some(ranked[j].0)));
    }
    if 0 <= k < list.len() {
        assert(list[k] == (base, Some(ranked[k].0)));
    }
    if foreign(world, faction, i) && !(world.characters@[i]->0).is_captive {
        assert(f(i) is Some);
        let l = choose|l: int| 0 <= l < ranked.len() && ranked[l] == f(i)->0;
        assert(list[l] == (base, Some(CharacterKey { slot: i as usize })));
    }
}

// ---- Handing out targets ---------------------------------------------------

/// A mission is worth sending if the first table for its kind gives the score
/// the wanted chance; where there is no table, if the formula does; and
/// scrapping always succeeds. `row` is the first table for the kind, past the
/// last one if there is none.
pub proof fn law_what_is_worth_sending(
    world: GameWorld,
    advice: Advice,
    kind: MissionKind,
    score: u32,
    row: int,
)
    requires
        0 <= row <= world.mission_tables@.len(),
        forall|j: int| 0 <= j < row ==> (#[trigger] world.mission_tables@[j]).0 != kind,
        row < world.mission_tables@.len() ==> world.mission_tables@[row].0 == kind,
    ensures
        ({
            let worth = worthwhile(world, advice, kind, score);
            let tables = world.mission_tables@;
            &&& kind == MissionKind::Autoscrap ==> worth == (advice.min_success_percent <= 100)
            &&& kind != MissionKind::Autoscrap && row < tables.len() ==> worth
                == (advice.min_success_percent <= tables[row].1.lookup_spec(
                (score as i32) as int,
            ))
            &&& kind != MissionKind::Autoscrap && row == tables.len() ==> worth
                == advice.formula_clears@.contains((kind, score))
        }),
{
    lemma_skipped_tables(world, kind, row as nat, row as nat);
}

proof fn lemma_skipped_tables(world: GameWorld, kind: MissionKind, row: nat, left: nat)
    requires
        left <= row <= world.mission_tables@.len(),
        forall|j: int| 0 <= j < row ==> (#[trigger] world.mission_tables@[j]).0 != kind,
    ensures
        table_of(world.mission_tables@, kind, (row - left) as nat) == table_of(
            world.mission_tables@,
            kind,
            row,
        ),
    decreases left,
{
    if left > 0 {
        assert(world.mission_tables@[row - left].0 != kind);
        lemma_skipped_tables(world, kind, row, (left - 1) as nat);
    }
}

/// Each target is offered to the next operative. If the mission is worth
/// sending with the operative's skill, which is combat for assassins and
/// espionage for all others, the operative is sent; either way it is not asked
/// again. Nothing is offered once enough missions are planned or the
/// operatives have run out.
pub proof fn law_each_target_meets_the_next_spy(
    world: GameWorld,
    advice: Advice,
    kind: MissionKind,
    targets: Seq<(SystemKey, Option<CharacterKey>)>,
    ops: Seq<(CharacterKey, i128)>,
    cap: nat,
    start: Covert,
    n: nat,
)
    requires
        n < targets.len(),
    ensures
        ({
            let before = covert_pass(world, advice, kind, targets, ops, cap, start, n);
            let after = covert_pass(world, advice, kind, targets, ops, cap, start, n + 1);
            let spy = ops[before.next as int].0;
            let skill = if kind == MissionKind::Assassination {
                middle(world.characters.at(spy).combat)
            } else {
                middle(world.characters.at(spy).espionage)
            };
            let full = before.queued >= cap || before.next >= ops.len();
            let worth = worthwhile(world, advice, kind, skill as u32);
            &&& full ==> after == before
            &&& !full ==> after.next == before.next + 1
            &&& !full && !worth ==> after.orders == before.orders && after.queued == before.queued
            &&& !full && worth ==> after.queued == before.queued + 1 && after.orders
                == before.orders.push(
                Order::Mission {
                    kind,
                    character: spy,
                    target_system: targets[n as int].0,
                    target_character: targets[n as int].1,
                    duration_percent: 50,
                },
            )
        }),
        covert_pass(world, advice, kind, targets, ops, cap, start, 0) == start,
{
}

/// The place of a kind in the covert plan.
pub open spec fn place_of(kind: MissionKind) -> int {
    match kind {
        MissionKind::Sabotage => 0,
        MissionKind::Assassination => 1,
        MissionKind::Abduction => 2,
        _ => 3,
    }
}

/// The covert plan holds sabotage before assassination, abduction and
/// intelligence, in that order. As long as there are operatives left and
/// missions to plan, every target of every kind has been offered to somebody.
pub proof fn law_the_covert_plan_leaves_nothing_out(
    state: AIState,
    world: GameWorld,
    faction: AiFaction,
    config: GameConfig,
    advice: Advice,
)
    ensures
        ({
            let plan = covert_plan(state, world, faction, config, advice);
            let ops = operatives(state, world, faction, config.ai.espionage_skill_threshold);
            let base = hostile_system(
                world,
                faction,
                config.ai.covert_target_popularity_threshold,
            );
            let blank = tally(
                world.systems@.len(),
                |i: int|
                    world.systems@[i] is Some && (world.systems@[i]->0).exploration_status
                        == ExplorationStatus::Unexplored,
            );
            let people: nat = match base {
                Some(at) => assassination_targets(world, faction, at).len() + abduction_targets(
                    world,
                    faction,
                    at,
                ).len(),
                None => 0,
            };
            &&& plan.queued == plan.orders.len()
            &&& forall|j: int, k: int|
                0 <= j < k < plan.orders.len() ==> (#[trigger] plan.orders[j]) is Mission && (
                #[trigger] plan.orders[k]) is Mission && place_of(plan.orders[j]->Mission_kind)
                    <= place_of(plan.orders[k]->Mission_kind)
            &&& plan.queued < config.ai.max_covert_ops_per_eval && plan.next < ops.len()
                ==> plan.next == sabotage_targets(world, faction == AiFaction::Alliance).len()
                + people + blank
        }),
{
    let ops = operatives(state, world, faction, config.ai.espionage_skill_threshold);
    let cap = config.ai.max_covert_ops_per_eval as nat;
    let none = Covert { orders: Seq::empty(), next: 0, queued: 0 };
    let yards = sabotage_targets(world, faction.rebel());
    let a = covert_pass(world, advice, MissionKind::Sabotage, yards, ops, cap, none, yards.len());
    lemma_pass(world, advice, MissionKind::Sabotage, yards, ops, cap, none, yards.len());
    assert(in_turn(none, 0));
    assert(in_turn(a, 0));
    let unknown = collect(world.systems@.len(), uncharted(world));
    crate::battle_laws::lemma_collect_count(
        world.systems@.len(),
        uncharted(world),
        |i: int|
            world.systems@[i] is Some && (world.systems@[i]->0).exploration_status
                == ExplorationStatus::Unexplored,
    );
    let c = match hostile_system(
        world,
        faction,
        config.ai.covert_target_popularity_threshold,
    ) {
        Some(base) => {
            let leaders = assassination_targets(world, faction, base);
            let b = covert_pass(
                world,
                advice,
                MissionKind::Assassination,
                leaders,
                ops,
                cap,
                a,
                leaders.len(),
            );
            lemma_pass(
                world,
                advice,
                MissionKind::Assassination,
                leaders,
                ops,
                cap,
                a,
                leaders.len(),
            );
            assert(in_turn(b, 1));
            let people = abduction_targets(world, faction, base);
            lemma_pass(
                world,
                advice,
                MissionKind::Abduction,
                people,
                ops,
                cap,
                b,
                people.len(),
            );
            covert_pass(world, advice, MissionKind::Abduction, people, ops, cap, b, people.len())
        },
        None => a,
    };
    assert(in_turn(c, 0) || in_turn(c, 2));
    lemma_pass(world, advice, MissionKind::Espionage, unknown, ops, cap, c, unknown.len());
    assert(covert_plan(state, world, faction, config, advice) == covert_pass(
        world,
        advice,
        MissionKind::Espionage,
        unknown,
        ops,
        cap,
        c,
        unknown.len(),
    ));
}

/// Whether a plan holds missions up to a kind, in order.
spec fn in_turn(plan: Covert, last: int) -> bool {
    &&& plan.queued == plan.orders.len()
    &&& forall|j: int|
        0 <= j < plan.orders.len() ==> (#[trigger] plan.orders[j]) is Mission && place_of(
            plan.orders[j]->Mission_kind,
        ) <= last
    &&& forall|j: int, k: int|
        0 <= j < k < plan.orders.len() ==> place_of((#[trigger] plan.orders[j])->Mission_kind)
            <= place_of((#[trigger] plan.orders[k])->Mission_kind)
}

proof fn lemma_pass(
    world: GameWorld,
    advice: Advice,
    kind: MissionKind,
    targets: Seq<(SystemKey, Option<CharacterKey>)>,
    ops: Seq<(CharacterKey, i128)>,
    cap: nat,
    start: Covert,
    n: nat,
)
    requires
        n <= targets.len(),
    ensures
        ({
            let after = covert_pass(world, advice, kind, targets, ops, cap, start, n);
            &&& forall|last: int|
                last <= place_of(kind) && #[trigger] in_turn(start, last) ==> in_turn(
                    after,
                    place_of(kind),
                )
            &&& after.queued < cap && after.next < ops.len() ==> after.next == start.next + n
            &&& after.queued >= start.queued && after.next >= start.next
        }),
    decreases n,
{
    if n > 0 {
        lemma_pass(world, advice, kind, targets, ops, cap, start, (n - 1) as nat);
        let before = covert_pass(world, advice, kind, targets, ops, cap, start, (n - 1) as nat);
        let after = covert_pass(world, advice, kind, targets, ops, cap, start, n);
        assert(after.orders == before.orders || after.orders == before.orders.push(
            after.orders.last(),
        ));
        assert forall|last: int| last <= place_of(kind) && #[trigger] in_turn(
            start,
            last,
        ) implies in_turn(after, place_of(kind)) by {
            assert(in_turn(before, place_of(kind)));
            assert forall|j: int| 0 <= j < after.orders.len() implies (
            #[trigger] after.orders[j]) is Mission && place_of(after.orders[j]->Mission_kind)
                <= place_of(kind) by {
                if j < before.orders.len() {
                    assert(before.orders[j] == after.orders[j]);
                }
            }
            assert forall|j: int, k: int| 0 <= j < k < after.orders.len() implies place_of(
                (#[trigger] after.orders[j])->Mission_kind,
            ) <= place_of((#[trigger] after.orders[k])->Mission_kind) by {
                assert(before.orders[j] == after.orders[j]);
                if k < before.orders.len() {
                    assert(before.orders[k] == after.orders[k]);
                }
            }
        }
    }
}

// ---- Rescue ----------------------------------------------------------------

/// Whether a character is a captive of the faction's own whose whereabouts are
/// known.
pub open spec fn lost_friend(world: GameWorld, faction: AiFaction, i: int) -> bool {
    let c = world.characters@[i]->0;
    &&& world.characters@[i] is Some
    &&& c.is_captive
    &&& c.current_system is Some
    &&& match faction {
        AiFaction::Alliance => c.is_alliance,
        AiFaction::Empire => c.is_empire,
    }
}

/// Captives are sought in the order of the slots where they are held, one
/// rescuer each as long as there are rescuers. A rescuer is at hand and can
/// fight, and nobody who could go stays behind while a worse fighter goes.
pub proof fn law_the_best_fighters_rescue(
    state: AIState,
    world: GameWorld,
    faction: AiFaction,
    i: int,
    j: int,
    k: int,
)
    ensures
        ({
            let list = rescue_orders(state, world, faction);
            let lost = tally(
                world.characters@.len(),
                |i: int| lost_friend(world, faction, i),
            );
            let fit = |i: int|
                at_hand(state, world, faction, i) && middle((world.characters@[i]->0).combat) >= 30;
            let fight = |o: Order| middle(world.characters.at(o->Mission_character).combat);
            &&& list.len() <= lost
            &&& 0 <= j < list.len() ==> {
                let order = list[j];
                let sought = order->Mission_target_character->0;
                &&& order is Mission
                &&& order->Mission_kind == MissionKind::Rescue
                &&& order->Mission_target_character is Some
                &&& sought.slot < world.characters@.len() && lost_friend(
                    world,
                    faction,
                    sought.slot as int,
                )
                &&& tally(
                    sought.slot as nat,
                    |i: int| lost_friend(world, faction, i),
                ) == j
                &&& world.characters.at(sought).current_system == Some(order->Mission_target_system)
                &&& fit(order->Mission_character.slot as int)
            }
            &&& 0 <= j < k < list.len() ==> fight(list[j]) > fight(list[k]) || (fight(list[j])
                == fight(list[k]) && list[j]->Mission_character.slot
                < list[k]->Mission_character.slot)
            &&& 0 <= i < world.characters@.len() && fit(i) && (forall|l: int|
                0 <= l < list.len() ==> (#[trigger] list[l])->Mission_character.slot != i) ==> {
                &&& list.len() == lost
                &&& 0 <= j < list.len() ==> fight(list[j]) >= middle(
                    (world.characters@[i]->0).combat,
                )
            }
        }),
{
    let n = world.characters@.len();
    lemma_slots_bounded(&world.characters);
    let f = captive(world, faction);
    let g = rescuer(state, world, faction);
    let held = collect(n, f);
    let free = stable_sort(collect(n, g));
    lemma_sorted_slots(n, g, |c: CharacterKey| c.slot as int);
    let there = |i: int| lost_friend(world, faction, i);
    crate::battle_laws::lemma_collect_count(n, f, there);
    let list = rescue_orders(state, world, faction);
    if 0 <= j < list.len() {
        assert(list[j] == mission_order(
            MissionKind::Rescue,
            free[j].0,
            held[j].1,
            Some(held[j].0),
        ));
        lemma_nth_captive(world, faction, n, j);
        lemma_tally_same(held[j].0.slot as nat, there, |i: int| lost_friend(world, faction, i));
    }
    if 0 <= k < list.len() {
        assert(list[k]->Mission_character == free[k].0);
    }
    if 0 <= i < n && at_hand(state, world, faction, i) && middle(
        (world.characters@[i]->0).combat,
    ) >= 30 {
        assert(g(i) is Some);
        let l = choose|l: int| 0 <= l < free.len() && free[l] == g(i)->0;
        if l < list.len() {
            assert(list[l]->Mission_character == free[l].0);
            assert(list[l]->Mission_character.slot == i);
        } else {
            assert(list.len() == held.len());
        }
    }
}

proof fn lemma_nth_captive(world: GameWorld, faction: AiFaction, n: nat, j: int)
    requires
        n <= world.characters@.len() <= usize::MAX,
        0 <= j < collect(n, captive(world, faction)).len(),
    ensures
        ({
            let entry = collect(n, captive(world, faction))[j];
            &&& entry.0.slot < n
            &&& lost_friend(world, faction, entry.0.slot as int)
            &&& tally(entry.0.slot as nat, |i: int| lost_friend(world, faction, i)) == j
            &&& world.characters.at(entry.0).current_system == Some(entry.1)
        }),
    decreases n,
{
    let m = (n - 1) as nat;
    let f = captive(world, faction);
    if n > 0 {
        let before = collect(m, f);
        crate::battle_laws::lemma_collect_count(m, f, |i: int| lost_friend(world, faction, i));
        if j < before.len() {
            lemma_nth_captive(world, faction, m, j);
            assert(collect(n, f)[j] == before[j]);
        } else {
            assert(f(m as int) == Some(collect(n, f)[j]));
        }
    }
}

// ---- Scouting --------------------------------------------------------------

/// Scouts are offered exactly the explored systems that the enemy holds and
/// that still stand, the most strongly held first.
pub proof fn law_scouts_seek_strength(
    world: GameWorld,
    side: bool,
    key: SystemKey,
    j: int,
    k: int,
)
    ensures
        ({
            let list = system_targets(stable_sort(collect(world.systems@.len(), scouted(world, side))));
            let worth = |s: SystemKey|
                world.systems.has(s) && world.systems.at(s).control == ControlKind::Controlled(
                    if side {
                        Faction::Empire
                    } else {
                        Faction::Alliance
                    },
                ) && !world.systems.at(s).is_destroyed && world.systems.at(s).exploration_status
                    == ExplorationStatus::Explored;
            let strength = |s: SystemKey| strength_of(world, world.systems.at(s), !side);
            &&& 0 <= j < list.len() ==> worth(list[j].0) && list[j].1 is None
            &&& worth(key) ==> exists|l: int| 0 <= l < list.len() && (#[trigger] list[l]).0 == key
            &&& 0 <= j < k < list.len() ==> strength(list[j].0) > strength(list[k].0) || (strength(
                list[j].0,
            ) == strength(list[k].0) && list[j].0.slot < list[k].0.slot)
        }),
{
    let f = scouted(world, side);
    let n = world.systems@.len();
    lemma_slots_bounded(&world.systems);
    lemma_sorted_slots(n, f, |s: SystemKey| s.slot as int);
    let ranked = stable_sort(collect(n, f));
    let list = system_targets(ranked);
    if 0 <= j < list.len() {
        assert(list[j].0 == ranked[j].0);
        lemma_strength_fits(world, world.systems.at(list[j].0), !side);
    }
    if 0 <= k < list.len() {
        assert(list[k].0 == ranked[k].0);
        lemma_strength_fits(world, world.systems.at(list[k].0), !side);
    }
    if f(key.slot as int) is Some && world.systems.has(key) {
        let l = choose|l: int| 0 <= l < ranked.len() && ranked[l] == f(key.slot as int)->0;
        assert(list[l].0 == key);
    }
}

/// Scouting is planned with the same operatives as covert work, from the first
/// one on, for no more than the configured number of missions.
pub proof fn law_scouting_starts_afresh(
    state: AIState,
    world: GameWorld,
    faction: AiFaction,
    config: GameConfig,
    advice: Advice,
)
    ensures
        ({
            let plan = recon_plan(state, world, faction, config, advice);
            let ops = operatives(state, world, faction, config.ai.espionage_skill_threshold);
            let targets = system_targets(
                stable_sort(
                    collect(
                        world.systems@.len(),
                        scouted(world, faction == AiFaction::Alliance),
                    ),
                ),
            );
            &&& plan.queued < config.ai.max_recon_per_eval && plan.next < ops.len() ==> plan.next
                == targets.len()
            &&& plan.queued == plan.orders.len()
            &&& forall|k: int|
                0 <= k < plan.orders.len() ==> (#[trigger] plan.orders[k]) is Mission
                    && plan.orders[k]->Mission_kind == MissionKind::Espionage
        }),
{
    let ops = operatives(state, world, faction, config.ai.espionage_skill_threshold);
    let targets = system_targets(
        stable_sort(collect(world.systems@.len(), scouted(world, faction.rebel()))),
    );
    let none = Covert { orders: Seq::empty(), next: 0, queued: 0 };
    lemma_pass(
        world,
        advice,
        MissionKind::Espionage,
        targets,
        ops,
        config.ai.max_recon_per_eval as nat,
        none,
        targets.len(),
    );
    assert(in_turn(none, 0));
    lemma_one_kind(
        world,
        advice,
        targets,
        ops,
        config.ai.max_recon_per_eval as nat,
        targets.len(),
    );
}

proof fn lemma_one_kind(
    world: GameWorld,
    advice: Advice,
    targets: Seq<(SystemKey, Option<CharacterKey>)>,
    ops: Seq<(CharacterKey, i128)>,
    cap: nat,
    n: nat,
)
    ensures
        ({
            let none = Covert { orders: Seq::empty(), next: 0, queued: 0 };
            let plan = covert_pass(
                world,
                advice,
                MissionKind::Espionage,
                targets,
                ops,
                cap,
                none,
                n,
            );
            forall|k: int|
                0 <= k < plan.orders.len() ==> (#[trigger] plan.orders[k]) is Mission
                    && plan.orders[k]->Mission_kind == MissionKind::Espionage
        }),
    decreases n,
{
    if n > 0 {
        lemma_one_kind(world, advice, targets, ops, cap, (n - 1) as nat);
    }
}

// ---- Research --------------------------------------------------------------

/// The skill that a tree calls for.
pub open spec fn craft(c: Character, tech: TechType) -> int {
    match tech {
        TechType::Ship => middle(c.ship_design),
        TechType::Troop => middle(c.troop_training),
        TechType::Facility => middle(c.facility_design),
    }
}

/// A tree on which the faction already works is left alone. Any other is given
/// to somebody at hand with a skill of thirty at least, as long as there is
/// one, and to nobody while a better one is at hand.
pub proof fn law_the_best_mind_researches(
    state: AIState,
    world: GameWorld,
    research: ResearchState,
    faction: AiFaction,
    tech: TechType,
    ticks: u32,
    other: int,
)
    ensures
        ({
            let list = research_order(state, world, research, faction, tech, ticks);
            let side = faction == AiFaction::Alliance;
            let able = |i: int|
                at_hand(state, world, faction, i) && craft(world.characters@[i]->0, tech) >= 30;
            let working = exists|q: int|
                0 <= q < research.projects@.len() && (
                #[trigger] research.projects@[q]).faction_is_alliance == side
                    && research.projects@[q].tech_type == tech;
            let who = list[0]->Research_character;
            &&& working ==> list.len() == 0
            &&& list.len() <= 1
            &&& list.len() == 1 ==> {
                &&& list[0] == (Order::Research { character: who, tech_type: tech, ticks })
                &&& able(who.slot as int)
            }
            &&& !working && able(other) ==> {
                &&& list.len() == 1
                &&& craft(world.characters@[other]->0, tech) <= craft(
                    world.characters.at(who),
                    tech,
                )
                &&& other > who.slot ==> craft(world.characters@[other]->0, tech) < craft(
                    world.characters.at(who),
                    tech,
                )
            }
        }),
{
    lemma_slots_bounded(&world.characters);
    lemma_highest(
        world.characters@.len(),
        researcher(state, world, faction, tech),
        |c: CharacterKey| c.slot as int,
        other,
    );
}

// ---- Unrest ----------------------------------------------------------------

/// Whether a system of the faction's own is close to revolt: fewer than two
/// fifths of the people are behind the faction.
pub open spec fn close_to_revolt(world: GameWorld, faction: AiFaction, i: int) -> bool {
    &&& 0 <= i < world.systems@.len()
    &&& world.systems@[i] is Some
    &&& (world.systems@[i]->0).control == ControlKind::Controlled(
        match faction {
            AiFaction::Alliance => Faction::Alliance,
            AiFaction::Empire => Faction::Empire,
        },
    )
    &&& popularity(world, faction == AiFaction::Alliance, i) < 0x3ecc_cccd
}

/// Diplomats at hand are sent in the order of the slots, two at the most, to
/// systems close to revolt, those with the least support first. Fewer are sent
/// only if there are fewer diplomats or fewer such systems.
pub proof fn law_unrest_is_calmed_where_it_is_worst(
    state: AIState,
    world: GameWorld,
    faction: AiFaction,
    config: GameConfig,
    i: int,
    j: int,
    s: int,
)
    ensures
        ({
            let list = calming_orders(state, world, faction, config);
            let side = faction == AiFaction::Alliance;
            let envoy = |i: int|
                at_hand(state, world, faction, i) && middle((world.characters@[i]->0).diplomacy)
                    >= config.ai.diplomacy_skill_threshold;
            &&& list.len() <= 2
            &&& 0 <= j < list.len() ==> {
                let order = list[j];
                let who = order->Mission_character;
                let at = order->Mission_target_system;
                &&& order == mission_order(MissionKind::Diplomacy, who, at, None)
                &&& envoy(who.slot as int)
                &&& close_to_revolt(world, faction, at.slot as int)
                &&& envoy(i) && i < who.slot ==> exists|l: int|
                    0 <= l < j && (#[trigger] list[l])->Mission_character.slot == i
                &&& close_to_revolt(world, faction, s) && popularity(world, side, s) < popularity(
                    world,
                    side,
                    at.slot as int,
                ) ==> exists|l: int|
                    0 <= l < j && (#[trigger] list[l])->Mission_target_system.slot == s
            }
            &&& envoy(i) && close_to_revolt(world, faction, s) && list.len() < 2 ==> (exists|l: int|
                0 <= l < list.len() && (#[trigger] list[l])->Mission_character.slot == i) || (
            exists|l: int|
                0 <= l < list.len() && (#[trigger] list[l])->Mission_target_system.slot == s)
        }),
{
    let n = world.characters@.len();
    let m = world.systems@.len();
    lemma_slots_bounded(&world.characters);
    lemma_slots_bounded(&world.systems);
    let f = restless(world, faction);
    let g = diplomat(state, world, faction, config.ai.diplomacy_skill_threshold);
    let risk = stable_sort(collect(m, f));
    let envoys = collect(n, g);
    lemma_sorted_slots(m, f, |k: SystemKey| k.slot as int);
    lemma_collect_covers(n, g);
    lemma_collect_rises(n, g, |k: CharacterKey| k.slot as int);
    let list = calming_orders(state, world, faction, config);
    if 0 <= j < list.len() {
        assert(list[j] == mission_order(MissionKind::Diplomacy, envoys[j], risk[j].0, None));
        assert(gives(n, g, envoys[j]));
        let e = choose|e: int| 0 <= e < n && #[trigger] g(e) == Some(envoys[j]);
    }
    if 0 <= i < n && g(i) is Some {
        let l = choose|l: int| 0 <= l < envoys.len() && envoys[l] == g(i)->0;
        if l < list.len() {
            assert(list[l]->Mission_character == envoys[l]);
        }
        if 0 <= j < list.len() && i < envoys[j].slot {
            assert(l < j);
        }
    }
    if close_to_revolt(world, faction, s) {
        assert(f(s) is Some);
        let l = choose|l: int| 0 <= l < risk.len() && risk[l] == f(s)->0;
        if l < list.len() {
            assert(list[l]->Mission_target_system == risk[l].0);
            assert(list[l]->Mission_target_system.slot == s);
        }
        if 0 <= j < list.len() && popularity(world, faction == AiFaction::Alliance, s)
            < popularity(
            world,
            faction == AiFaction::Alliance,
            list[j]->Mission_target_system.slot as int,
        ) {
            assert(risk[l].1 < risk[j].1);
            if l > j {
                assert(risk[j].1 <= risk[l].1);
            }
            assert(l < j);
        }
    }
}

} // verus!
