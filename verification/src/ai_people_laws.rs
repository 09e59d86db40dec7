//! What every evaluation of the computer player respects when it sends people
//! out.

use crate::ai::{dispatchable, mission_order, AIState, Advice, AiFaction, Order};
use crate::ai_advance::early_orders;
use crate::ai_covert::{
    abduction_targets, assassination_targets, calming_orders, combined_skill, covert_pass,
    covert_plan, diplomat, enemy_leader, operative, operatives, recon_plan, rescue_orders, rescuer,
    research_order, research_orders, researcher, sabotage_targets, system_targets, scouted,
    uncharted, Covert,
};
use crate::ai_fleets::death_star_order;
use crate::ai_missions::{hostile_system, incites, officer_orders, officer_task, openings, Openings};
use crate::ai_production::{build_order, means};
use crate::arena::{occupied, ArenaKey};
use crate::ids::{CharacterKey, SystemKey};
use crate::manufacturing::ManufacturingState;
use crate::missions::MissionKind;
use crate::movement::MovementState;
use crate::research::{ResearchState, TechType};
use crate::select::{
    collect, gives, last_max, law_sort_orders, lemma_collect_covers, lemma_last_max_listed,
    stable_sort,
};
use crate::tuning::GameConfig;
use crate::world::GameWorld;
use vstd::prelude::*;

verus! {

/// The character that an order sends out.
pub open spec fn sent_person(order: Order) -> Option<CharacterKey> {
    match order {
        Order::Mission { kind, character, target_system, target_character, duration_percent } => {
            Some(character)
        },
        Order::Research { character, tech_type, ticks } => Some(character),
        _ => None,
    }
}

/// Whether a character lives and may be sent out.
pub open spec fn available(
    state: AIState,
    world: GameWorld,
    faction: AiFaction,
    key: CharacterKey,
) -> bool {
    &&& world.characters.has(key)
    &&& dispatchable(state, faction, key, world.characters.at(key))
}

/// Whether a list of orders sends out none but available characters.
pub open spec fn sends_available(
    state: AIState,
    world: GameWorld,
    faction: AiFaction,
    list: Seq<Order>,
) -> bool {
    forall|i: int|
        0 <= i < list.len() && sent_person(#[trigger] list[i]) is Some ==> available(
            state,
            world,
            faction,
            sent_person(list[i])->0,
        )
}

/// Whether at most one order of a list stirs up an uprising.
pub open spec fn incites_once(list: Seq<Order>) -> bool {
    forall|i: int, j: int|
        0 <= i < j < list.len() ==> !(incites(#[trigger] list[i]) && incites(#[trigger] list[j]))
}

/// Whether no order of a list stirs up an uprising.
pub open spec fn never_incites(list: Seq<Order>) -> bool {
    forall|i: int| 0 <= i < list.len() ==> !incites(#[trigger] list[i])
}

// ---- Officers --------------------------------------------------------------

proof fn lemma_officers(
    state: AIState,
    world: GameWorld,
    faction: AiFaction,
    config: GameConfig,
    o: Openings,
    n: nat,
)
    requires
        n <= world.characters@.len(),
        world.characters@.len() <= usize::MAX,
    ensures
        sends_available(
            state,
            world,
            faction,
            officer_orders(state, world, faction, config, o, n).0,
        ),
        incites_once(officer_orders(state, world, faction, config, o, n).0),
        !officer_orders(state, world, faction, config, o, n).1 ==> never_incites(
            officer_orders(state, world, faction, config, o, n).0,
        ),
    decreases n,
{
    if n > 0 {
        lemma_officers(state, world, faction, config, o, (n - 1) as nat);
        let (list, incited) = officer_orders(state, world, faction, config, o, (n - 1) as nat);
        let after = officer_orders(state, world, faction, config, o, n).0;
        if occupied(world.characters@, n - 1) {
            let key = CharacterKey { slot: (n - 1) as usize };
            assert(key.slot_of() == n - 1);
            match officer_task(
                state,
                faction,
                config,
                o,
                key,
                world.characters@[n - 1]->0,
                incited,
            ) {
                Some(order) => {
                    assert(after == list.push(order));
                    assert(sent_person(order) == Some(key));
                    assert(available(state, world, faction, key));
                },
                None => {},
            }
        }
    }
}

/// Each character gets at most one order from the officers' round.
pub proof fn law_one_errand_per_officer(
    state: AIState,
    world: GameWorld,
    faction: AiFaction,
    config: GameConfig,
    o: Openings,
    n: nat,
)
    requires
        n <= world.characters@.len(),
        world.characters@.len() <= usize::MAX,
    ensures
        ({
            let list = officer_orders(state, world, faction, config, o, n).0;
            &&& people_differ(list)
            &&& forall|i: int|
                0 <= i < list.len() ==> sent_person(#[trigger] list[i]) is Some && sent_person(
                    list[i],
                )->0.slot < n
        }),
    decreases n,
{
    if n > 0 {
        law_one_errand_per_officer(state, world, faction, config, o, (n - 1) as nat);
    }
}

/// Whether no character is sent out twice by a list of orders.
pub open spec fn people_differ(list: Seq<Order>) -> bool {
    forall|i: int, j: int|
        0 <= i < j < list.len() && sent_person(#[trigger] list[i]) is Some ==> sent_person(list[i])
            != sent_person(#[trigger] list[j])
}

// ---- Covert work -----------------------------------------------------------

/// Whether every listed operative is available.
spec fn all_available(
    state: AIState,
    world: GameWorld,
    faction: AiFaction,
    ops: Seq<(CharacterKey, i128)>,
) -> bool {
    forall|k: int| 0 <= k < ops.len() ==> available(state, world, faction, (#[trigger] ops[k]).0)
}

/// Whether no operative is listed twice.
spec fn ops_differ(ops: Seq<(CharacterKey, i128)>) -> bool {
    forall|i: int, j: int| 0 <= i < j < ops.len() ==> (#[trigger] ops[i]).0 != (#[trigger] ops[j]).0
}

/// Sorting moves entries about and does nothing else.
proof fn lemma_sorted_members<A>(entries: Seq<(A, i128)>)
    ensures
        forall|k: int|
            0 <= k < stable_sort(entries).len() ==> entries.contains(
                #[trigger] stable_sort(entries)[k],
            ),
{
    broadcast use vstd::seq_lib::group_to_multiset_ensures;

    law_sort_orders(entries);
    let sorted = stable_sort(entries);
    assert forall|k: int| 0 <= k < sorted.len() implies entries.contains(#[trigger] sorted[k]) by {
        assert(sorted.contains(sorted[k]));
        assert(sorted.to_multiset().count(sorted[k]) > 0);
    }
}

/// The keys that slots are collected into rise.
proof fn lemma_rising(n: nat, f: spec_fn(int) -> Option<(CharacterKey, i128)>)
    requires
        n <= usize::MAX,
        forall|i: int|
            0 <= i < n && (#[trigger] f(i)) is Some ==> (f(i)->0).0.slot == i as usize,
    ensures
        forall|i: int, j: int|
            0 <= i < j < collect(n, f).len() ==> (#[trigger] collect(n, f)[i]).0.slot < (
            #[trigger] collect(n, f)[j]).0.slot,
        forall|i: int| 0 <= i < collect(n, f).len() ==> (#[trigger] collect(n, f)[i]).0.slot < n,
    decreases n,
{
    if n > 0 {
        lemma_rising((n - 1) as nat, f);
        let before = collect((n - 1) as nat, f);
        let after = collect(n, f);
        if f(n - 1) is Some {
            assert(after == before.push(f(n - 1)->0));
            assert((f(n - 1)->0).0.slot == n - 1);
        }
    }
}

/// Sorting entries with different keys leaves the keys different.
proof fn lemma_sorted_differ(entries: Seq<(CharacterKey, i128)>)
    requires
        ops_differ(entries),
    ensures
        ops_differ(stable_sort(entries)),
{
    broadcast use vstd::seq_lib::group_to_multiset_ensures;

    law_sort_orders(entries);
    lemma_sorted_members(entries);
    let sorted = stable_sort(entries);
    assert(entries.no_duplicates());
    entries.lemma_multiset_has_no_duplicates();
    assert(sorted.no_duplicates()) by {
        sorted.lemma_multiset_has_no_duplicates_conv();
    }
    assert forall|i: int, j: int| 0 <= i < j < sorted.len() implies (#[trigger] sorted[i]).0 != (
    #[trigger] sorted[j]).0 by {
        assert(entries.contains(sorted[i]));
        assert(entries.contains(sorted[j]));
        let a = choose|a: int| 0 <= a < entries.len() && entries[a] == sorted[i];
        let b = choose|b: int| 0 <= b < entries.len() && entries[b] == sorted[j];
        assert(sorted[i] != sorted[j]);
        if a < b {
            assert(entries[a].0 != entries[b].0);
        } else {
            assert(entries[b].0 != entries[a].0);
        }
    }
}

/// The operatives are available, and none is listed twice.
proof fn lemma_operatives(state: AIState, world: GameWorld, faction: AiFaction, threshold: u32)
    requires
        world.characters@.len() <= usize::MAX,
    ensures
        all_available(state, world, faction, operatives(state, world, faction, threshold)),
        ops_differ(operatives(state, world, faction, threshold)),
{
    let f = operative(state, world, faction, threshold);
    let n = world.characters@.len();
    let found = collect(n, f);
    lemma_collect_covers(n, f);
    lemma_rising(n, f);
    lemma_sorted_members(found);
    lemma_sorted_differ(found);
    let ops = stable_sort(found);
    assert forall|k: int| 0 <= k < ops.len() implies available(
        state,
        world,
        faction,
        (#[trigger] ops[k]).0,
    ) by {
        assert(found.contains(ops[k]));
        let j = choose|j: int| 0 <= j < found.len() && found[j] == ops[k];
        assert(gives(n, f, found[j]));
        let i = choose|i: int| 0 <= i < n && #[trigger] f(i) == Some(found[j]);
        assert(ops[k].0.slot_of() == i);
    }
}

/// Whether the planning so far sends only listed operatives, each once and
/// before the next one to consider, and keeps count.
spec fn planned(c: Covert, ops: Seq<(CharacterKey, i128)>, cap: nat) -> bool {
    &&& c.queued == c.orders.len()
    &&& c.queued <= cap
    &&& c.queued <= c.next
    &&& c.next <= ops.len()
    &&& never_incites(c.orders)
    &&& forall|i: int|
        0 <= i < c.orders.len() ==> sent_person(#[trigger] c.orders[i]) is Some && exists|k: int|
            0 <= k < c.next && (#[trigger] ops[k]).0 == sent_person(c.orders[i])->0
    &&& people_differ(c.orders)
}

proof fn lemma_covert_pass(
    world: GameWorld,
    advice: Advice,
    kind: MissionKind,
    targets: Seq<(SystemKey, Option<CharacterKey>)>,
    ops: Seq<(CharacterKey, i128)>,
    cap: nat,
    start: Covert,
    n: nat,
)
    requires
        kind != MissionKind::InciteUprising,
        planned(start, ops, cap),
        ops_differ(ops),
    ensures
        planned(covert_pass(world, advice, kind, targets, ops, cap, start, n), ops, cap),
    decreases n,
{
    if n > 0 {
        lemma_covert_pass(world, advice, kind, targets, ops, cap, start, (n - 1) as nat);
        let c = covert_pass(world, advice, kind, targets, ops, cap, start, (n - 1) as nat);
        let d = covert_pass(world, advice, kind, targets, ops, cap, start, n);
        if c.queued < cap && c.next < ops.len() {
            let op = ops[c.next as int].0;
            let (system, character) = targets[n - 1];
            if d.queued > c.queued {
                let order = mission_order(kind, op, system, character);
                assert(d.orders == c.orders.push(order));
                assert(sent_person(order) == Some(op));
                assert forall|i: int| 0 <= i < d.orders.len() implies sent_person(
                    #[trigger] d.orders[i],
                ) is Some && exists|k: int|
                    0 <= k < d.next && (#[trigger] ops[k]).0 == sent_person(d.orders[i])->0 by {
                    if i < c.orders.len() {
                        assert(d.orders[i] == c.orders[i]);
                        let k = choose|k: int|
                            0 <= k < c.next && (#[trigger] ops[k]).0 == sent_person(
                                c.orders[i],
                            )->0;
                        assert(ops[k].0 == sent_person(d.orders[i])->0);
                    } else {
                        assert(ops[c.next as int].0 == sent_person(d.orders[i])->0);
                    }
                }
                assert forall|i: int, j: int|
                    0 <= i < j < d.orders.len() && sent_person(
                        #[trigger] d.orders[i],
                    ) is Some implies sent_person(d.orders[i]) != sent_person(
                    #[trigger] d.orders[j],
                ) by {
                    if j == c.orders.len() {
                        assert(d.orders[i] == c.orders[i]);
                        let k = choose|k: int|
                            0 <= k < c.next && (#[trigger] ops[k]).0 == sent_person(
                                c.orders[i],
                            )->0;
                        assert(ops[k].0 != ops[c.next as int].0);
                    } else {
                        assert(d.orders[i] == c.orders[i]);
                        assert(d.orders[j] == c.orders[j]);
                    }
                }
            } else {
                assert(d.orders == c.orders);
                assert forall|i: int| 0 <= i < d.orders.len() implies sent_person(
                    #[trigger] d.orders[i],
                ) is Some && exists|k: int|
                    0 <= k < d.next && (#[trigger] ops[k]).0 == sent_person(d.orders[i])->0 by {
                    let k = choose|k: int|
                        0 <= k < c.next && (#[trigger] ops[k]).0 == sent_person(c.orders[i])->0;
                    assert(ops[k].0 == sent_person(d.orders[i])->0);
                }
            }
        }
    }
}

/// A plan that sends listed operatives sends available characters.
proof fn lemma_planned_available(
    state: AIState,
    world: GameWorld,
    faction: AiFaction,
    c: Covert,
    ops: Seq<(CharacterKey, i128)>,
    cap: nat,
)
    requires
        planned(c, ops, cap),
        all_available(state, world, faction, ops),
    ensures
        sends_available(state, world, faction, c.orders),
        grounded(c.orders),
{
    assert forall|i: int| 0 <= i < c.orders.len() implies !((#[trigger] c.orders[i]) is Move) by {
        assert(sent_person(c.orders[i]) is Some);
    }
    assert forall|i: int|
        0 <= i < c.orders.len() && sent_person(#[trigger] c.orders[i]) is Some implies available(
        state,
        world,
        faction,
        sent_person(c.orders[i])->0,
    ) by {
        let k = choose|k: int|
            0 <= k < c.next && (#[trigger] ops[k]).0 == sent_person(c.orders[i])->0;
        assert(available(state, world, faction, ops[k].0));
    }
}

/// The covert plan stays within its limit, and no operative is used twice in
/// it.
pub proof fn law_covert_plan_is_bounded(
    state: AIState,
    world: GameWorld,
    faction: AiFaction,
    config: GameConfig,
    advice: Advice,
)
    requires
        world.characters@.len() <= usize::MAX,
    ensures
        ({
            let list = covert_plan(state, world, faction, config, advice).orders;
            &&& list.len() <= config.ai.max_covert_ops_per_eval
            &&& people_differ(list)
            &&& sends_available(state, world, faction, list)
            &&& never_incites(list)
            &&& grounded(list)
        }),
{
    let ops = operatives(state, world, faction, config.ai.espionage_skill_threshold);
    lemma_operatives(state, world, faction, config.ai.espionage_skill_threshold);
    let cap = config.ai.max_covert_ops_per_eval as nat;
    let none = Covert { orders: Seq::empty(), next: 0, queued: 0 };
    let sabotage = sabotage_targets(world, faction.rebel());
    assert(planned(none, ops, cap));
    lemma_covert_pass(
        world,
        advice,
        MissionKind::Sabotage,
        sabotage,
        ops,
        cap,
        none,
        sabotage.len(),
    );
    let a = covert_pass(
        world,
        advice,
        MissionKind::Sabotage,
        sabotage,
        ops,
        cap,
        none,
        sabotage.len(),
    );
    let unknown = collect(world.systems@.len(), uncharted(world));
    match hostile_system(world, faction, config.ai.covert_target_popularity_threshold) {
        Some(base) => {
            let leaders = assassination_targets(world, faction, base);
            lemma_covert_pass(
                world,
                advice,
                MissionKind::Assassination,
                leaders,
                ops,
                cap,
                a,
                leaders.len(),
            );
            let b = covert_pass(
                world,
                advice,
                MissionKind::Assassination,
                leaders,
                ops,
                cap,
                a,
                leaders.len(),
            );
            let people = abduction_targets(world, faction, base);
            lemma_covert_pass(
                world,
                advice,
                MissionKind::Abduction,
                people,
                ops,
                cap,
                b,
                people.len(),
            );
            let c = covert_pass(
                world,
                advice,
                MissionKind::Abduction,
                people,
                ops,
                cap,
                b,
                people.len(),
            );
            lemma_covert_pass(
                world,
                advice,
                MissionKind::Espionage,
                unknown,
                ops,
                cap,
                c,
                unknown.len(),
            );
        },
        None => {
            lemma_covert_pass(
                world,
                advice,
                MissionKind::Espionage,
                unknown,
                ops,
                cap,
                a,
                unknown.len(),
            );
        },
    }
    lemma_planned_available(
        state,
        world,
        faction,
        covert_plan(state, world, faction, config, advice),
        ops,
        cap,
    );
}

/// Scouting stays within its limit, and no scout is used twice in it.
pub proof fn law_scouting_is_bounded(
    state: AIState,
    world: GameWorld,
    faction: AiFaction,
    config: GameConfig,
    advice: Advice,
)
    requires
        world.characters@.len() <= usize::MAX,
    ensures
        ({
            let list = recon_plan(state, world, faction, config, advice).orders;
            &&& list.len() <= config.ai.max_recon_per_eval
            &&& people_differ(list)
            &&& sends_available(state, world, faction, list)
            &&& never_incites(list)
            &&& grounded(list)
        }),
{
    let ops = operatives(state, world, faction, config.ai.espionage_skill_threshold);
    lemma_operatives(state, world, faction, config.ai.espionage_skill_threshold);
    let cap = config.ai.max_recon_per_eval as nat;
    let targets = system_targets(
        stable_sort(collect(world.systems@.len(), scouted(world, faction.rebel()))),
    );
    lemma_covert_pass(
        world,
        advice,
        MissionKind::Espionage,
        targets,
        ops,
        cap,
        Covert { orders: Seq::empty(), next: 0, queued: 0 },
        targets.len(),
    );
    lemma_planned_available(
        state,
        world,
        faction,
        recon_plan(state, world, faction, config, advice),
        ops,
        cap,
    );
}

// ---- Rescue, research, unrest ----------------------------------------------

proof fn lemma_rescue(state: AIState, world: GameWorld, faction: AiFaction)
    requires
        world.characters@.len() <= usize::MAX,
    ensures
        sends_available(state, world, faction, rescue_orders(state, world, faction)),
        never_incites(rescue_orders(state, world, faction)),
{
    let f = rescuer(state, world, faction);
    let n = world.characters@.len();
    let found = collect(n, f);
    lemma_collect_covers(n, f);
    lemma_sorted_members(found);
    let free = stable_sort(found);
    let list = rescue_orders(state, world, faction);
    assert forall|i: int|
        0 <= i < list.len() && sent_person(#[trigger] list[i]) is Some implies available(
        state,
        world,
        faction,
        sent_person(list[i])->0,
    ) by {
        assert(found.contains(free[i]));
        let j = choose|j: int| 0 <= j < found.len() && found[j] == free[i];
        assert(gives(n, f, found[j]));
        let k = choose|k: int| 0 <= k < n && #[trigger] f(k) == Some(found[j]);
        assert(free[i].0.slot_of() == k);
    }
}

proof fn lemma_research(
    state: AIState,
    world: GameWorld,
    research: ResearchState,
    faction: AiFaction,
    tech: TechType,
    ticks: u32,
)
    requires
        world.characters@.len() <= usize::MAX,
    ensures
        sends_available(
            state,
            world,
            faction,
            research_order(state, world, research, faction, tech, ticks),
        ),
        never_incites(research_order(state, world, research, faction, tech, ticks)),
{
    let f = researcher(state, world, faction, tech);
    let n = world.characters@.len();
    let found = collect(n, f);
    lemma_collect_covers(n, f);
    let list = research_order(state, world, research, faction, tech, ticks);
    if list.len() > 0 {
        lemma_last_max_listed(found);
        let who = last_max(found)->0;
        let j = choose|j: int| 0 <= j < found.len() && found[j].0 == who;
        assert(gives(n, f, found[j]));
        let k = choose|k: int| 0 <= k < n && #[trigger] f(k) == Some(found[j]);
        assert(who.slot_of() == k);
        assert(available(state, world, faction, who));
    }
}

proof fn lemma_calming(state: AIState, world: GameWorld, faction: AiFaction, config: GameConfig)
    requires
        world.characters@.len() <= usize::MAX,
    ensures
        sends_available(state, world, faction, calming_orders(state, world, faction, config)),
        never_incites(calming_orders(state, world, faction, config)),
{
    let f = diplomat(state, world, faction, config.ai.diplomacy_skill_threshold);
    let n = world.characters@.len();
    let envoys = collect(n, f);
    lemma_collect_covers(n, f);
    let list = calming_orders(state, world, faction, config);
    assert forall|i: int|
        0 <= i < list.len() && sent_person(#[trigger] list[i]) is Some implies available(
        state,
        world,
        faction,
        sent_person(list[i])->0,
    ) by {
        assert(gives(n, f, envoys[i]));
        let k = choose|k: int| 0 <= k < n && #[trigger] f(k) == Some(envoys[i]);
        assert(envoys[i].slot_of() == k);
    }
}

// ---- All orders before fleets are deployed ---------------------------------

/// Whether a list of orders moves no fleet.
pub open spec fn grounded(list: Seq<Order>) -> bool {
    forall|i: int| 0 <= i < list.len() ==> !((#[trigger] list[i]) is Move)
}

/// Whether a list of orders respects what the people's laws ask of it, with or
/// without an uprising in it.
spec fn proper(
    state: AIState,
    world: GameWorld,
    faction: AiFaction,
    list: Seq<Order>,
    may_incite: bool,
) -> bool {
    &&& sends_available(state, world, faction, list)
    &&& incites_once(list)
    &&& !may_incite ==> never_incites(list)
}

proof fn lemma_joined_proper(
    state: AIState,
    world: GameWorld,
    faction: AiFaction,
    a: Seq<Order>,
    b: Seq<Order>,
)
    requires
        proper(state, world, faction, a, true),
        proper(state, world, faction, b, false),
    ensures
        proper(state, world, faction, a + b, true),
{
    let whole = a + b;
    assert forall|i: int|
        0 <= i < whole.len() && sent_person(#[trigger] whole[i]) is Some implies available(
        state,
        world,
        faction,
        sent_person(whole[i])->0,
    ) by {
        if i < a.len() {
            assert(whole[i] == a[i]);
        } else {
            assert(whole[i] == b[i - a.len()]);
        }
    }
    assert forall|i: int, j: int| 0 <= i < j < whole.len() implies !(incites(#[trigger] whole[i])
        && incites(#[trigger] whole[j])) by {
        if j < a.len() {
            assert(whole[i] == a[i]);
            assert(whole[j] == a[j]);
        } else {
            assert(whole[j] == b[j - a.len()]);
        }
    }
}

proof fn lemma_builds(
    state: AIState,
    world: GameWorld,
    faction: AiFaction,
    n: nat,
    f: spec_fn(int) -> Option<Order>,
)
    requires
        forall|i: int| 0 <= i < n && (#[trigger] f(i)) is Some ==> f(i)->0 is Production,
    ensures
        proper(state, world, faction, collect(n, f), false),
        grounded(collect(n, f)),
{
    lemma_collect_covers(n, f);
    let list = collect(n, f);
    assert forall|i: int| 0 <= i < list.len() implies (#[trigger] list[i]) is Production by {
        assert(gives(n, f, list[i]));
        let k = choose|k: int| 0 <= k < n && #[trigger] f(k) == Some(list[i]);
        assert(f(k) is Some);
    }
}

/// The orders that come before the fleets' respect what is asked of orders to
/// people.
pub(crate) proof fn lemma_early_people(
    state: AIState,
    world: GameWorld,
    mfg: ManufacturingState,
    movement: MovementState,
    config: GameConfig,
    research: ResearchState,
    advice: Advice,
    faction: AiFaction,
)
    requires
        world.characters@.len() <= usize::MAX,
    ensures
        ({
            let list = early_orders(
                state,
                world,
                mfg,
                movement,
                config,
                research,
                advice,
                faction,
            );
            &&& sends_available(state, world, faction, list)
            &&& incites_once(list)
        }),
{
    let o = openings(world, faction, config);
    lemma_officers(state, world, faction, config, o, world.characters@.len());
    law_covert_plan_is_bounded(state, world, faction, config, advice);
    lemma_rescue(state, world, faction);
    law_scouting_is_bounded(state, world, faction, config, advice);
    lemma_research(
        state,
        world,
        research,
        faction,
        TechType::Ship,
        advice.ship_research_ticks,
    );
    lemma_research(
        state,
        world,
        research,
        faction,
        TechType::Troop,
        advice.troop_research_ticks,
    );
    lemma_research(
        state,
        world,
        research,
        faction,
        TechType::Facility,
        advice.facility_research_ticks,
    );
    lemma_calming(state, world, faction, config);
    let builds = build_order(world, mfg, faction.rebel(), config, means(world, faction));
    lemma_builds(state, world, faction, world.systems@.len(), builds);
    let p1 = officer_orders(state, world, faction, config, o, world.characters@.len()).0;
    let p2 = covert_plan(state, world, faction, config, advice).orders;
    let p3 = rescue_orders(state, world, faction);
    let p4 = recon_plan(state, world, faction, config, advice).orders;
    let s = research_order(
        state,
        world,
        research,
        faction,
        TechType::Ship,
        advice.ship_research_ticks,
    );
    let t = research_order(
        state,
        world,
        research,
        faction,
        TechType::Troop,
        advice.troop_research_ticks,
    );
    let q = research_order(
        state,
        world,
        research,
        faction,
        TechType::Facility,
        advice.facility_research_ticks,
    );
    let p5 = s + t + q;
    let p6 = collect(world.systems@.len(), builds);
    let p7 = calming_orders(state, world, faction, config);
    let p8 = death_star_order(world, movement, faction.rebel(), advice.death_star_outgunned);
    assert(proper(state, world, faction, p5, false));
    assert(proper(state, world, faction, p8, false));
    lemma_joined_proper(state, world, faction, p1, p2);
    lemma_joined_proper(state, world, faction, p1 + p2, p3);
    lemma_joined_proper(state, world, faction, p1 + p2 + p3, p4);
    lemma_joined_proper(state, world, faction, p1 + p2 + p3 + p4, p5);
    lemma_joined_proper(state, world, faction, p1 + p2 + p3 + p4 + p5, p6);
    lemma_joined_proper(state, world, faction, p1 + p2 + p3 + p4 + p5 + p6, p7);
    lemma_joined_proper(state, world, faction, p1 + p2 + p3 + p4 + p5 + p6 + p7, p8);
}

/// The orders that come before the Death Star's move no fleet, and there is
/// at most one of the Death Star's.
pub(crate) proof fn lemma_early_moves(
    state: AIState,
    world: GameWorld,
    mfg: ManufacturingState,
    movement: MovementState,
    config: GameConfig,
    research: ResearchState,
    advice: Advice,
    faction: AiFaction,
) -> (front: Seq<Order>)
    requires
        world.characters@.len() <= usize::MAX,
    ensures
        grounded(front),
        early_orders(state, world, mfg, movement, config, research, advice, faction) == front
            + death_star_order(world, movement, faction.rebel(), advice.death_star_outgunned),
{
    let o = openings(world, faction, config);
    law_one_errand_per_officer(state, world, faction, config, o, world.characters@.len());
    law_covert_plan_is_bounded(state, world, faction, config, advice);
    law_scouting_is_bounded(state, world, faction, config, advice);
    let builds = build_order(world, mfg, faction.rebel(), config, means(world, faction));
    lemma_builds(state, world, faction, world.systems@.len(), builds);
    let p1 = officer_orders(state, world, faction, config, o, world.characters@.len()).0;
    assert(grounded(p1)) by {
        assert forall|i: int| 0 <= i < p1.len() implies !((#[trigger] p1[i]) is Move) by {
            assert(sent_person(p1[i]) is Some);
        }
    }
    let p2 = covert_plan(state, world, faction, config, advice).orders;
    let p3 = rescue_orders(state, world, faction);
    let p4 = recon_plan(state, world, faction, config, advice).orders;
    let p5 = research_orders(state, world, research, faction, advice);
    let p6 = collect(world.systems@.len(), builds);
    let p7 = calming_orders(state, world, faction, config);
    assert(grounded(p3));
    assert(grounded(p5));
    assert(grounded(p7));
    lemma_joined_grounded(p1, p2);
    lemma_joined_grounded(p1 + p2, p3);
    lemma_joined_grounded(p1 + p2 + p3, p4);
    lemma_joined_grounded(p1 + p2 + p3 + p4, p5);
    lemma_joined_grounded(p1 + p2 + p3 + p4 + p5, p6);
    lemma_joined_grounded(p1 + p2 + p3 + p4 + p5 + p6, p7);
    p1 + p2 + p3 + p4 + p5 + p6 + p7
}

proof fn lemma_joined_grounded(a: Seq<Order>, b: Seq<Order>)
    requires
        grounded(a),
        grounded(b),
    ensures
        grounded(a + b),
{
    let whole = a + b;
    assert forall|i: int| 0 <= i < whole.len() implies !((#[trigger] whole[i]) is Move) by {
        if i < a.len() {
            assert(whole[i] == a[i]);
        } else {
            assert(whole[i] == b[i - a.len()]);
        }
    }
}

/// Assassins are pointed at the enemy's leaders in the order of their combined
/// skill: every target is a major character of the enemy, and none that comes
/// later is more skilled.
pub proof fn law_assassins_seek_the_most_skilled(
    world: GameWorld,
    faction: AiFaction,
    base: SystemKey,
)
    requires
        world.characters@.len() <= usize::MAX,
    ensures
        ({
            let targets = assassination_targets(world, faction, base);
            &&& forall|k: int|
                0 <= k < targets.len() ==> {
                    let target = #[trigger] targets[k];
                    &&& target.0 == base
                    &&& target.1 is Some
                    &&& world.characters.has(target.1->0)
                    &&& world.characters.at(target.1->0).is_major
                    &&& !faction.owns(world.characters.at(target.1->0))
                }
            &&& forall|k: int, l: int|
                0 <= k <= l < targets.len() ==> combined_skill(
                    world.characters.at((#[trigger] targets[k]).1->0),
                ) >= combined_skill(world.characters.at((#[trigger] targets[l]).1->0))
        }),
{
    let f = enemy_leader(world, faction);
    let n = world.characters@.len();
    let found = collect(n, f);
    lemma_collect_covers(n, f);
    lemma_sorted_members(found);
    law_sort_orders(found);
    let sorted = stable_sort(found);
    let targets = assassination_targets(world, faction, base);
    assert forall|k: int| 0 <= k < sorted.len() implies ({
        let key = (#[trigger] sorted[k]).0;
        &&& targets[k] == (base, Some(key))
        &&& world.characters.has(key)
        &&& world.characters.at(key).is_major
        &&& !faction.owns(world.characters.at(key))
        &&& sorted[k].1 == -combined_skill(world.characters.at(key))
    }) by {
        assert(found.contains(sorted[k]));
        let j = choose|j: int| 0 <= j < found.len() && found[j] == sorted[k];
        assert(gives(n, f, found[j]));
        let i = choose|i: int| 0 <= i < n && #[trigger] f(i) == Some(found[j]);
        assert(sorted[k].0.slot_of() == i);
    }
    assert forall|k: int, l: int| 0 <= k <= l < targets.len() implies combined_skill(
        world.characters.at((#[trigger] targets[k]).1->0),
    ) >= combined_skill(world.characters.at((#[trigger] targets[l]).1->0)) by {
        assert(sorted[k].1 <= sorted[l].1);
    }
    assert forall|k: int| 0 <= k < targets.len() implies ({
        let target = #[trigger] targets[k];
        &&& target.0 == base
        &&& target.1 is Some
        &&& world.characters.has(target.1->0)
        &&& world.characters.at(target.1->0).is_major
        &&& !faction.owns(world.characters.at(target.1->0))
    }) by {
        assert(sorted[k].0 == targets[k].1->0);
    }
}

} // verus!
