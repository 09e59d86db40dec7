//! Covert work, rescues, reconnaissance, research and calming unrest.

use crate::ai::{
    dispatchable, issue, mission, mission_order, orders, AIAction, AIState, AISystem, Advice,
    AiFaction, Order,
};
use crate::ai_missions::hostile_system;
use crate::ai_strength::{faction_of, side_faction, strength_of};
use crate::arena::occupied;
use crate::dat::ExplorationStatus;
use crate::ids::{CharacterKey, SystemKey};
use crate::missions::MissionKind;
use crate::research::{ResearchState, TechType};
use crate::select::{collect, last_max, pick_last_max, sort_by_rank, stable_sort, tally};
use crate::tuning::GameConfig;
use crate::world::{occupied_character, Character, GameWorld, MstbTable, SkillPair, System};
use vstd::prelude::*;

verus! {

/// The bit pattern of two fifths in single precision.
pub const TWO_FIFTHS: u32 = 0x3ecc_cccd;

// ---- Odds ------------------------------------------------------------------

/// The first table for a mission kind, from `from` on.
pub open spec fn table_of(tables: Seq<(MissionKind, MstbTable)>, kind: MissionKind, from: nat) -> Option<
    MstbTable,
>
    decreases tables.len() - from,
{
    if from >= tables.len() {
        None
    } else if tables[from as int].0 == kind {
        Some(tables[from as int].1)
    } else {
        table_of(tables, kind, from + 1)
    }
}

/// Whether a mission is worth sending, given the skill score for it. The table
/// decides where there is one, the formula where there is none; scrapping
/// always succeeds.
pub open spec fn worthwhile(world: GameWorld, advice: Advice, kind: MissionKind, score: u32) -> bool {
    if kind == MissionKind::Autoscrap {
        100 >= advice.min_success_percent
    } else {
        match table_of(world.mission_tables@, kind, 0) {
            Some(table) => table.lookup_spec((score as i32) as int) >= advice.min_success_percent,
            None => advice.formula_clears@.contains((kind, score)),
        }
    }
}

impl AISystem {
    /// Whether a mission is worth sending, given the skill score for it.
    pub fn expected_success(world: &GameWorld, advice: &Advice, kind: MissionKind, score: u32) -> (ok:
        bool)
        ensures
            ok == worthwhile(*world, *advice, kind, score),
    {
        if kind == MissionKind::Autoscrap {
            return 100 >= advice.min_success_percent;
        }
        let tables = &world.mission_tables;
        let mut i: usize = 0;
        while i < tables.len()
            invariant
                i <= tables@.len(),
                *tables == world.mission_tables,
                kind != MissionKind::Autoscrap,
                table_of(tables@, kind, 0) == table_of(tables@, kind, i as nat),
            decreases tables@.len() - i,
        {
            if tables[i].0 == kind {
                return tables[i].1.lookup((score as i32) as i64) >= advice.min_success_percent;
            }
            i = i + 1;
        }
        for j in 0..advice.formula_clears.len()
            invariant
                kind != MissionKind::Autoscrap,
                table_of(world.mission_tables@, kind, 0) is None,
                forall|k: int|
                    0 <= k < j ==> #[trigger] advice.formula_clears@[k] != (kind, score),
        {
            let cleared: (MissionKind, u32) = advice.formula_clears[j];
            if cleared.0 == kind && cleared.1 == score {
                assert(advice.formula_clears@[j as int] == (kind, score));
                return true;
            }
        }
        false
    }
}

// ---- Handing targets to operatives -----------------------------------------

/// Character `i` with its espionage score, if it is available and skilled
/// enough for covert work. The rank puts the best first.
pub open spec fn operative(state: AIState, world: GameWorld, faction: AiFaction, threshold: u32) -> spec_fn(
    int,
) -> Option<(CharacterKey, i128)> {
    |i: int|
        if occupied(world.characters@, i) && dispatchable(
            state,
            faction,
            CharacterKey { slot: i as usize },
            world.characters@[i]->0,
        ) && (world.characters@[i]->0).espionage.score_spec() >= threshold {
            Some(
                (
                    CharacterKey { slot: i as usize },
                    (0 - (world.characters@[i]->0).espionage.score_spec()) as i128,
                ),
            )
        } else {
            None
        }
}

/// The available covert operatives, the best first.
pub open spec fn operatives(state: AIState, world: GameWorld, faction: AiFaction, threshold: u32) -> Seq<
    (CharacterKey, i128),
> {
    stable_sort(collect(world.characters@.len(), operative(state, world, faction, threshold)))
}

/// Every operative is a living character.
pub open spec fn all_live(world: GameWorld, ops: Seq<(CharacterKey, i128)>) -> bool {
    forall|k: int| 0 <= k < ops.len() ==> world.characters.has((#[trigger] ops[k]).0)
}

/// The skill a covert mission calls for: assassins fight, the others spy.
pub open spec fn covert_skill(kind: MissionKind, c: Character) -> int {
    if kind == MissionKind::Assassination {
        c.combat.score_spec()
    } else {
        c.espionage.score_spec()
    }
}

/// How far the covert planning has come.
pub struct Covert {
    pub orders: Seq<Order>,
    /// The next operative to consider.
    pub next: nat,
    /// Missions planned.
    pub queued: nat,
}

/// Hands the first `n` targets, in order, to one operative after the other.
/// A target whose operative is not up to it is passed over together with the
/// operative. The planning stops when the limit is reached or the operatives
/// run out.
pub open spec fn covert_pass(
    world: GameWorld,
    advice: Advice,
    kind: MissionKind,
    targets: Seq<(SystemKey, Option<CharacterKey>)>,
    ops: Seq<(CharacterKey, i128)>,
    cap: nat,
    start: Covert,
    n: nat,
) -> Covert
    decreases n,
{
    if n == 0 {
        start
    } else {
        let c = covert_pass(world, advice, kind, targets, ops, cap, start, (n - 1) as nat);
        if c.queued >= cap || c.next >= ops.len() {
            c
        } else {
            let op = ops[c.next as int].0;
            let (system, character) = targets[n - 1];
            if worthwhile(
                world,
                advice,
                kind,
                covert_skill(kind, world.characters.at(op)) as u32,
            ) {
                Covert {
                    orders: c.orders.push(mission_order(kind, op, system, character)),
                    next: c.next + 1,
                    queued: c.queued + 1,
                }
            } else {
                Covert { next: c.next + 1, ..c }
            }
        }
    }
}

/// Lists the available covert operatives, the best first.
fn list_operatives(state: &AIState, world: &GameWorld, faction: AiFaction, threshold: u32) -> (ops:
    Vec<(CharacterKey, i128)>)
    requires
        world.wf(),
    ensures
        ops@ == operatives(*state, *world, faction, threshold),
        all_live(*world, ops@),
{
    let ghost f = operative(*state, *world, faction, threshold);
    let mut found: Vec<(CharacterKey, i128)> = Vec::new();
    let count: usize = world.characters.slot_count();
    for i in 0..count
        invariant
            count == world.characters@.len(),
            world.wf(),
            f == operative(*state, *world, faction, threshold),
            found@ == collect(i as nat, f),
            all_live(*world, found@),
    {
        if let Some(c) = world.characters.slot(i) {
            assert(occupied_character(world, i as int));
            let key: CharacterKey = CharacterKey { slot: i };
            if AISystem::can_dispatch(state, faction, key, c) {
                let skill: u32 = c.espionage.score();
                if skill >= threshold {
                    found.push((key, 0 - skill as i128));
                }
            }
        }
    }
    let sorted: Vec<(CharacterKey, i128)> = sort_by_rank(&found);
    proof {
        lemma_sort_keeps_live(*world, found@);
    }
    sorted
}

/// Sorting keeps the characters alive.
proof fn lemma_sort_keeps_live(world: GameWorld, ops: Seq<(CharacterKey, i128)>)
    requires
        all_live(world, ops),
    ensures
        all_live(world, stable_sort(ops)),
{
    broadcast use vstd::seq_lib::group_to_multiset_ensures;

    crate::select::law_sort_orders(ops);
    let sorted = stable_sort(ops);
    assert forall|k: int| 0 <= k < sorted.len() implies world.characters.has(
        (#[trigger] sorted[k]).0,
    ) by {
        assert(sorted.contains(sorted[k]));
        assert(sorted.to_multiset().count(sorted[k]) > 0);
        assert(ops.to_multiset().count(sorted[k]) > 0);
        assert(ops.contains(sorted[k]));
        let j = choose|j: int| 0 <= j < ops.len() && ops[j] == sorted[k];
        assert(world.characters.has(ops[j].0));
    }
}

/// The covert planning as it runs.
struct Planning {
    next: usize,
    queued: usize,
}

/// What the planning says, together with the orders given so far.
spec fn covert_of(p: Planning, done: Seq<Order>) -> Covert {
    Covert { orders: done, next: p.next as nat, queued: p.queued as nat }
}

impl Planning {
    /// Hands a list of targets to the operatives.
    fn run(
        &mut self,
        world: &GameWorld,
        advice: &Advice,
        kind: MissionKind,
        targets: &Vec<(SystemKey, Option<CharacterKey>)>,
        ops: &Vec<(CharacterKey, i128)>,
        cap: usize,
        actions: &mut Vec<AIAction>,
        Ghost(before): Ghost<Seq<Order>>,
        Ghost(done): Ghost<Seq<Order>>,
    )
        requires
            world.wf(),
            all_live(*world, ops@),
            old(self).queued <= old(self).next <= ops@.len(),
            orders(old(actions)@) == before + done,
        ensures
            final(self).queued <= final(self).next <= ops@.len(),
            ({
                let c = covert_pass(
                    *world,
                    *advice,
                    kind,
                    targets@,
                    ops@,
                    cap as nat,
                    covert_of(*old(self), done),
                    targets@.len(),
                );
                &&& c.next == final(self).next
                &&& c.queued == final(self).queued
                &&& orders(final(actions)@) == before + c.orders
            }),
    {
        let ghost start = covert_of(*self, done);
        for i in 0..targets.len()
            invariant
                world.wf(),
                all_live(*world, ops@),
                self.queued <= self.next <= ops@.len(),
                ({
                    let c = covert_pass(
                        *world,
                        *advice,
                        kind,
                        targets@,
                        ops@,
                        cap as nat,
                        start,
                        i as nat,
                    );
                    &&& c.next == self.next
                    &&& c.queued == self.queued
                    &&& orders(actions@) == before + c.orders
                }),
        {
            if self.queued < cap && self.next < ops.len() {
                let ghost c = covert_pass(
                    *world,
                    *advice,
                    kind,
                    targets@,
                    ops@,
                    cap as nat,
                    start,
                    i as nat,
                );
                let op: CharacterKey = ops[self.next].0;
                assert(world.characters.has(ops@[self.next as int].0));
                let person: &Character = world.characters.at_key(op);
                assert(occupied_character(world, op.slot as int));
                let skill: u32 = if kind == MissionKind::Assassination {
                    person.combat.score()
                } else {
                    person.espionage.score()
                };
                self.next = self.next + 1;
                if AISystem::expected_success(world, advice, kind, skill) {
                    let (system, character): (SystemKey, Option<CharacterKey>) = targets[i];
                    issue(actions, mission(kind, op, system, character));
                    self.queued = self.queued + 1;
                    assert((before + c.orders).push(mission_order(kind, op, system, character))
                        =~= before + c.orders.push(mission_order(kind, op, system, character)));
                }
            }
        }
    }
}

// ---- Covert targets --------------------------------------------------------

/// Whether the `i`th yard of a system is the enemy's.
pub open spec fn enemy_yard(world: GameWorld, sys: System, side: bool) -> spec_fn(int) -> bool {
    |i: int|
        {
            let key = sys.manufacturing_facilities@[i];
            world.manufacturing_facilities.has(key) && world.manufacturing_facilities.at(
                key,
            ).is_alliance != side
        }
}

/// How many enemy yards a system has.
pub open spec fn enemy_yards(world: GameWorld, sys: System, side: bool) -> nat {
    tally(sys.manufacturing_facilities@.len(), enemy_yard(world, sys, side))
}

/// System `i`, if it has enemy yards; the rank puts the most yards first.
pub open spec fn shipworks(world: GameWorld, side: bool) -> spec_fn(int) -> Option<
    (SystemKey, i128),
> {
    |i: int|
        if occupied(world.systems@, i) && enemy_yards(world, world.systems@[i]->0, side) > 0 {
            Some(
                (
                    SystemKey { slot: i as usize },
                    (0 - enemy_yards(world, world.systems@[i]->0, side)) as i128,
                ),
            )
        } else {
            None
        }
}

/// Ranked systems as targets.
pub open spec fn system_targets(list: Seq<(SystemKey, i128)>) -> Seq<
    (SystemKey, Option<CharacterKey>),
> {
    Seq::new(list.len(), |i: int| (list[i].0, None))
}

/// Where to sabotage: the systems with the most enemy yards first.
pub open spec fn sabotage_targets(world: GameWorld, side: bool) -> Seq<
    (SystemKey, Option<CharacterKey>),
> {
    system_targets(stable_sort(collect(world.systems@.len(), shipworks(world, side))))
}

/// Everything a character can do, taken together: the scores of its skills
/// added up. Loyalty is no skill.
pub open spec fn combined_skill(c: Character) -> int {
    c.diplomacy.score_spec() + c.espionage.score_spec() + c.ship_design.score_spec()
        + c.troop_training.score_spec() + c.facility_design.score_spec() + c.combat.score_spec()
        + c.leadership.score_spec()
}

/// Character `i`, if it is a major one of the enemy. The rank puts the one
/// with the highest combined skill first.
pub open spec fn enemy_leader(world: GameWorld, faction: AiFaction) -> spec_fn(int) -> Option<
    (CharacterKey, i128),
> {
    |i: int|
        if occupied(world.characters@, i) && (world.characters@[i]->0).is_major
            && !faction.owns(world.characters@[i]->0) {
            Some(
                (
                    CharacterKey { slot: i as usize },
                    (0 - combined_skill(world.characters@[i]->0)) as i128,
                ),
            )
        } else {
            None
        }
}

/// Character `i` with its combat score, if it is a free character of the enemy.
pub open spec fn enemy_person(world: GameWorld, faction: AiFaction) -> spec_fn(int) -> Option<
    (CharacterKey, i128),
> {
    |i: int|
        if occupied(world.characters@, i) && !faction.owns(world.characters@[i]->0) && !(
        world.characters@[i]->0).is_captive {
            Some(
                (
                    CharacterKey { slot: i as usize },
                    (world.characters@[i]->0).combat.score_spec() as i128,
                ),
            )
        } else {
            None
        }
}

/// Ranked characters as targets at one system.
pub open spec fn person_targets(list: Seq<(CharacterKey, i128)>, base: SystemKey) -> Seq<
    (SystemKey, Option<CharacterKey>),
> {
    Seq::new(list.len(), |i: int| (base, Some(list[i].0)))
}

/// Whom to abduct: the weakest fighters first.
pub open spec fn abduction_targets(world: GameWorld, faction: AiFaction, base: SystemKey) -> Seq<
    (SystemKey, Option<CharacterKey>),
> {
    person_targets(
        stable_sort(collect(world.characters@.len(), enemy_person(world, faction))),
        base,
    )
}

/// Whom to assassinate: the enemy's major characters, the most skilled first.
pub open spec fn assassination_targets(
    world: GameWorld,
    faction: AiFaction,
    base: SystemKey,
) -> Seq<(SystemKey, Option<CharacterKey>)> {
    person_targets(
        stable_sort(collect(world.characters@.len(), enemy_leader(world, faction))),
        base,
    )
}

/// System `i`, if nobody has explored it.
pub open spec fn uncharted(world: GameWorld) -> spec_fn(int) -> Option<
    (SystemKey, Option<CharacterKey>),
> {
    |i: int|
        if occupied(world.systems@, i) && (world.systems@[i]->0).exploration_status
            == ExplorationStatus::Unexplored {
            Some((SystemKey { slot: i as usize }, None))
        } else {
            None
        }
}

/// The covert plan: sabotage, then assassination and abduction from the system
/// where the enemy is best liked, then intelligence on uncharted systems.
pub open spec fn covert_plan(
    state: AIState,
    world: GameWorld,
    faction: AiFaction,
    config: GameConfig,
    advice: Advice,
) -> Covert {
    let ops = operatives(state, world, faction, config.ai.espionage_skill_threshold);
    let cap = config.ai.max_covert_ops_per_eval as nat;
    let none = Covert { orders: Seq::empty(), next: 0, queued: 0 };
    let sabotage = sabotage_targets(world, faction.rebel());
    let after_sabotage = covert_pass(
        world,
        advice,
        MissionKind::Sabotage,
        sabotage,
        ops,
        cap,
        none,
        sabotage.len(),
    );
    let after_people = match hostile_system(
        world,
        faction,
        config.ai.covert_target_popularity_threshold,
    ) {
        Some(base) => {
            let leaders = assassination_targets(world, faction, base);
            let after_leaders = covert_pass(
                world,
                advice,
                MissionKind::Assassination,
                leaders,
                ops,
                cap,
                after_sabotage,
                leaders.len(),
            );
            let people = abduction_targets(world, faction, base);
            covert_pass(
                world,
                advice,
                MissionKind::Abduction,
                people,
                ops,
                cap,
                after_leaders,
                people.len(),
            )
        },
        None => after_sabotage,
    };
    let unknown = collect(world.systems@.len(), uncharted(world));
    covert_pass(
        world,
        advice,
        MissionKind::Espionage,
        unknown,
        ops,
        cap,
        after_people,
        unknown.len(),
    )
}

/// Counts the enemy's yards at a system.
fn count_enemy_yards(world: &GameWorld, sys: &System, side: bool) -> (count: usize)
    ensures
        count == enemy_yards(*world, *sys, side),
{
    let ghost f = enemy_yard(*world, *sys, side);
    let mut count: usize = 0;
    for i in 0..sys.manufacturing_facilities.len()
        invariant
            f == enemy_yard(*world, *sys, side),
            count <= i,
            count == tally(i as nat, f),
    {
        if let Some(yard) = world.manufacturing_facilities.get(sys.manufacturing_facilities[i]) {
            if yard.is_alliance != side {
                count = count + 1;
            }
        }
    }
    count
}

/// Lists where to sabotage.
fn list_sabotage(world: &GameWorld, side: bool) -> (targets: Vec<(SystemKey, Option<CharacterKey>)>)
    ensures
        targets@ == sabotage_targets(*world, side),
{
    let ghost f = shipworks(*world, side);
    let mut found: Vec<(SystemKey, i128)> = Vec::new();
    let count: usize = world.systems.slot_count();
    for i in 0..count
        invariant
            count == world.systems@.len(),
            f == shipworks(*world, side),
            found@ == collect(i as nat, f),
    {
        if let Some(sys) = world.systems.slot(i) {
            let yards: usize = count_enemy_yards(world, sys, side);
            if yards > 0 {
                found.push((SystemKey { slot: i }, 0 - yards as i128));
            }
        }
    }
    as_targets(&sort_by_rank(&found))
}

/// Ranked systems as targets.
fn as_targets(list: &Vec<(SystemKey, i128)>) -> (targets: Vec<(SystemKey, Option<CharacterKey>)>)
    ensures
        targets@ == system_targets(list@),
{
    let mut targets: Vec<(SystemKey, Option<CharacterKey>)> = Vec::new();
    for i in 0..list.len()
        invariant
            targets@ == system_targets(list@).take(i as int),
    {
        targets.push((list[i].0, None));
        assert(targets@ =~= system_targets(list@).take(i + 1));
    }
    assert(targets@ =~= system_targets(list@));
    targets
}

/// Points every listed character out at a system.
fn as_people(list: &Vec<(CharacterKey, i128)>, base: SystemKey) -> (targets: Vec<
    (SystemKey, Option<CharacterKey>),
>)
    ensures
        targets@ == person_targets(list@, base),
{
    let mut targets: Vec<(SystemKey, Option<CharacterKey>)> = Vec::new();
    for i in 0..list.len()
        invariant
            targets@ == person_targets(list@, base).take(i as int),
    {
        targets.push((base, Some(list[i].0)));
        assert(targets@ =~= person_targets(list@, base).take(i + 1));
    }
    assert(targets@ =~= person_targets(list@, base));
    targets
}

/// Adds up the scores of a character's skills.
fn total_skill(c: &Character) -> (total: i128)
    ensures
        total == combined_skill(*c),
{
    wide_score(&c.diplomacy) + wide_score(&c.espionage) + wide_score(&c.ship_design) + wide_score(
        &c.troop_training,
    ) + wide_score(&c.facility_design) + wide_score(&c.combat) + wide_score(&c.leadership)
}

/// The score of one skill.
fn wide_score(s: &SkillPair) -> (score: i128)
    ensures
        score == s.score_spec(),
        0 <= score <= 0x2_0000_0000,
{
    s.base as i128 + (s.variance / 2) as i128
}

/// Lists whom to assassinate.
fn list_leaders(world: &GameWorld, faction: AiFaction, base: SystemKey) -> (targets: Vec<
    (SystemKey, Option<CharacterKey>),
>)
    ensures
        targets@ == assassination_targets(*world, faction, base),
{
    let ghost f = enemy_leader(*world, faction);
    let mut found: Vec<(CharacterKey, i128)> = Vec::new();
    let count: usize = world.characters.slot_count();
    for i in 0..count
        invariant
            count == world.characters@.len(),
            f == enemy_leader(*world, faction),
            found@ == collect(i as nat, f),
    {
        if let Some(c) = world.characters.slot(i) {
            if c.is_major && !faction.owns_character(c) {
                let total: i128 = total_skill(c);
                assert(0 <= total <= 7 * 0x2_0000_0000);
                found.push((CharacterKey { slot: i }, 0 - total));
            }
        }
    }
    let list: Vec<(CharacterKey, i128)> = sort_by_rank(&found);
    as_people(&list, base)
}

/// Lists whom to abduct.
fn list_abductions(world: &GameWorld, faction: AiFaction, base: SystemKey) -> (targets: Vec<
    (SystemKey, Option<CharacterKey>),
>)
    requires
        world.wf(),
    ensures
        targets@ == abduction_targets(*world, faction, base),
{
    let ghost f = enemy_person(*world, faction);
    let mut found: Vec<(CharacterKey, i128)> = Vec::new();
    let count: usize = world.characters.slot_count();
    for i in 0..count
        invariant
            count == world.characters@.len(),
            world.wf(),
            f == enemy_person(*world, faction),
            found@ == collect(i as nat, f),
    {
        if let Some(c) = world.characters.slot(i) {
            assert(occupied_character(world, i as int));
            if !faction.owns_character(c) && !c.is_captive {
                found.push((CharacterKey { slot: i }, c.combat.score() as i128));
            }
        }
    }
    let list: Vec<(CharacterKey, i128)> = sort_by_rank(&found);
    as_people(&list, base)
}

/// Lists the uncharted systems.
fn list_uncharted(world: &GameWorld) -> (targets: Vec<(SystemKey, Option<CharacterKey>)>)
    ensures
        targets@ == collect(world.systems@.len(), uncharted(*world)),
{
    let ghost f = uncharted(*world);
    let mut targets: Vec<(SystemKey, Option<CharacterKey>)> = Vec::new();
    let count: usize = world.systems.slot_count();
    for i in 0..count
        invariant
            count == world.systems@.len(),
            f == uncharted(*world),
            targets@ == collect(i as nat, f),
    {
        if let Some(sys) = world.systems.slot(i) {
            if sys.exploration_status == ExplorationStatus::Unexplored {
                targets.push((SystemKey { slot: i }, None));
            }
        }
    }
    targets
}

impl AISystem {
    /// Sends covert operatives against the enemy.
    pub fn evaluate_espionage(
        state: &AIState,
        world: &GameWorld,
        faction: AiFaction,
        config: &GameConfig,
        advice: &Advice,
        actions: &mut Vec<AIAction>,
    )
        requires
            world.wf(),
        ensures
            orders(final(actions)@) == orders(old(actions)@) + covert_plan(
                *state,
                *world,
                faction,
                *config,
                *advice,
            ).orders,
    {
        let side: bool = faction.is_alliance();
        let ghost before = orders(actions@);
        let ops: Vec<(CharacterKey, i128)> = list_operatives(
            state,
            world,
            faction,
            config.ai.espionage_skill_threshold,
        );
        let cap: usize = config.ai.max_covert_ops_per_eval;
        let mut p: Planning = Planning { next: 0, queued: 0 };
        let ghost none = Covert { orders: Seq::<Order>::empty(), next: 0, queued: 0 };
        assert(before + none.orders =~= before);
        let sabotage: Vec<(SystemKey, Option<CharacterKey>)> = list_sabotage(world, side);
        p.run(
            world,
            advice,
            MissionKind::Sabotage,
            &sabotage,
            &ops,
            cap,
            actions,
            Ghost(before),
            Ghost(none.orders),
        );
        let ghost c1 = covert_pass(
            *world,
            *advice,
            MissionKind::Sabotage,
            sabotage@,
            ops@,
            cap as nat,
            none,
            sabotage@.len(),
        );
        let ghost mut c3 = c1;
        if let Some(base) = AISystem::find_hostile_system(
            world,
            faction,
            config.ai.covert_target_popularity_threshold,
        ) {
            let leaders: Vec<(SystemKey, Option<CharacterKey>)> = list_leaders(
                world,
                faction,
                base,
            );
            p.run(
                world,
                advice,
                MissionKind::Assassination,
                &leaders,
                &ops,
                cap,
                actions,
                Ghost(before),
                Ghost(c1.orders),
            );
            let ghost c2 = covert_pass(
                *world,
                *advice,
                MissionKind::Assassination,
                leaders@,
                ops@,
                cap as nat,
                c1,
                leaders@.len(),
            );
            let people: Vec<(SystemKey, Option<CharacterKey>)> = list_abductions(
                world,
                faction,
                base,
            );
            p.run(
                world,
                advice,
                MissionKind::Abduction,
                &people,
                &ops,
                cap,
                actions,
                Ghost(before),
                Ghost(c2.orders),
            );
            proof {
                c3 = covert_pass(
                    *world,
                    *advice,
                    MissionKind::Abduction,
                    people@,
                    ops@,
                    cap as nat,
                    c2,
                    people@.len(),
                );
            }
        }
        let unknown: Vec<(SystemKey, Option<CharacterKey>)> = list_uncharted(world);
        p.run(
            world,
            advice,
            MissionKind::Espionage,
            &unknown,
            &ops,
            cap,
            actions,
            Ghost(before),
            Ghost(c3.orders),
        );
    }
}

// ---- Rescue ----------------------------------------------------------------

/// Character `i` and where it is held, if it is ours and captive.
pub open spec fn captive(world: GameWorld, faction: AiFaction) -> spec_fn(int) -> Option<
    (CharacterKey, SystemKey),
> {
    |i: int|
        if occupied(world.characters@, i) && (world.characters@[i]->0).is_captive && faction.owns(
            world.characters@[i]->0,
        ) && (world.characters@[i]->0).current_system is Some {
            Some(
                (
                    CharacterKey { slot: i as usize },
                    (world.characters@[i]->0).current_system->0,
                ),
            )
        } else {
            None
        }
}

/// Character `i`, if it is available and can fight; the best fighter first.
pub open spec fn rescuer(state: AIState, world: GameWorld, faction: AiFaction) -> spec_fn(
    int,
) -> Option<(CharacterKey, i128)> {
    |i: int|
        if occupied(world.characters@, i) && dispatchable(
            state,
            faction,
            CharacterKey { slot: i as usize },
            world.characters@[i]->0,
        ) && (world.characters@[i]->0).combat.score_spec() >= 30 {
            Some(
                (
                    CharacterKey { slot: i as usize },
                    (0 - (world.characters@[i]->0).combat.score_spec()) as i128,
                ),
            )
        } else {
            None
        }
}

/// One rescuer for each captive, the best first, as long as there are rescuers.
pub open spec fn rescue_orders(state: AIState, world: GameWorld, faction: AiFaction) -> Seq<Order> {
    let held = collect(world.characters@.len(), captive(world, faction));
    let free = stable_sort(collect(world.characters@.len(), rescuer(state, world, faction)));
    Seq::new(
        if held.len() < free.len() {
            held.len()
        } else {
            free.len()
        },
        |i: int| mission_order(MissionKind::Rescue, free[i].0, held[i].1, Some(held[i].0)),
    )
}

impl AISystem {
    /// Sends the best fighters to free captives.
    pub fn evaluate_rescue(
        state: &AIState,
        world: &GameWorld,
        faction: AiFaction,
        actions: &mut Vec<AIAction>,
    )
        requires
            world.wf(),
        ensures
            orders(final(actions)@) == orders(old(actions)@) + rescue_orders(
                *state,
                *world,
                faction,
            ),
    {
        let ghost fc = captive(*world, faction);
        let ghost fr = rescuer(*state, *world, faction);
        let ghost before = orders(actions@);
        let ghost plan = rescue_orders(*state, *world, faction);
        let mut held: Vec<(CharacterKey, SystemKey)> = Vec::new();
        let mut free: Vec<(CharacterKey, i128)> = Vec::new();
        let count: usize = world.characters.slot_count();
        for i in 0..count
            invariant
                count == world.characters@.len(),
                world.wf(),
                fc == captive(*world, faction),
                fr == rescuer(*state, *world, faction),
                held@ == collect(i as nat, fc),
                free@ == collect(i as nat, fr),
        {
            if let Some(c) = world.characters.slot(i) {
                assert(occupied_character(world, i as int));
                let key: CharacterKey = CharacterKey { slot: i };
                if c.is_captive && faction.owns_character(c) {
                    if let Some(sys) = c.current_system {
                        held.push((key, sys));
                    }
                }
                if AISystem::can_dispatch(state, faction, key, c) {
                    let skill: u32 = c.combat.score();
                    if skill >= 30 {
                        free.push((key, 0 - skill as i128));
                    }
                }
            }
        }
        let free: Vec<(CharacterKey, i128)> = sort_by_rank(&free);
        let pairs: usize = if held.len() < free.len() {
            held.len()
        } else {
            free.len()
        };
        assert(before + plan.take(0) =~= before);
        for i in 0..pairs
            invariant
                pairs == plan.len(),
                pairs <= held@.len(),
                pairs <= free@.len(),
                plan == Seq::new(
                    pairs as nat,
                    |i: int|
                        mission_order(
                            MissionKind::Rescue,
                            free@[i].0,
                            held@[i].1,
                            Some(held@[i].0),
                        ),
                ),
                orders(actions@) == before + plan.take(i as int),
        {
            issue(
                actions,
                mission(MissionKind::Rescue, free[i].0, held[i].1, Some(held[i].0)),
            );
            assert((before + plan.take(i as int)).push(plan[i as int]) =~= before + plan.take(
                i + 1,
            ));
        }
        assert(plan.take(plan.len() as int) =~= plan);
    }
}

// ---- Reconnaissance --------------------------------------------------------

/// System `i`, if it is an explored enemy system; the strongest first.
pub open spec fn scouted(world: GameWorld, side: bool) -> spec_fn(int) -> Option<(SystemKey, i128)> {
    |i: int|
        if occupied(world.systems@, i) && (world.systems@[i]->0).control.held_by(
            faction_of(!side),
        ) && !(world.systems@[i]->0).is_destroyed && (world.systems@[i]->0).exploration_status
            == ExplorationStatus::Explored {
            Some(
                (
                    SystemKey { slot: i as usize },
                    (0 - strength_of(world, world.systems@[i]->0, !side)) as i128,
                ),
            )
        } else {
            None
        }
}

/// The scouting plan: the best operatives to the strongest enemy systems.
pub open spec fn recon_plan(
    state: AIState,
    world: GameWorld,
    faction: AiFaction,
    config: GameConfig,
    advice: Advice,
) -> Covert {
    let targets = system_targets(
        stable_sort(collect(world.systems@.len(), scouted(world, faction.rebel()))),
    );
    covert_pass(
        world,
        advice,
        MissionKind::Espionage,
        targets,
        operatives(state, world, faction, config.ai.espionage_skill_threshold),
        config.ai.max_recon_per_eval as nat,
        Covert { orders: Seq::empty(), next: 0, queued: 0 },
        targets.len(),
    )
}

impl AISystem {
    /// Sends scouts to explored enemy systems.
    pub fn evaluate_reconnaissance(
        state: &AIState,
        world: &GameWorld,
        faction: AiFaction,
        config: &GameConfig,
        advice: &Advice,
        actions: &mut Vec<AIAction>,
    )
        requires
            world.wf(),
        ensures
            orders(final(actions)@) == orders(old(actions)@) + recon_plan(
                *state,
                *world,
                faction,
                *config,
                *advice,
            ).orders,
    {
        let side: bool = faction.is_alliance();
        let ghost before = orders(actions@);
        let ghost f = scouted(*world, side);
        let mut found: Vec<(SystemKey, i128)> = Vec::new();
        let count: usize = world.systems.slot_count();
        for i in 0..count
            invariant
                count == world.systems@.len(),
                f == scouted(*world, side),
                found@ == collect(i as nat, f),
        {
            if let Some(sys) = world.systems.slot(i) {
                if sys.control.is_controlled_by(side_faction(!side)) && !sys.is_destroyed
                    && sys.exploration_status == ExplorationStatus::Explored {
                    let value: u32 = AISystem::system_strength(world, sys, !side);
                    found.push((SystemKey { slot: i }, 0 - value as i128));
                }
            }
        }
        let targets: Vec<(SystemKey, Option<CharacterKey>)> = as_targets(&sort_by_rank(&found));
        let ops: Vec<(CharacterKey, i128)> = list_operatives(
            state,
            world,
            faction,
            config.ai.espionage_skill_threshold,
        );
        let mut p: Planning = Planning { next: 0, queued: 0 };
        assert(before + Seq::<Order>::empty() =~= before);
        p.run(
            world,
            advice,
            MissionKind::Espionage,
            &targets,
            &ops,
            config.ai.max_recon_per_eval,
            actions,
            Ghost(before),
            Ghost(Seq::empty()),
        );
    }
}

// ---- Research --------------------------------------------------------------

/// The skill that a technology tree calls for.
pub open spec fn research_skill(c: Character, tech: TechType) -> int {
    match tech {
        TechType::Ship => c.ship_design.score_spec(),
        TechType::Troop => c.troop_training.score_spec(),
        TechType::Facility => c.facility_design.score_spec(),
    }
}

/// Character `i` with its skill, if it is available and of any use.
pub open spec fn researcher(state: AIState, world: GameWorld, faction: AiFaction, tech: TechType) -> spec_fn(
    int,
) -> Option<(CharacterKey, i128)> {
    |i: int|
        if occupied(world.characters@, i) && dispatchable(
            state,
            faction,
            CharacterKey { slot: i as usize },
            world.characters@[i]->0,
        ) && research_skill(world.characters@[i]->0, tech) >= 30 {
            Some(
                (
                    CharacterKey { slot: i as usize },
                    research_skill(world.characters@[i]->0, tech) as i128,
                ),
            )
        } else {
            None
        }
}

/// The research order for one tree: the best researcher, unless the tree is
/// already being worked on.
pub open spec fn research_order(
    state: AIState,
    world: GameWorld,
    research: ResearchState,
    faction: AiFaction,
    tech: TechType,
    ticks: u32,
) -> Seq<Order> {
    if research.active(faction.rebel(), tech) {
        Seq::empty()
    } else {
        match last_max(
            collect(world.characters@.len(), researcher(state, world, faction, tech)),
        ) {
            Some(character) => seq![Order::Research { character, tech_type: tech, ticks }],
            None => Seq::empty(),
        }
    }
}

/// The research orders for the three trees.
pub open spec fn research_orders(
    state: AIState,
    world: GameWorld,
    research: ResearchState,
    faction: AiFaction,
    advice: Advice,
) -> Seq<Order> {
    research_order(
        state,
        world,
        research,
        faction,
        TechType::Ship,
        advice.ship_research_ticks,
    ) + research_order(
        state,
        world,
        research,
        faction,
        TechType::Troop,
        advice.troop_research_ticks,
    ) + research_order(
        state,
        world,
        research,
        faction,
        TechType::Facility,
        advice.facility_research_ticks,
    )
}

impl AISystem {
    /// Puts the best researcher to work on one tree.
    fn research_tree(
        state: &AIState,
        world: &GameWorld,
        research: &ResearchState,
        faction: AiFaction,
        tech: TechType,
        ticks: u32,
        actions: &mut Vec<AIAction>,
    )
        requires
            world.wf(),
        ensures
            orders(final(actions)@) == orders(old(actions)@) + research_order(
                *state,
                *world,
                *research,
                faction,
                tech,
                ticks,
            ),
    {
        let ghost before = orders(actions@);
        assert(before + Seq::<Order>::empty() =~= before);
        if research.has_active(faction.is_alliance(), tech) {
            return;
        }
        let ghost f = researcher(*state, *world, faction, tech);
        let mut found: Vec<(CharacterKey, i128)> = Vec::new();
        let count: usize = world.characters.slot_count();
        for i in 0..count
            invariant
                count == world.characters@.len(),
                world.wf(),
                f == researcher(*state, *world, faction, tech),
                found@ == collect(i as nat, f),
        {
            if let Some(c) = world.characters.slot(i) {
                assert(occupied_character(world, i as int));
                let key: CharacterKey = CharacterKey { slot: i };
                if AISystem::can_dispatch(state, faction, key, c) {
                    let skill: u32 = match tech {
                        TechType::Ship => c.ship_design.score(),
                        TechType::Troop => c.troop_training.score(),
                        TechType::Facility => c.facility_design.score(),
                    };
                    if skill >= 30 {
                        found.push((key, skill as i128));
                    }
                }
            }
        }
        if let Some(character) = pick_last_max(&found) {
            issue(actions, AIAction::DispatchResearch { character, tech_type: tech, ticks });
            assert(before.push(Order::Research { character, tech_type: tech, ticks }) =~= before
                + seq![Order::Research { character, tech_type: tech, ticks }]);
        }
    }

    /// Puts researchers to work on the trees that nobody works on.
    pub fn evaluate_research(
        state: &AIState,
        world: &GameWorld,
        research_state: &ResearchState,
        faction: AiFaction,
        advice: &Advice,
        actions: &mut Vec<AIAction>,
    )
        requires
            world.wf(),
        ensures
            orders(final(actions)@) == orders(old(actions)@) + research_orders(
                *state,
                *world,
                *research_state,
                faction,
                *advice,
            ),
    {
        let ghost before = orders(actions@);
        AISystem::research_tree(
            state,
            world,
            research_state,
            faction,
            TechType::Ship,
            advice.ship_research_ticks,
            actions,
        );
        AISystem::research_tree(
            state,
            world,
            research_state,
            faction,
            TechType::Troop,
            advice.troop_research_ticks,
            actions,
        );
        AISystem::research_tree(
            state,
            world,
            research_state,
            faction,
            TechType::Facility,
            advice.facility_research_ticks,
            actions,
        );
        assert(orders(actions@) =~= before + research_orders(
            *state,
            *world,
            *research_state,
            faction,
            *advice,
        ));
    }
}

// ---- Unrest ----------------------------------------------------------------

/// System `i` with our support there, if it is ours and close to revolt.
pub open spec fn restless(world: GameWorld, faction: AiFaction) -> spec_fn(int) -> Option<
    (SystemKey, i128),
> {
    |i: int|
        if occupied(world.systems@, i) && (world.systems@[i]->0).control.held_by(
            faction_of(faction.rebel()),
        ) && faction.support(world.systems@[i]->0) < TWO_FIFTHS {
            Some((SystemKey { slot: i as usize }, faction.support(world.systems@[i]->0) as i128))
        } else {
            None
        }
}

/// Character `i`, if it is an available diplomat.
pub open spec fn diplomat(state: AIState, world: GameWorld, faction: AiFaction, threshold: u32) -> spec_fn(
    int,
) -> Option<CharacterKey> {
    |i: int|
        if occupied(world.characters@, i) && dispatchable(
            state,
            faction,
            CharacterKey { slot: i as usize },
            world.characters@[i]->0,
        ) && (world.characters@[i]->0).diplomacy.score_spec() >= threshold {
            Some(CharacterKey { slot: i as usize })
        } else {
            None
        }
}

/// The smaller of three counts.
pub open spec fn least(a: nat, b: nat, c: nat) -> nat {
    if a <= b && a <= c {
        a
    } else if b <= c {
        b
    } else {
        c
    }
}

/// At most two diplomats go to the systems with the least support.
pub open spec fn calming_orders(
    state: AIState,
    world: GameWorld,
    faction: AiFaction,
    config: GameConfig,
) -> Seq<Order> {
    let at_risk = stable_sort(collect(world.systems@.len(), restless(world, faction)));
    let envoys = collect(
        world.characters@.len(),
        diplomat(state, world, faction, config.ai.diplomacy_skill_threshold),
    );
    Seq::new(
        least(at_risk.len(), envoys.len(), 2),
        |i: int| mission_order(MissionKind::Diplomacy, envoys[i], at_risk[i].0, None),
    )
}

impl AISystem {
    /// Sends diplomats to our systems with the least support.
    pub fn evaluate_uprising_prevention(
        state: &AIState,
        world: &GameWorld,
        faction: AiFaction,
        config: &GameConfig,
        actions: &mut Vec<AIAction>,
    )
        requires
            world.wf(),
        ensures
            orders(final(actions)@) == orders(old(actions)@) + calming_orders(
                *state,
                *world,
                faction,
                *config,
            ),
    {
        let ghost before = orders(actions@);
        let ghost plan = calming_orders(*state, *world, faction, *config);
        let ghost f = restless(*world, faction);
        let mut found: Vec<(SystemKey, i128)> = Vec::new();
        let count: usize = world.systems.slot_count();
        for i in 0..count
            invariant
                count == world.systems@.len(),
                f == restless(*world, faction),
                found@ == collect(i as nat, f),
        {
            if let Some(sys) = world.systems.slot(i) {
                let support: u32 = faction.system_popularity(sys);
                if sys.control.is_controlled_by(side_faction(faction.is_alliance())) && support
                    < TWO_FIFTHS {
                    found.push((SystemKey { slot: i }, support as i128));
                }
            }
        }
        let at_risk: Vec<(SystemKey, i128)> = sort_by_rank(&found);
        let ghost d = diplomat(*state, *world, faction, config.ai.diplomacy_skill_threshold);
        let mut envoys: Vec<CharacterKey> = Vec::new();
        let people: usize = world.characters.slot_count();
        for i in 0..people
            invariant
                people == world.characters@.len(),
                world.wf(),
                d == diplomat(*state, *world, faction, config.ai.diplomacy_skill_threshold),
                envoys@ == collect(i as nat, d),
        {
            if let Some(c) = world.characters.slot(i) {
                assert(occupied_character(world, i as int));
                let key: CharacterKey = CharacterKey { slot: i };
                if AISystem::can_dispatch(state, faction, key, c) {
                    if c.diplomacy.score() >= config.ai.diplomacy_skill_threshold {
                        envoys.push(key);
                    }
                }
            }
        }
        let mut sent: usize = 0;
        assert(before + plan.take(0) =~= before);
        while sent < 2 && sent < at_risk.len() && sent < envoys.len()
            invariant
                sent <= plan.len(),
                plan == Seq::new(
                    least(at_risk@.len(), envoys@.len(), 2),
                    |i: int|
                        mission_order(MissionKind::Diplomacy, envoys@[i], at_risk@[i].0, None),
                ),
                orders(actions@) == before + plan.take(sent as int),
            decreases 2 - sent,
        {
            issue(
                actions,
                mission(MissionKind::Diplomacy, envoys[sent], at_risk[sent].0, None),
            );
            assert((before + plan.take(sent as int)).push(plan[sent as int]) =~= before + plan.take(
                sent + 1,
            ));
            sent = sent + 1;
        }
        assert(plan.take(plan.len() as int) =~= plan);
    }
}

} // verus!
