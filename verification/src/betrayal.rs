//! Characters who change sides.
//!
//! Every so often a character of low loyalty is put to the test. The chance of
//! betrayal comes from the loyalty table; the killed, the immune and the loyal
//! are never tested.

use crate::arena::occupied;
use crate::ids::CharacterKey;
use crate::select::tally;
use crate::tick::TickEvent;
use crate::world::{Character, GameWorld, MstbTable};
use std::collections::HashMap;
use vstd::prelude::*;

verus! {

/// Days between two tests of the same character.
pub const BETRAYAL_CHECK_INTERVAL: u64 = 50;

/// A character changed sides.
#[derive(Debug, Clone, Copy, PartialEq, Eq, Structural)]
pub enum BetrayalEvent {
    CharacterBetrayed {
        character: CharacterKey,
        /// Whether the character went over to the Alliance rather than the Empire.
        defected_to_alliance: bool,
    },
}

/// When each character was last tested.
#[derive(Debug)]
pub struct BetrayalState {
    /// The day of the last test, by the character's slot.
    pub last_check: HashMap<usize, u64>,
}

impl View for BetrayalState {
    type V = Map<usize, u64>;

    open spec fn view(&self) -> Map<usize, u64> {
        self.last_check@
    }
}

impl BetrayalState {
    /// Nobody has been tested.
    pub fn new() -> (state: Self)
        ensures
            state@ == Map::<usize, u64>::empty(),
    {
        BetrayalState { last_check: HashMap::new() }
    }
}

/// Tests of loyalty.
pub struct BetrayalSystem;

/// How loyal a character is; below zero it can betray.
pub open spec fn loyalty_score(c: Character) -> int {
    (c.loyalty.base as i32) - 50
}

/// Whether enough days have passed since a character's last test.
pub open spec fn rested(checks: Map<usize, u64>, slot: usize, tick: u64) -> bool {
    checks.contains_key(slot) ==> tick >= checks[slot] + BETRAYAL_CHECK_INTERVAL
}

/// Whether a character is put to the test.
pub open spec fn tested(c: Character, checks: Map<usize, u64>, slot: usize, tick: u64) -> bool {
    &&& !c.is_killed
    &&& !c.is_unable_to_betray
    &&& rested(checks, slot, tick)
    &&& loyalty_score(c) < 0
}

/// The `used`th roll: the lowest whole percentage under which it means
/// betrayal. Without a roll nobody betrays.
pub open spec fn roll_at(rolls: Seq<i32>, used: nat) -> i32 {
    if used < rolls.len() {
        rolls[used as int]
    } else {
        101
    }
}

/// How far the tests have come.
pub struct Trials {
    pub events: Seq<BetrayalEvent>,
    pub checks: Map<usize, u64>,
    /// Rolls used up.
    pub used: nat,
}

/// The tests of the characters in the first `n` slots.
pub open spec fn trials(
    world: GameWorld,
    table: MstbTable,
    rolls: Seq<i32>,
    tick: u64,
    checks: Map<usize, u64>,
    n: nat,
) -> Trials
    decreases n,
{
    if n == 0 {
        Trials { events: Seq::empty(), checks, used: 0 }
    } else {
        let t = trials(world, table, rolls, tick, checks, (n - 1) as nat);
        let slot = (n - 1) as usize;
        let c = world.characters@[n - 1]->0;
        if occupied(world.characters@, n - 1) && tested(c, t.checks, slot, tick) {
            Trials {
                events: if table.lookup_spec(loyalty_score(c)) >= roll_at(rolls, t.used) {
                    t.events.push(
                        BetrayalEvent::CharacterBetrayed {
                            character: CharacterKey { slot },
                            defected_to_alliance: !c.is_alliance,
                        },
                    )
                } else {
                    t.events
                },
                checks: t.checks.insert(slot, tick),
                used: t.used + 1,
            }
        } else {
            t
        }
    }
}

impl BetrayalSystem {
    /// Puts characters to the test. `rolls` holds, for each test in order, the
    /// lowest whole percentage chance under which the roll means betrayal.
    pub fn advance(
        state: &mut BetrayalState,
        world: &GameWorld,
        tick_events: &[TickEvent],
        rolls: &Vec<i32>,
        loyalty_table: &MstbTable,
    ) -> (events: Vec<BetrayalEvent>)
        ensures
            tick_events@.len() == 0 ==> events@.len() == 0 && final(state)@ == old(state)@,
            tick_events@.len() > 0 ==> {
                let t = trials(
                    *world,
                    *loyalty_table,
                    rolls@,
                    tick_events@.last().tick,
                    old(state)@,
                    world.characters@.len(),
                );
                events@ == t.events && final(state)@ == t.checks
            },
    {
        broadcast use vstd::std_specs::hash::group_hash_axioms;

        let mut events: Vec<BetrayalEvent> = Vec::new();
        if tick_events.len() == 0 {
            return events;
        }
        let tick: u64 = tick_events[tick_events.len() - 1].tick;
        let ghost checks = state@;
        let mut used: usize = 0;
        let count: usize = world.characters.slot_count();
        for i in 0..count
            invariant
                count == world.characters@.len(),
                used <= i,
                ({
                    let t = trials(*world, *loyalty_table, rolls@, tick, checks, i as nat);
                    events@ == t.events && state@ == t.checks && used == t.used
                }),
        {
            if let Some(c) = world.characters.slot(i) {
                let waiting: bool = match state.last_check.get(&i) {
                    Some(last) => tick.saturating_sub(*last) < BETRAYAL_CHECK_INTERVAL,
                    None => false,
                };
                let score: i64 = (c.loyalty.base as i32) as i64 - 50;
                assert(waiting == !rested(state@, i, tick));
                if !c.is_killed && !c.is_unable_to_betray && !waiting && score < 0 {
                    let chance: i32 = loyalty_table.lookup(score);
                    let roll: i32 = if used < rolls.len() {
                        rolls[used]
                    } else {
                        101
                    };
                    used = used + 1;
                    state.last_check.insert(i, tick);
                    if chance >= roll {
                        events.push(
                            BetrayalEvent::CharacterBetrayed {
                                character: CharacterKey { slot: i },
                                defected_to_alliance: !c.is_alliance,
                            },
                        );
                    }
                }
            }
        }
        events
    }
}

// ---- Laws ------------------------------------------------------------------

/// Only a living, disloyal character that is neither dead nor immune betrays,
/// everyone goes over to the other side, and the events come in the order of
/// the slots, so nobody betrays twice in one pass.
pub proof fn law_who_betrays(
    world: GameWorld,
    table: MstbTable,
    rolls: Seq<i32>,
    tick: u64,
    checks: Map<usize, u64>,
    n: nat,
)
    requires
        n <= world.characters@.len() <= usize::MAX,
    ensures
        ({
            let events = trials(world, table, rolls, tick, checks, n).events;
            &&& forall|k: int|
                0 <= k < events.len() ==> {
                    let who = (#[trigger] events[k])->character;
                    &&& who.slot < n
                    &&& world.characters.has(who)
                    &&& !world.characters.at(who).is_killed
                    &&& !world.characters.at(who).is_unable_to_betray
                    &&& loyalty_score(world.characters.at(who)) < 0
                    &&& events[k]->defected_to_alliance == !world.characters.at(who).is_alliance
                }
            &&& forall|j: int, k: int|
                0 <= j < k < events.len() ==> (#[trigger] events[j])->character.slot < (
                #[trigger] events[k])->character.slot
        }),
    decreases n,
{
    if n > 0 {
        let m = (n - 1) as nat;
        law_who_betrays(world, table, rolls, tick, checks, m);
        let before = trials(world, table, rolls, tick, checks, m).events;
        let events = trials(world, table, rolls, tick, checks, n).events;
        assert forall|k: int| 0 <= k < events.len() implies ({
            let who = (#[trigger] events[k])->character;
            &&& who.slot < n
            &&& world.characters.has(who)
            &&& !world.characters.at(who).is_killed
            &&& !world.characters.at(who).is_unable_to_betray
            &&& loyalty_score(world.characters.at(who)) < 0
            &&& events[k]->defected_to_alliance == !world.characters.at(who).is_alliance
        }) by {
            if k < before.len() {
                assert(before[k] == events[k]);
            }
        }
        assert forall|j: int, k: int| 0 <= j < k < events.len() implies (
        #[trigger] events[j])->character.slot < (#[trigger] events[k])->character.slot by {
            assert(before[j] == events[j]);
            if k < before.len() {
                assert(before[k] == events[k]);
            }
        }
    }
}

/// Everyone is tested alike, whatever the side: a character that lives, is not
/// immune, has a loyalty below fifty and was not tested within the last fifty
/// days takes the next roll in the order of the slots, and its test is noted.
/// It betrays, to the other side, exactly if its chance reaches that roll.
/// Nobody else is tested or betrays.
pub proof fn law_everyone_due_is_tested(
    world: GameWorld,
    table: MstbTable,
    rolls: Seq<i32>,
    tick: u64,
    checks: Map<usize, u64>,
    n: nat,
    i: int,
)
    requires
        0 <= i < n <= world.characters@.len() <= usize::MAX,
    ensures
        ({
            let t = trials(world, table, rolls, tick, checks, n);
            let people = world.characters@;
            let due = |i: int|
                people[i] is Some && !(people[i]->0).is_killed && !(
                people[i]->0).is_unable_to_betray && ((people[i]->0).loyalty.base as i32) < 50 && (
                checks.contains_key(i as usize) ==> tick - checks[i as usize] >= 50);
            let turn = tally(i as nat, due);
            let roll: int = if turn < rolls.len() {
                rolls[turn as int] as int
            } else {
                101
            };
            let c = people[i]->0;
            let chance = table.lookup_spec((c.loyalty.base as i32) - 50);
            &&& t.events.contains(
                BetrayalEvent::CharacterBetrayed {
                    character: CharacterKey { slot: i as usize },
                    defected_to_alliance: !c.is_alliance,
                },
            ) <==> due(i) && chance >= roll
            &&& !t.events.contains(
                BetrayalEvent::CharacterBetrayed {
                    character: CharacterKey { slot: i as usize },
                    defected_to_alliance: c.is_alliance,
                },
            )
            &&& due(i) ==> t.checks.contains_key(i as usize) && t.checks[i as usize] == tick
            &&& !due(i) ==> t.checks.contains_key(i as usize) == checks.contains_key(i as usize)
                && t.checks[i as usize] == checks[i as usize]
        }),
    decreases n,
{
    let t = trials(world, table, rolls, tick, checks, n);
    let people = world.characters@;
    let due = |i: int|
        people[i] is Some && !(people[i]->0).is_killed && !(people[i]->0).is_unable_to_betray && ((
        people[i]->0).loyalty.base as i32) < 50 && (checks.contains_key(i as usize) ==> tick
            - checks[i as usize] >= 50);
    let m = (n - 1) as nat;
    let before = trials(world, table, rolls, tick, checks, m);
    let c = people[i]->0;
    let event = BetrayalEvent::CharacterBetrayed {
        character: CharacterKey { slot: i as usize },
        defected_to_alliance: !c.is_alliance,
    };
    let wrong = BetrayalEvent::CharacterBetrayed {
        character: CharacterKey { slot: i as usize },
        defected_to_alliance: c.is_alliance,
    };
    lemma_untouched(world, table, rolls, tick, checks, m, m as usize);
    lemma_used(world, table, rolls, tick, checks, due, m);
    law_who_betrays(world, table, rolls, tick, checks, m);
    assert(t.events == before.events || t.events == before.events.push(t.events.last()));
    if t.events != before.events {
        assert(t.events.last()->character.slot == m);
        assert(t.events[before.events.len() as int] == t.events.last());
    }
    if before.events.contains(event) {
        let k = choose|k: int| 0 <= k < before.events.len() && before.events[k] == event;
        assert(t.events[k] == event);
        assert(before.events[k]->character.slot < m);
    }
    if before.events.contains(wrong) {
        let k = choose|k: int| 0 <= k < before.events.len() && before.events[k] == wrong;
        assert(before.events[k]->character.slot < m);
    }
    if t.events.contains(event) {
        let k = choose|k: int| 0 <= k < t.events.len() && t.events[k] == event;
        assert(k < before.events.len() ==> before.events[k] == event);
    }
    if t.events.contains(wrong) {
        let k = choose|k: int| 0 <= k < t.events.len() && t.events[k] == wrong;
        assert(k < before.events.len() ==> before.events[k] == wrong);
    }
    if i < m {
        law_everyone_due_is_tested(world, table, rolls, tick, checks, m, i);
    } else {
        assert(before.used == tally(m, due));
    }
}

/// As many rolls are used up as characters are due.
proof fn lemma_used(
    world: GameWorld,
    table: MstbTable,
    rolls: Seq<i32>,
    tick: u64,
    checks: Map<usize, u64>,
    due: spec_fn(int) -> bool,
    n: nat,
)
    requires
        n <= world.characters@.len() <= usize::MAX,
        forall|i: int|
            0 <= i < n ==> #[trigger] due(i) == (occupied(world.characters@, i) && tested(
                world.characters@[i]->0,
                checks,
                i as usize,
                tick,
            )),
    ensures
        trials(world, table, rolls, tick, checks, n).used == tally(n, due),
    decreases n,
{
    if n > 0 {
        let m = (n - 1) as nat;
        lemma_used(world, table, rolls, tick, checks, due, m);
        lemma_untouched(world, table, rolls, tick, checks, m, m as usize);
        assert(due(m as int) == due(n - 1));
    }
}

/// Tests of the first slots leave the note on a later one alone.
proof fn lemma_untouched(
    world: GameWorld,
    table: MstbTable,
    rolls: Seq<i32>,
    tick: u64,
    checks: Map<usize, u64>,
    n: nat,
    slot: usize,
)
    requires
        n <= slot,
    ensures
        ({
            let after = trials(world, table, rolls, tick, checks, n).checks;
            &&& after.contains_key(slot) == checks.contains_key(slot)
            &&& after[slot] == checks[slot]
        }),
    decreases n,
{
    if n > 0 {
        lemma_untouched(world, table, rolls, tick, checks, (n - 1) as nat, slot);
    }
}

/// A character that was tested is left alone until the interval has passed.
pub proof fn law_no_second_test_too_soon(
    c: Character,
    checks: Map<usize, u64>,
    slot: usize,
    tick: u64,
    later: u64,
)
    requires
        tested(c, checks, slot, tick),
        later < tick + BETRAYAL_CHECK_INTERVAL,
    ensures
        !tested(c, checks.insert(slot, tick), slot, later),
{
}

/// Without rolls nobody betrays, as long as no chance in the table exceeds a
/// hundred percent.
pub proof fn law_no_rolls_no_betrayal(
    world: GameWorld,
    table: MstbTable,
    tick: u64,
    checks: Map<usize, u64>,
    n: nat,
)
    requires
        forall|score: int| #[trigger] table.lookup_spec(score) <= 100,
    ensures
        trials(world, table, Seq::empty(), tick, checks, n).events.len() == 0,
    decreases n,
{
    if n > 0 {
        law_no_rolls_no_betrayal(world, table, tick, checks, (n - 1) as nat);
    }
}

} // verus!
