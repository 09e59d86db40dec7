//! Whom the computer player sends where, in terms of the world it looks at.

use crate::ai::{mission_order, AIState, AiFaction, Order};
use crate::ai_missions::{
    diplomacy_target, friendly_system, hostile, hostile_system, officer_orders, openings,
    recruitable, supporting, wavering, Openings,
};
use crate::arena::lemma_slots_bounded;
use crate::ids::{CharacterKey, SystemKey};
use crate::missions::MissionKind;
use crate::select::{
    collect, lemma_collect_covers, lemma_highest, lemma_lowest, lemma_tally_same, tally,
};
use crate::tuning::GameConfig;
use crate::world::{ForceTier, GameWorld};
use vstd::prelude::*;

verus! {

// ---- Whom there is to send -------------------------------------------------

/// Whether a faction has a character at hand: one of its own people that
/// lives, is free, has nothing to do and can lead.
pub open spec fn at_hand(state: AIState, world: GameWorld, faction: AiFaction, i: int) -> bool {
    let c = world.characters@[i]->0;
    &&& 0 <= i < world.characters@.len()
    &&& world.characters@[i] is Some
    &&& match faction {
        AiFaction::Alliance => c.is_alliance,
        AiFaction::Empire => c.is_empire,
    }
    &&& c.can_be_commander
    &&& !(c.is_killed || c.is_captive || c.on_mission || c.on_hidden_mission
        || c.on_mandatory_mission || state.busy_characters@.contains(i as usize))
}

/// The middle of a skill's range.
pub open spec fn middle(skill: crate::world::SkillPair) -> int {
    skill.base + skill.variance / 2
}

// ---- Where support decides -------------------------------------------------

/// A faction's support in a system.
pub open spec fn popularity(world: GameWorld, alliance: bool, i: int) -> u32 {
    if alliance {
        (world.systems@[i]->0).popularity_alliance
    } else {
        (world.systems@[i]->0).popularity_empire
    }
}

/// Diplomacy is aimed at a system where the faction's own support lies below
/// the cap, and no system has less; the first of equals. It is aimed somewhere
/// as long as there is such a system.
pub proof fn law_diplomacy_seeks_the_least_support(
    world: GameWorld,
    faction: AiFaction,
    cap: u32,
    other: int,
)
    ensures
        ({
            let own = faction == AiFaction::Alliance;
            let target = diplomacy_target(world, faction, cap);
            &&& target matches Some(key) ==> world.systems.has(key) && popularity(
                world,
                own,
                key.slot as int,
            ) < cap
            &&& 0 <= other < world.systems@.len() && world.systems@[other] is Some && popularity(
                world,
                own,
                other,
            ) < cap ==> {
                &&& target is Some
                &&& popularity(world, own, target->0.slot as int) <= popularity(world, own, other)
                &&& other < target->0.slot ==> popularity(world, own, target->0.slot as int)
                    < popularity(world, own, other)
            }
        }),
{
    lemma_slots_bounded(&world.systems);
    lemma_lowest(
        world.systems@.len(),
        wavering(world, faction, cap),
        |k: SystemKey| k.slot as int,
        other,
    );
}

/// Recruits are brought to the system with the faction's highest support; the
/// last of equals. There is one as long as there is any system.
pub proof fn law_friends_are_where_support_is_highest(
    world: GameWorld,
    faction: AiFaction,
    other: int,
)
    ensures
        ({
            let own = faction == AiFaction::Alliance;
            let target = friendly_system(world, faction);
            &&& target matches Some(key) ==> world.systems.has(key)
            &&& 0 <= other < world.systems@.len() && world.systems@[other] is Some ==> {
                &&& target is Some
                &&& popularity(world, own, target->0.slot as int) >= popularity(world, own, other)
                &&& other > target->0.slot ==> popularity(world, own, target->0.slot as int)
                    > popularity(world, own, other)
            }
        }),
{
    lemma_slots_bounded(&world.systems);
    lemma_highest(
        world.systems@.len(),
        supporting(world, faction),
        |k: SystemKey| k.slot as int,
        other,
    );
}

/// The enemy is struck where it has its highest support, which lies above the
/// floor; the last of equals. There is a target as long as there is such a
/// system.
pub proof fn law_foes_are_where_their_support_is_highest(
    world: GameWorld,
    faction: AiFaction,
    floor: u32,
    other: int,
)
    ensures
        ({
            let foe = faction != AiFaction::Alliance;
            let target = hostile_system(world, faction, floor);
            &&& target matches Some(key) ==> world.systems.has(key) && popularity(
                world,
                foe,
                key.slot as int,
            ) > floor
            &&& 0 <= other < world.systems@.len() && world.systems@[other] is Some && popularity(
                world,
                foe,
                other,
            ) > floor ==> {
                &&& target is Some
                &&& popularity(world, foe, target->0.slot as int) >= popularity(world, foe, other)
                &&& other > target->0.slot ==> popularity(world, foe, target->0.slot as int)
                    > popularity(world, foe, other)
            }
        }),
{
    lemma_slots_bounded(&world.systems);
    lemma_highest(
        world.systems@.len(),
        hostile(world, faction, floor),
        |k: SystemKey| k.slot as int,
        other,
    );
}

// ---- Officers --------------------------------------------------------------

/// What officers find to do: uprisings where the enemy has more than half the
/// people behind it, diplomacy below the configured support, and the first
/// leader who is not the faction's own to win over.
pub proof fn law_what_officers_find(
    world: GameWorld,
    faction: AiFaction,
    config: GameConfig,
    other: int,
)
    ensures
        ({
            let o = openings(world, faction, config);
            let foreign = |i: int|
                world.characters@[i] is Some && (world.characters@[i]->0).can_be_commander
                    && !match faction {
                    AiFaction::Alliance => (world.characters@[i]->0).is_alliance,
                    AiFaction::Empire => (world.characters@[i]->0).is_empire,
                };
            &&& o.incite == hostile_system(world, faction, 0x3f00_0000)
            &&& o.diplomacy == diplomacy_target(
                world,
                faction,
                config.ai.diplomacy_target_popularity_cap,
            )
            &&& o.base == friendly_system(world, faction)
            &&& o.recruit matches Some(who) ==> world.characters.has(who) && foreign(
                who.slot as int,
            )
            &&& 0 <= other < world.characters@.len() && foreign(other) ==> o.recruit is Some
                && o.recruit->0.slot <= other
        }),
{
    let f = recruitable(world, faction);
    let n = world.characters@.len();
    lemma_slots_bounded(&world.characters);
    crate::ai_build_laws::lemma_collect_rises(n, f, |k: CharacterKey| k.slot as int);
    lemma_collect_covers(n, f);
    let list = collect(n, f);
    if list.len() > 0 {
        assert(crate::select::gives(n, f, list[0]));
        let i = choose|i: int| 0 <= i < n && #[trigger] f(i) == Some(list[0]);
    }
    if 0 <= other < n && f(other) is Some {
        let k = choose|k: int| 0 <= k < list.len() && list[k] == f(other)->0;
        assert(k == 0 || list[0].slot < list[k].slot);
    }
}

/// Whether an officer is kept back for the Force.
pub open spec fn kept_for_training(world: GameWorld, i: int) -> bool {
    let c = world.characters@[i]->0;
    c.jedi_probability > 50 && c.force_tier == ForceTier::Untrained
}

/// Every officer at hand is put to use as its gifts and the openings allow.
/// Major characters recruit while there is somebody to win over and a place to
/// bring them to. Of the others, the first diplomat stirs up an uprising where
/// there is an opening for one; the other diplomats and the remaining major
/// characters do diplomacy. Whoever is not at hand, or is kept back for the
/// Force, gets no order.
pub proof fn law_officers_are_put_to_use(
    state: AIState,
    world: GameWorld,
    faction: AiFaction,
    config: GameConfig,
    o: Openings,
    n: nat,
    i: int,
)
    requires
        0 <= i < n <= world.characters@.len() <= usize::MAX,
    ensures
        ({
            let list = officer_orders(state, world, faction, config, o, n).0;
            let key = CharacterKey { slot: i as usize };
            let gifted = |j: int|
                middle((world.characters@[j]->0).diplomacy) > config.ai.diplomacy_skill_threshold;
            let recruits = |j: int|
                (world.characters@[j]->0).is_major && o.recruit is Some && o.base is Some;
            let free = |j: int|
                at_hand(state, world, faction, j) && !kept_for_training(world, j);
            let ahead = tally(i as nat, |j: int| free(j) && gifted(j) && !recruits(j));
            let told = |kind: MissionKind, system: SystemKey, who: Option<CharacterKey>|
                list.contains(mission_order(kind, key, system, who));
            &&& free(i) && recruits(i) ==> told(MissionKind::Recruitment, o.base->0, o.recruit)
            &&& free(i) && !recruits(i) && gifted(i) && o.incite is Some && ahead == 0 ==> told(
                MissionKind::InciteUprising,
                o.incite->0,
                None,
            )
            &&& free(i) && !recruits(i) && gifted(i) && (o.incite is None || ahead > 0)
                && o.diplomacy is Some ==> told(MissionKind::Diplomacy, o.diplomacy->0, None)
            &&& free(i) && !recruits(i) && !gifted(i) && (world.characters@[i]->0).is_major
                && o.diplomacy is Some ==> told(MissionKind::Diplomacy, o.diplomacy->0, None)
            &&& !free(i) || (!recruits(i) && !gifted(i) && !(
            world.characters@[i]->0).is_major) ==> forall|k: int|
                0 <= k < list.len() ==> (#[trigger] list[k])->Mission_character != key
        }),
    decreases n,
{
    let m = (n - 1) as nat;
    let before = officer_orders(state, world, faction, config, o, m);
    let after = officer_orders(state, world, faction, config, o, n);
    lemma_officer_slots(state, world, faction, config, o, m);
    let key = CharacterKey { slot: i as usize };
    let gifted = |j: int|
        middle((world.characters@[j]->0).diplomacy) > config.ai.diplomacy_skill_threshold;
    let recruits = |j: int|
        (world.characters@[j]->0).is_major && o.recruit is Some && o.base is Some;
    let free = |j: int| at_hand(state, world, faction, j) && !kept_for_training(world, j);
    let stirring = |j: int| free(j) && gifted(j) && !recruits(j);
    lemma_incited(state, world, faction, config, o, m);
    assert(after.0 == before.0 || after.0 == before.0.push(after.0.last()));
    assert forall|k: int| 0 <= k < before.0.len() implies after.0.contains(
        #[trigger] before.0[k],
    ) by {
        assert(after.0[k] == before.0[k]);
    }
    if i < m {
        law_officers_are_put_to_use(state, world, faction, config, o, m, i);
        assert forall|order: Order| #[trigger] before.0.contains(order) implies after.0.contains(
            order,
        ) by {
            let k = choose|k: int| 0 <= k < before.0.len() && before.0[k] == order;
            assert(after.0.contains(before.0[k]));
        }
        assert forall|k: int| 0 <= k < after.0.len() && (#[trigger] after.0[k])->Mission_character
            == key implies k < before.0.len() && before.0[k] == after.0[k] by {
            if k < before.0.len() {
                assert(after.0[k] == before.0[k]);
            } else {
                assert(after.0[k] == after.0.last());
            }
        }
    } else {
        let ahead = tally(i as nat, stirring);
        lemma_tally_same(
            i as nat,
            stirring,
            |j: int| free(j) && gifted(j) && !recruits(j),
        );
        if after.0 != before.0 {
            assert(after.0[before.0.len() as int] == after.0.last());
        }
        assert forall|k: int| 0 <= k < after.0.len() && k < before.0.len() implies (
        #[trigger] after.0[k])->Mission_character != key by {
            assert(after.0[k] == before.0[k]);
        }
    }
}

/// Orders for the first officers name none but those.
proof fn lemma_officer_slots(
    state: AIState,
    world: GameWorld,
    faction: AiFaction,
    config: GameConfig,
    o: Openings,
    n: nat,
)
    requires
        n <= usize::MAX,
    ensures
        forall|k: int|
            0 <= k < officer_orders(state, world, faction, config, o, n).0.len() ==> (
            #[trigger] officer_orders(
                state,
                world,
                faction,
                config,
                o,
                n,
            ).0[k])->Mission_character.slot < n,
    decreases n,
{
    if n > 0 {
        let m = (n - 1) as nat;
        lemma_officer_slots(state, world, faction, config, o, m);
        let before = officer_orders(state, world, faction, config, o, m).0;
        let after = officer_orders(state, world, faction, config, o, n).0;
        assert forall|k: int| 0 <= k < after.len() implies (
        #[trigger] after[k])->Mission_character.slot < n by {
            if k < before.len() {
                assert(after[k] == before[k]);
            }
        }
    }
}

/// An uprising has been ordered exactly if some diplomat was free to stir it up.
proof fn lemma_incited(
    state: AIState,
    world: GameWorld,
    faction: AiFaction,
    config: GameConfig,
    o: Openings,
    n: nat,
)
    requires
        n <= world.characters@.len() <= usize::MAX,
    ensures
        ({
            let gifted = |j: int|
                middle((world.characters@[j]->0).diplomacy) > config.ai.diplomacy_skill_threshold;
            let recruits = |j: int|
                (world.characters@[j]->0).is_major && o.recruit is Some && o.base is Some;
            let free = |j: int|
                at_hand(state, world, faction, j) && !kept_for_training(world, j);
            o.incite is Some ==> officer_orders(state, world, faction, config, o, n).1 == (tally(
                n,
                |j: int| free(j) && gifted(j) && !recruits(j),
            ) > 0)
        }),
    decreases n,
{
    if n > 0 {
        lemma_incited(state, world, faction, config, o, (n - 1) as nat);
    }
}

} // verus!
