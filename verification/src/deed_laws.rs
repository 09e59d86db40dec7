//! What missions and the events of a day do to the world, entity by entity.

use crate::arena::without;
use crate::dat::{ExplorationStatus, Faction};
use crate::day_events::{
    economy_systems, first_luke_knows, hull_set, other_troop, overthrown, player_gains,
    roster_reduced, tier_experience, turned, EconomyEvent,
};
use crate::ids::{
    CharacterKey, DefenseFacilityKey, FleetKey, ManufacturingFacilityKey, SystemKey, TroopKey,
};
use crate::mission_effects::{effect_done, other_character, struck_off};
use crate::missions::{MissionEffect, MissionFaction};
use crate::station_laws::lemma_kept;
use crate::text::mentions;
use crate::world::{Character, ControlKind, Fleet, ForceTier, GameWorld, System};
use vstd::prelude::*;

verus! {

// ---- Missions --------------------------------------------------------------

/// Missions at a system change what they are about there and nothing else:
/// support shifts for one faction or for both, and a system that was spied
/// upon is explored. Other systems, and all people and fleets, are untouched.
pub proof fn law_missions_change_one_system(
    before: GameWorld,
    after: GameWorld,
    effect: MissionEffect,
    tick: u64,
    system: SystemKey,
    other: SystemKey,
)
    requires
        effect_done(before, after, effect, tick),
        before.systems.has(system),
        other != system,
        match effect {
            MissionEffect::PopularityShifted { system: at, .. } => at == system,
            MissionEffect::UprisingStarted { system: at, .. } => at == system,
            MissionEffect::UprisingSubdued { system: at, .. } => at == system,
            MissionEffect::SystemIntelligenceGathered { system: at } => at == system,
            _ => false,
        },
    ensures
        ({
            let old_sys = before.systems.at(system);
            let sys = after.systems.at(system);
            &&& after.systems.has(system)
            &&& after.systems.has(other) == before.systems.has(other)
            &&& after.systems.has(other) ==> after.systems.at(other) == before.systems.at(other)
            &&& after.characters == before.characters && after.fleets == before.fleets
                && after.troops == before.troops
            &&& sys.control == old_sys.control && sys.fleets == old_sys.fleets && sys.ground_units
                == old_sys.ground_units && sys.is_destroyed == old_sys.is_destroyed
            &&& match effect {
                MissionEffect::PopularityShifted { faction, support, .. } => {
                    &&& faction == MissionFaction::Alliance ==> sys.popularity_alliance == support
                        && sys.popularity_empire == old_sys.popularity_empire
                    &&& faction == MissionFaction::Empire ==> sys.popularity_empire == support
                        && sys.popularity_alliance == old_sys.popularity_alliance
                    &&& sys.exploration_status == old_sys.exploration_status
                },
                MissionEffect::UprisingStarted { alliance_support, empire_support, .. } => {
                    &&& sys.popularity_alliance == alliance_support
                    &&& sys.popularity_empire == empire_support
                },
                MissionEffect::UprisingSubdued { alliance_support, empire_support, .. } => {
                    &&& sys.popularity_alliance == alliance_support
                    &&& sys.popularity_empire == empire_support
                },
                _ => {
                    &&& sys.exploration_status == ExplorationStatus::Explored
                    &&& sys.popularity_alliance == old_sys.popularity_alliance
                    &&& sys.popularity_empire == old_sys.popularity_empire
                },
            }
        }),
{
    assert(other.slot != system.slot);
}

/// A saboteur destroys one facility of a system: the yard of the index, or
/// past the yards the defense facility; an index beyond both destroys none.
/// Everything else there and anywhere is untouched.
pub proof fn law_sabotage_destroys_one_facility(
    before: GameWorld,
    after: GameWorld,
    system: SystemKey,
    index: usize,
    lost: u32,
    tick: u64,
    yard: ManufacturingFacilityKey,
    fort: DefenseFacilityKey,
)
    requires
        effect_done(
            before,
            after,
            MissionEffect::FacilitySabotaged { system, facility_index: index, ticks_lost: lost },
            tick,
        ),
        before.systems.has(system),
    ensures
        ({
            let yards = before.systems.at(system).manufacturing_facilities@;
            let forts = before.systems.at(system).defense_facilities@;
            let sys = after.systems.at(system);
            let struck_yard = index < yards.len();
            let struck_fort = yards.len() <= index < yards.len() + forts.len();
            &&& struck_yard ==> sys.manufacturing_facilities@ == yards.remove(index as int)
            &&& !struck_yard ==> sys.manufacturing_facilities@ == yards
            &&& struck_fort ==> sys.defense_facilities@ == forts.remove(index - yards.len())
            &&& !struck_fort ==> sys.defense_facilities@ == forts
            &&& after.manufacturing_facilities.has(yard) == (before.manufacturing_facilities.has(
                yard,
            ) && !(struck_yard && yards[index as int] == yard))
            &&& after.defense_facilities.has(fort) == (before.defense_facilities.has(fort) && !(
            struck_fort && forts[index - yards.len()] == fort))
            &&& sys.fleets == before.systems.at(system).fleets && sys.control == before.systems.at(
                system,
            ).control
            &&& after.characters == before.characters && after.fleets == before.fleets
                && after.troops == before.troops
        }),
{
    let yards = before.systems.at(system).manufacturing_facilities@;
    let forts = before.systems.at(system).defense_facilities@;
    if index < yards.len() {
        assert(yards[index as int] == yard <==> yards[index as int].slot == yard.slot);
    }
    if yards.len() <= index < yards.len() + forts.len() {
        assert(forts[index - yards.len()] == fort <==> forts[index - yards.len()].slot
            == fort.slot);
    }
}

/// Whether only one character differs between two worlds.
pub open spec fn only_one_differs(before: GameWorld, after: GameWorld, who: CharacterKey) -> bool {
    forall|other: CharacterKey|
        other != who && #[trigger] before.characters.has(other) ==> after.characters.has(other)
            && after.characters.at(other) == before.characters.at(other)
}

/// The killed are gone, and nobody else is changed.
pub proof fn law_the_killed_are_gone(
    before: GameWorld,
    after: GameWorld,
    who: CharacterKey,
    tick: u64,
)
    requires
        effect_done(before, after, MissionEffect::CharacterKilled { character: who }, tick),
    ensures
        !after.characters.has(who),
        only_one_differs(before, after, who),
        after.systems == before.systems,
{
}

/// The captured are captives of their captors from that day on, and nothing
/// else about them or anybody else is changed.
pub proof fn law_the_captured_are_captives(
    before: GameWorld,
    after: GameWorld,
    who: CharacterKey,
    by: MissionFaction,
    tick: u64,
)
    requires
        before.characters.has(who),
        effect_done(
            before,
            after,
            MissionEffect::CharacterCaptured { character: who, captured_by: by },
            tick,
        ),
    ensures
        after.characters.has(who),
        after.characters.at(who) == (Character {
            is_captive: true,
            captured_by: Some(
                if by == MissionFaction::Alliance {
                    Faction::Alliance
                } else {
                    Faction::Empire
                },
            ),
            capture_tick: Some(tick),
            ..before.characters.at(who)
        }),
        only_one_differs(before, after, who),
{
}

/// The rescued and the escaped are free, on the side that they return to.
pub proof fn law_the_freed_return(
    before: GameWorld,
    after: GameWorld,
    who: CharacterKey,
    to: MissionFaction,
    tick: u64,
)
    requires
        before.characters.has(who),
        effect_done(
            before,
            after,
            MissionEffect::CharacterRescued { character: who, returned_to: to },
            tick,
        ) || effect_done(
            before,
            after,
            MissionEffect::CharacterEscaped {
                character: who,
                escaped_to_alliance: to == MissionFaction::Alliance,
            },
            tick,
        ),
    ensures
        after.characters.has(who),
        after.characters.at(who) == (Character {
            is_captive: false,
            captured_by: None,
            capture_tick: None,
            is_alliance: to == MissionFaction::Alliance,
            is_empire: to == MissionFaction::Empire,
            ..before.characters.at(who)
        }),
        only_one_differs(before, after, who),
{
}

/// The busy are on a mission.
pub proof fn law_missions_begin(
    before: GameWorld,
    after: GameWorld,
    who: CharacterKey,
    tick: u64,
)
    requires
        before.characters.has(who),
        effect_done(before, after, MissionEffect::CharacterBusy { character: who }, tick),
    ensures
        after.characters.has(who),
        after.characters.at(who) == (Character {
            on_mission: true,
            ..before.characters.at(who)
        }),
        only_one_differs(before, after, who),
{
}

/// The available are on no mission, open or hidden.
pub proof fn law_missions_end(
    before: GameWorld,
    after: GameWorld,
    who: CharacterKey,
    tick: u64,
)
    requires
        before.characters.has(who),
        effect_done(before, after, MissionEffect::CharacterAvailable { character: who }, tick),
    ensures
        ({
            let c = before.characters.at(who);
            let now = after.characters.at(who);
            &&& after.characters.has(who)
            &&& !now.on_mission && !now.on_hidden_mission
            &&& now.on_mandatory_mission == c.on_mandatory_mission
            &&& now.is_alliance == c.is_alliance && now.is_empire == c.is_empire
            &&& now.is_captive == c.is_captive && now.is_killed == c.is_killed
        }),
{
}

/// Whoever is killed, is captured, escapes or betrays is struck off the roster
/// of every fleet, and nobody else is.
pub proof fn law_the_lost_leave_their_fleets(
    before: Seq<Option<Fleet>>,
    after: Seq<Option<Fleet>>,
    gone: CharacterKey,
    other: CharacterKey,
    slot: int,
)
    requires
        struck_off(before, after, gone),
        0 <= slot < before.len(),
        before[slot] is Some,
    ensures
        after[slot] is Some,
        (after[slot]->0).characters@.contains(other) <==> (before[slot]->0).characters@.contains(
            other,
        ) && other != gone,
        (after[slot]->0).capital_ships == (before[slot]->0).capital_ships,
        (after[slot]->0).location == (before[slot]->0).location,
{
    assert(after[slot] is Some);
    let list = (before[slot]->0).characters@;
    lemma_kept(list, other_character(list, gone), |c: CharacterKey| c != gone, other);
}

/// A kill or a capture strikes the person off the rosters.
pub proof fn law_kills_and_captures_empty_posts(
    before: GameWorld,
    after: GameWorld,
    who: CharacterKey,
    by: MissionFaction,
    tick: u64,
)
    ensures
        effect_done(before, after, MissionEffect::CharacterKilled { character: who }, tick)
            ==> struck_off(before.fleets@, after.fleets@, who),
        effect_done(
            before,
            after,
            MissionEffect::CharacterCaptured { character: who, captured_by: by },
            tick,
        ) ==> struck_off(before.fleets@, after.fleets@, who),
{
}

/// Somebody who changes sides or escapes leaves the fleet, and nobody else is
/// changed.
pub proof fn law_turning_changes_one(
    before: GameWorld,
    after: GameWorld,
    who: CharacterKey,
    new: Character,
    other: CharacterKey,
)
    requires
        turned(before, after, who, new),
    ensures
        before.characters.has(who) ==> after.characters.has(who) && after.characters.at(who) == new,
        other != who && before.characters.has(other) ==> after.characters.has(other)
            && after.characters.at(other) == before.characters.at(other),
        struck_off(before.fleets@, after.fleets@, who),
        after.systems == before.systems,
{
    assert(other == who <==> other.slot == who.slot);
}

// ---- The day ---------------------------------------------------------------

/// Only drifts of support and changes of hands touch a system, and only the
/// one they are about.
pub proof fn law_the_economy_changes_one_system(
    slots: Seq<Option<System>>,
    event: EconomyEvent,
    slot: int,
)
    requires
        0 <= slot < slots.len(),
        slots[slot] is Some,
    ensures
        ({
            let old_sys = slots[slot]->0;
            let after = economy_systems(slots, event);
            let sys = after[slot]->0;
            &&& after.len() == slots.len() && after[slot] is Some
            &&& match event {
                EconomyEvent::SupportDrifted { system, alliance_support, empire_support } => {
                    &&& system.slot == slot ==> sys == (System {
                        popularity_alliance: alliance_support,
                        popularity_empire: empire_support,
                        ..old_sys
                    })
                    &&& system.slot != slot ==> sys == old_sys
                },
                EconomyEvent::ControlResolved { system, new_control } => {
                    &&& system.slot == slot ==> sys == (System { control: new_control, ..old_sys })
                    &&& system.slot != slot ==> sys == old_sys
                },
                _ => sys == old_sys,
            }
        }),
{
}

/// An uprising hands a system from the one side to the other, and leaves one
/// that nobody holds as it is. It helps the player whose side gets the system.
pub proof fn law_uprisings_change_hands(player: MissionFaction)
    ensures
        overthrown(ControlKind::Controlled(Faction::Alliance)) == ControlKind::Controlled(
            Faction::Empire,
        ),
        overthrown(ControlKind::Controlled(Faction::Empire)) == ControlKind::Controlled(
            Faction::Alliance,
        ),
        overthrown(ControlKind::Contested) == ControlKind::Contested,
        overthrown(ControlKind::Uncontrolled) == ControlKind::Uncontrolled,
        player_gains(ControlKind::Controlled(Faction::Alliance), player) == (player
            == MissionFaction::Empire),
        player_gains(ControlKind::Controlled(Faction::Empire), player) == (player
            == MissionFaction::Alliance),
        !player_gains(ControlKind::Contested, player),
        !player_gains(ControlKind::Uncontrolled, player),
{
}

/// A regiment that a blockade destroys leaves the roster of its system, and no
/// other does.
pub proof fn law_blockades_destroy_one_regiment(
    before: Seq<Option<System>>,
    after: Seq<Option<System>>,
    system: SystemKey,
    troop: TroopKey,
    other: TroopKey,
    slot: int,
)
    requires
        roster_reduced(before, after, system, troop),
        0 <= slot < before.len(),
        before[slot] is Some,
    ensures
        after[slot] is Some,
        slot == system.slot ==> ((after[slot]->0).ground_units@.contains(other) <==> (
        before[slot]->0).ground_units@.contains(other) && other != troop),
        slot != system.slot ==> after[slot] == before[slot],
{
    let list = (before[slot]->0).ground_units@;
    lemma_kept(list, other_troop(list, troop), |t: TroopKey| t != troop, other);
}

/// A repair sets the hull of one ship and touches no other.
pub proof fn law_repairs_mend_one_ship(
    before: Seq<Option<Fleet>>,
    after: Seq<Option<Fleet>>,
    fleet: FleetKey,
    index: int,
    hull: i32,
    slot: int,
    k: int,
)
    requires
        hull_set(before, after, fleet, index, hull),
        0 <= slot < before.len(),
        before[slot] is Some,
        0 <= k < (before[slot]->0).capital_ships@.len(),
        index >= 0,
    ensures
        ({
            let ship = (before[slot]->0).capital_ships@[k];
            let now = (after[slot]->0).capital_ships@[k];
            &&& after[slot] is Some
            &&& slot == fleet.slot && k == index ==> now.hull_current == hull && now.alive
                == ship.alive && now.class == ship.class
            &&& slot != fleet.slot || k != index ==> now == ship
        }),
{
}

/// A tier begins with nothing, with one point, or with what was configured.
pub proof fn law_tiers_begin_where_configured(to_training: u32, to_experienced: u32)
    ensures
        tier_experience(ForceTier::Untrained, to_training, to_experienced) == 0,
        tier_experience(ForceTier::Aware, to_training, to_experienced) == 1,
        tier_experience(ForceTier::Training, to_training, to_experienced) == to_training,
        tier_experience(ForceTier::Experienced, to_training, to_experienced) == to_experienced,
{
}

/// The first character whose name mentions Luke decides whether he knows;
/// without one nothing is known.
pub proof fn law_the_first_luke_decides(slots: Seq<Option<Character>>, k: int)
    requires
        0 <= k <= slots.len(),
        forall|j: int|
            0 <= j < k ==> (#[trigger] slots[j]) is None || !mentions(
                (slots[j]->0).name@,
                "Luke"@,
            ),
    ensures
        k == slots.len() ==> !first_luke_knows(slots, 0),
        k < slots.len() && slots[k] is Some && mentions((slots[k]->0).name@, "Luke"@)
            ==> first_luke_knows(slots, 0) == (slots[k]->0).heritage_known,
{
    lemma_no_luke(slots, k as nat, k as nat);
}

proof fn lemma_no_luke(slots: Seq<Option<Character>>, k: nat, left: nat)
    requires
        left <= k <= slots.len(),
        forall|j: int|
            0 <= j < k ==> (#[trigger] slots[j]) is None || !mentions(
                (slots[j]->0).name@,
                "Luke"@,
            ),
    ensures
        first_luke_knows(slots, (k - left) as nat) == first_luke_knows(slots, k),
    decreases left,
{
    if left > 0 {
        assert(slots[k - left] is None || !mentions((slots[k - left]->0).name@, "Luke"@));
        lemma_no_luke(slots, k, (left - 1) as nat);
    }
}

} // verus!
