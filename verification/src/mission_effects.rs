//! Applying the results of missions to the world.

use crate::arena::{occupied, without};
use crate::dat::{ExplorationStatus, Faction};
use crate::ids::{CharacterKey, DefenseFacilityKey, FleetKey, ManufacturingFacilityKey, SystemKey};
use crate::messages::{
    character_name, kind_title, name_character, name_system, note, note_at, side_title, system_name,
    title_kind, title_side, MessageCategory, MessageLog, Note, SfxKind, VoiceLine,
};
use crate::missions::{MissionEffect, MissionFaction, MissionKind, MissionOutcome, MissionResult};
use crate::select::{collect, gives, lemma_collect_covers};
use crate::text::{join2, join3, join4, join5, number, decimal};
use crate::world::{Character, ControlKind, Fleet, GameWorld, System};
use vstd::prelude::*;
use vstd::string::*;

verus! {

/// How an outcome is told.
pub open spec fn outcome_words(outcome: MissionOutcome) -> Seq<char> {
    match outcome {
        MissionOutcome::Success => "succeeded"@,
        MissionOutcome::Failure => "failed"@,
        MissionOutcome::Foiled => "was foiled"@,
    }
}

/// The category that a kind of mission is filed under.
pub open spec fn kind_category(kind: MissionKind) -> MessageCategory {
    match kind {
        MissionKind::Diplomacy
        | MissionKind::InciteUprising
        | MissionKind::SubdueUprising => MessageCategory::Diplomacy,
        _ => MessageCategory::Mission,
    }
}

/// The report of a mission.
pub open spec fn mission_note(
    world: GameWorld,
    kind: MissionKind,
    faction: MissionFaction,
    outcome: MissionOutcome,
    target: SystemKey,
    tick: u64,
) -> Note {
    note_at(
        tick,
        side_title(faction) + " "@ + kind_title(kind) + " mission at "@ + system_name(
            world,
            target,
            "unknown"@,
        ) + " "@ + outcome_words(outcome),
        kind_category(kind),
        target,
    )
}

/// The sound and the spoken line for a mission.
pub fn mission_cue(outcome: MissionOutcome, faction: MissionFaction) -> (cue: (SfxKind, VoiceLine))
    ensures
        cue == match (outcome == MissionOutcome::Success, faction) {
            (true, MissionFaction::Alliance) => (
                SfxKind::MissionSuccess,
                VoiceLine::AllianceMissionSuccess,
            ),
            (true, MissionFaction::Empire) => (
                SfxKind::MissionSuccess,
                VoiceLine::EmpireMissionSuccess,
            ),
            (false, MissionFaction::Alliance) => (
                SfxKind::MissionFail,
                VoiceLine::AllianceMissionFail,
            ),
            (false, MissionFaction::Empire) => (SfxKind::MissionFail, VoiceLine::EmpireMissionFail),
        },
{
    match (outcome == MissionOutcome::Success, faction) {
        (true, MissionFaction::Alliance) => (
            SfxKind::MissionSuccess,
            VoiceLine::AllianceMissionSuccess,
        ),
        (true, MissionFaction::Empire) => (SfxKind::MissionSuccess, VoiceLine::EmpireMissionSuccess),
        (false, MissionFaction::Alliance) => (SfxKind::MissionFail, VoiceLine::AllianceMissionFail),
        (false, MissionFaction::Empire) => (SfxKind::MissionFail, VoiceLine::EmpireMissionFail),
    }
}

/// Whether calming a system helps the Alliance there rather than the Empire.
pub fn calm_helps_alliance(control: ControlKind) -> (helps: bool)
    ensures
        helps == (control == ControlKind::Controlled(Faction::Alliance)),
{
    match control {
        ControlKind::Controlled(Faction::Alliance) => true,
        _ => false,
    }
}

// ---- What effects do -------------------------------------------------------

/// The `i`th character of a list, if it is another one.
pub open spec fn other_character(list: Seq<CharacterKey>, who: CharacterKey) -> spec_fn(
    int,
) -> Option<CharacterKey> {
    |i: int|
        if list[i] != who {
            Some(list[i])
        } else {
            None
        }
}

/// A list of characters without one of them.
pub open spec fn without_character(list: Seq<CharacterKey>, who: CharacterKey) -> Seq<CharacterKey> {
    collect(list.len(), other_character(list, who))
}

/// Whether `after` is `before` with a character struck from every fleet.
pub open spec fn struck_off(
    before: Seq<Option<Fleet>>,
    after: Seq<Option<Fleet>>,
    who: CharacterKey,
) -> bool {
    &&& after.len() == before.len()
    &&& forall|s: int|
        0 <= s < before.len() ==> {
            &&& (#[trigger] after[s]) is Some <==> before[s] is Some
            &&& after[s] is Some ==> {
                &&& (after[s]->0).characters@ == without_character((before[s]->0).characters@, who)
                &&& after[s]->0 == (Fleet { characters: (after[s]->0).characters, ..before[s]->0 })
            }
        }
}

/// The faction of a mission faction.
pub open spec fn as_faction(faction: MissionFaction) -> Faction {
    match faction {
        MissionFaction::Alliance => Faction::Alliance,
        MissionFaction::Empire => Faction::Empire,
    }
}

/// A system with its support changed for one faction.
pub open spec fn with_support(sys: System, faction: MissionFaction, support: u32) -> System {
    match faction {
        MissionFaction::Alliance => System { popularity_alliance: support, ..sys },
        MissionFaction::Empire => System { popularity_empire: support, ..sys },
    }
}

/// The systems after one of them, if it lives, was changed.
pub open spec fn system_set(slots: Seq<Option<System>>, key: SystemKey, new: System) -> Seq<
    Option<System>,
> {
    if occupied(slots, key.slot as int) {
        slots.update(key.slot as int, Some(new))
    } else {
        slots
    }
}

/// The characters after one of them, if it lives, was changed.
pub open spec fn character_set(
    slots: Seq<Option<Character>>,
    key: CharacterKey,
    new: Character,
) -> Seq<Option<Character>> {
    if occupied(slots, key.slot as int) {
        slots.update(key.slot as int, Some(new))
    } else {
        slots
    }
}

/// A captured character.
pub open spec fn captured(c: Character, by: MissionFaction, tick: u64) -> Character {
    Character {
        is_captive: true,
        captured_by: Some(as_faction(by)),
        capture_tick: Some(tick),
        ..c
    }
}

/// A character set free on one side.
pub open spec fn freed(c: Character, alliance: bool) -> Character {
    Character {
        is_alliance: alliance,
        is_empire: !alliance,
        is_captive: false,
        captured_by: None,
        capture_tick: None,
        ..c
    }
}

/// Whether `after` is the system `before` without the facility of an index.
pub open spec fn facility_gone(before: System, after: System, index: int) -> bool {
    let yards = before.manufacturing_facilities@;
    let walls = before.defense_facilities@;
    &&& after == (System {
        manufacturing_facilities: after.manufacturing_facilities,
        defense_facilities: after.defense_facilities,
        ..before
    })
    &&& after.manufacturing_facilities@ == if index < yards.len() {
        yards.remove(index)
    } else {
        yards
    }
    &&& after.defense_facilities@ == if yards.len() <= index < yards.len() + walls.len() {
        walls.remove(index - yards.len())
    } else {
        walls
    }
}

/// Whether `after` is the world `before` once a facility was sabotaged.
pub open spec fn sabotaged(before: GameWorld, after: GameWorld, system: SystemKey, index: int) -> bool {
    if !before.systems.has(system) {
        &&& after == (GameWorld { systems: after.systems, ..before })
        &&& after.systems@ == before.systems@
    } else {
        let sys = before.systems.at(system);
        let yards = sys.manufacturing_facilities@;
        let walls = sys.defense_facilities@;
        &&& after == (GameWorld {
            systems: after.systems,
            manufacturing_facilities: after.manufacturing_facilities,
            defense_facilities: after.defense_facilities,
            ..before
        })
        &&& after.systems.has(system)
        &&& after.systems@ == before.systems@.update(
            system.slot as int,
            Some(after.systems.at(system)),
        )
        &&& facility_gone(sys, after.systems.at(system), index)
        &&& after.manufacturing_facilities@ == if index < yards.len() {
            without(before.manufacturing_facilities@, yards[index].slot as nat)
        } else {
            before.manufacturing_facilities@
        }
        &&& after.defense_facilities@ == if yards.len() <= index < yards.len() + walls.len() {
            without(before.defense_facilities@, walls[index - yards.len()].slot as nat)
        } else {
            before.defense_facilities@
        }
    }
}

/// Whether `after` is the world `before` once an effect was applied.
pub open spec fn effect_done(
    before: GameWorld,
    after: GameWorld,
    effect: MissionEffect,
    tick: u64,
) -> bool {
    match effect {
        MissionEffect::PopularityShifted { system, faction, support } => {
            &&& after == (GameWorld { systems: after.systems, ..before })
            &&& after.systems@ == system_set(
                before.systems@,
                system,
                with_support(before.systems.at(system), faction, support),
            )
        },
        MissionEffect::UprisingStarted { system, alliance_support, empire_support } => {
            &&& after == (GameWorld { systems: after.systems, ..before })
            &&& after.systems@ == system_set(
                before.systems@,
                system,
                System {
                    popularity_alliance: alliance_support,
                    popularity_empire: empire_support,
                    ..before.systems.at(system)
                },
            )
        },
        MissionEffect::UprisingSubdued { system, alliance_support, empire_support } => {
            &&& after == (GameWorld { systems: after.systems, ..before })
            &&& after.systems@ == system_set(
                before.systems@,
                system,
                System {
                    popularity_alliance: alliance_support,
                    popularity_empire: empire_support,
                    ..before.systems.at(system)
                },
            )
        },
        MissionEffect::SystemIntelligenceGathered { system } => {
            &&& after == (GameWorld { systems: after.systems, ..before })
            &&& after.systems@ == system_set(
                before.systems@,
                system,
                System {
                    exploration_status: ExplorationStatus::Explored,
                    ..before.systems.at(system)
                },
            )
        },
        MissionEffect::FacilitySabotaged { system, facility_index, ticks_lost } => {
            sabotaged(before, after, system, facility_index as int)
        },
        MissionEffect::CharacterKilled { character } => {
            &&& after == (GameWorld {
                fleets: after.fleets,
                characters: after.characters,
                ..before
            })
            &&& struck_off(before.fleets@, after.fleets@, character)
            &&& after.characters@ == without(before.characters@, character.slot as nat)
        },
        MissionEffect::CharacterCaptured { character, captured_by } => {
            &&& after == (GameWorld {
                fleets: after.fleets,
                characters: after.characters,
                ..before
            })
            &&& struck_off(before.fleets@, after.fleets@, character)
            &&& after.characters@ == character_set(
                before.characters@,
                character,
                captured(before.characters.at(character), captured_by, tick),
            )
        },
        MissionEffect::CharacterRescued { character, returned_to } => {
            &&& after == (GameWorld { characters: after.characters, ..before })
            &&& after.characters@ == character_set(
                before.characters@,
                character,
                freed(
                    before.characters.at(character),
                    returned_to == MissionFaction::Alliance,
                ),
            )
        },
        MissionEffect::CharacterEscaped { character, escaped_to_alliance } => {
            &&& after == (GameWorld { characters: after.characters, ..before })
            &&& after.characters@ == character_set(
                before.characters@,
                character,
                freed(before.characters.at(character), escaped_to_alliance),
            )
        },
        MissionEffect::CharacterBusy { character } => {
            &&& after == (GameWorld { characters: after.characters, ..before })
            &&& after.characters@ == character_set(
                before.characters@,
                character,
                Character { on_mission: true, ..before.characters.at(character) },
            )
        },
        MissionEffect::CharacterAvailable { character } => {
            &&& after == (GameWorld { characters: after.characters, ..before })
            &&& after.characters@ == character_set(
                before.characters@,
                character,
                Character {
                    on_mission: false,
                    on_hidden_mission: false,
                    ..before.characters.at(character)
                },
            )
        },
        MissionEffect::CharacterRecruited { .. }
        | MissionEffect::DecoyTriggered { .. }
        | MissionEffect::DeathStarSabotaged { .. } => after == before,
    }
}

/// What an effect adds to the log.
pub open spec fn effect_notes(before: GameWorld, effect: MissionEffect, tick: u64) -> Seq<Note> {
    match effect {
        MissionEffect::DecoyTriggered { system, decoy_character } => seq![
            note_at(
                tick,
                "Mission intercepted by decoy "@ + character_name(
                    before,
                    decoy_character,
                    "Unknown"@,
                ) + " at "@ + system_name(before, system, "unknown"@),
                MessageCategory::Mission,
                system,
            ),
        ],
        MissionEffect::CharacterEscaped { character, escaped_to_alliance } => seq![
            note(
                tick,
                character_name(before, character, "Unknown"@) + " has escaped captivity!"@,
                MessageCategory::Event,
            ),
        ],
        MissionEffect::DeathStarSabotaged { ticks_delayed } => seq![
            note(
                tick,
                "Death Star construction sabotaged! "@ + decimal(ticks_delayed as nat)
                    + " ticks delayed."@,
                MessageCategory::Mission,
            ),
        ],
        _ => Seq::empty(),
    }
}

/// Whether a run of effects leads from one world to another, and what it adds
/// to the log.
pub open spec fn effects_done(
    worlds: Seq<GameWorld>,
    effects: Seq<MissionEffect>,
    tick: u64,
) -> bool {
    &&& worlds.len() == effects.len() + 1
    &&& forall|i: int|
        0 <= i < effects.len() ==> effect_done(
            #[trigger] worlds[i],
            worlds[i + 1],
            effects[i],
            tick,
        )
}

/// The notes of the first `n` effects.
pub open spec fn notes_of(
    worlds: Seq<GameWorld>,
    effects: Seq<MissionEffect>,
    tick: u64,
    n: nat,
) -> Seq<Note>
    decreases n,
{
    if n == 0 {
        Seq::empty()
    } else {
        notes_of(worlds, effects, tick, (n - 1) as nat) + effect_notes(
            worlds[n - 1],
            effects[n - 1],
            tick,
        )
    }
}

// ---- Executable side -------------------------------------------------------

/// Strikes a character from a list.
pub(crate) fn drop_character(list: &Vec<CharacterKey>, who: CharacterKey) -> (rest: Vec<CharacterKey>)
    ensures
        rest@ == without_character(list@, who),
{
    let ghost f = other_character(list@, who);
    let mut rest: Vec<CharacterKey> = Vec::new();
    for i in 0..list.len()
        invariant
            f == other_character(list@, who),
            rest@ == collect(i as nat, f),
    {
        if list[i] != who {
            rest.push(list[i]);
        }
    }
    rest
}

/// Strikes a character from every fleet.
pub(crate) fn strike_off(world: &mut GameWorld, who: CharacterKey)
    ensures
        struck_off(old(world).fleets@, final(world).fleets@, who),
        *final(world) == (GameWorld { fleets: final(world).fleets, ..*old(world) }),
{
    let ghost before = world.fleets@;
    let count: usize = world.fleets.slot_count();
    for i in 0..count
        invariant
            count == before.len(),
            world.fleets@.len() == before.len(),
            *world == (GameWorld { fleets: world.fleets, ..*old(world) }),
            forall|s: int|
                0 <= s < i ==> {
                    &&& (#[trigger] world.fleets@[s]) is Some <==> before[s] is Some
                    &&& world.fleets@[s] is Some ==> {
                        &&& (world.fleets@[s]->0).characters@ == without_character(
                            (before[s]->0).characters@,
                            who,
                        )
                        &&& world.fleets@[s]->0 == (Fleet {
                            characters: (world.fleets@[s]->0).characters,
                            ..before[s]->0
                        })
                    }
                },
            forall|s: int| i <= s < before.len() ==> #[trigger] world.fleets@[s] == before[s],
    {
        let ghost now = world.fleets@;
        if let Some(fleet) = world.fleets.get_mut(FleetKey { slot: i }) {
            let rest: Vec<CharacterKey> = drop_character(&fleet.characters, who);
            fleet.characters = rest;
        }
        assert(forall|s: int| 0 <= s < before.len() && s != i ==> world.fleets@[s] == now[s]);
    }
}

/// Sabotages a facility.
fn sabotage(world: &mut GameWorld, system: SystemKey, index: usize)
    ensures
        sabotaged(*old(world), *final(world), system, index as int),
{
    let mut yard: Option<ManufacturingFacilityKey> = None;
    let mut wall: Option<DefenseFacilityKey> = None;
    if let Some(sys) = world.systems.get_mut(system) {
        let yards: usize = sys.manufacturing_facilities.len();
        if index < yards {
            yard = Some(sys.manufacturing_facilities.remove(index));
        } else if index - yards < sys.defense_facilities.len() {
            wall = Some(sys.defense_facilities.remove(index - yards));
        }
    }
    if let Some(key) = yard {
        let _ = world.manufacturing_facilities.remove(key);
    }
    if let Some(key) = wall {
        let _ = world.defense_facilities.remove(key);
    }
    proof {
        if old(world).systems.has(system) {
            let sys = old(world).systems.at(system);
            assert(facility_gone(sys, world.systems.at(system), index as int));
            assert(world.manufacturing_facilities@ == if index
                < sys.manufacturing_facilities@.len() {
                without(
                    old(world).manufacturing_facilities@,
                    sys.manufacturing_facilities@[index as int].slot as nat,
                )
            } else {
                old(world).manufacturing_facilities@
            });
        }
    }
}

/// Frees a character on one side.
pub(crate) fn free(world: &mut GameWorld, character: CharacterKey, alliance: bool)
    ensures
        *final(world) == (GameWorld { characters: final(world).characters, ..*old(world) }),
        final(world).characters@ == character_set(
            old(world).characters@,
            character,
            freed(old(world).characters.at(character), alliance),
        ),
{
    if let Some(c) = world.characters.get_mut(character) {
        c.is_alliance = alliance;
        c.is_empire = !alliance;
        c.is_captive = false;
        c.captured_by = None;
        c.capture_tick = None;
    }
}

/// Changes the support at a system.
pub(crate) fn set_support(world: &mut GameWorld, system: SystemKey, alliance: u32, empire: u32)
    ensures
        *final(world) == (GameWorld { systems: final(world).systems, ..*old(world) }),
        final(world).systems@ == system_set(
            old(world).systems@,
            system,
            System {
                popularity_alliance: alliance,
                popularity_empire: empire,
                ..old(world).systems.at(system)
            },
        ),
{
    if let Some(sys) = world.systems.get_mut(system) {
        sys.popularity_alliance = alliance;
        sys.popularity_empire = empire;
    }
}

/// Changes the support for one faction at a system.
fn shift_support(world: &mut GameWorld, system: SystemKey, faction: MissionFaction, support: u32)
    ensures
        *final(world) == (GameWorld { systems: final(world).systems, ..*old(world) }),
        final(world).systems@ == system_set(
            old(world).systems@,
            system,
            with_support(old(world).systems.at(system), faction, support),
        ),
{
    if let Some(sys) = world.systems.get_mut(system) {
        match faction {
            MissionFaction::Alliance => {
                sys.popularity_alliance = support;
            },
            MissionFaction::Empire => {
                sys.popularity_empire = support;
            },
        }
    }
}

/// Marks a system as explored.
fn explore(world: &mut GameWorld, system: SystemKey)
    ensures
        *final(world) == (GameWorld { systems: final(world).systems, ..*old(world) }),
        final(world).systems@ == system_set(
            old(world).systems@,
            system,
            System {
                exploration_status: ExplorationStatus::Explored,
                ..old(world).systems.at(system)
            },
        ),
{
    if let Some(sys) = world.systems.get_mut(system) {
        sys.exploration_status = ExplorationStatus::Explored;
    }
}

/// Captures a character.
fn capture(world: &mut GameWorld, character: CharacterKey, by: MissionFaction, tick: u64)
    ensures
        *final(world) == (GameWorld { characters: final(world).characters, ..*old(world) }),
        final(world).characters@ == character_set(
            old(world).characters@,
            character,
            captured(old(world).characters.at(character), by, tick),
        ),
{
    if let Some(c) = world.characters.get_mut(character) {
        c.is_captive = true;
        c.captured_by = Some(
            match by {
                MissionFaction::Alliance => Faction::Alliance,
                MissionFaction::Empire => Faction::Empire,
            },
        );
        c.capture_tick = Some(tick);
    }
}

/// Sends a character on a mission.
fn occupy(world: &mut GameWorld, character: CharacterKey)
    ensures
        *final(world) == (GameWorld { characters: final(world).characters, ..*old(world) }),
        final(world).characters@ == character_set(
            old(world).characters@,
            character,
            Character { on_mission: true, ..old(world).characters.at(character) },
        ),
{
    if let Some(c) = world.characters.get_mut(character) {
        c.on_mission = true;
    }
}

/// Brings a character back from a mission.
fn release(world: &mut GameWorld, character: CharacterKey)
    ensures
        *final(world) == (GameWorld { characters: final(world).characters, ..*old(world) }),
        final(world).characters@ == character_set(
            old(world).characters@,
            character,
            Character {
                on_mission: false,
                on_hidden_mission: false,
                ..old(world).characters.at(character)
            },
        ),
{
    if let Some(c) = world.characters.get_mut(character) {
        c.on_mission = false;
        c.on_hidden_mission = false;
    }
}

/// Applies one effect to the world and the log.
pub fn apply_mission_effect(
    effect: &MissionEffect,
    tick: u64,
    world: &mut GameWorld,
    log: &mut MessageLog,
)
    ensures
        effect_done(*old(world), *final(world), *effect, tick),
        final(log)@ == old(log)@ + effect_notes(*old(world), *effect, tick),
{
    let ghost said = log@;
    assert(said + Seq::<Note>::empty() =~= said);
    match *effect {
        MissionEffect::PopularityShifted { system, faction, support } => {
            shift_support(world, system, faction, support);
        },
        MissionEffect::UprisingStarted { system, alliance_support, empire_support } => {
            set_support(world, system, alliance_support, empire_support);
        },
        MissionEffect::UprisingSubdued { system, alliance_support, empire_support } => {
            set_support(world, system, alliance_support, empire_support);
        },
        MissionEffect::SystemIntelligenceGathered { system } => {
            explore(world, system);
        },
        MissionEffect::CharacterRecruited { .. } => {},
        MissionEffect::FacilitySabotaged { system, facility_index, .. } => {
            sabotage(world, system, facility_index);
        },
        MissionEffect::CharacterKilled { character } => {
            strike_off(world, character);
            let _ = world.characters.remove(character);
        },
        MissionEffect::CharacterCaptured { character, captured_by } => {
            capture(world, character, captured_by, tick);
            strike_off(world, character);
        },
        MissionEffect::CharacterRescued { character, returned_to } => {
            let alliance: bool = returned_to == MissionFaction::Alliance;
            free(world, character, alliance);
        },
        MissionEffect::CharacterBusy { character } => {
            occupy(world, character);
        },
        MissionEffect::CharacterAvailable { character } => {
            release(world, character);
        },
        MissionEffect::DecoyTriggered { system, decoy_character } => {
            let text: String = join4(
                "Mission intercepted by decoy ",
                name_character(world, decoy_character, "Unknown"),
                " at ",
                name_system(world, system, "unknown"),
            );
            log.say_at(tick, text, MessageCategory::Mission, system);
            assert(log@ =~= said + effect_notes(*world, *effect, tick));
        },
        MissionEffect::CharacterEscaped { character, escaped_to_alliance } => {
            free(world, character, escaped_to_alliance);
            let text: String = join2(
                name_character(world, character, "Unknown"),
                " has escaped captivity!",
            );
            log.say(tick, text, MessageCategory::Event);
            assert(log@ =~= said + effect_notes(*old(world), *effect, tick));
        },
        MissionEffect::DeathStarSabotaged { ticks_delayed } => {
            let days: String = number(ticks_delayed as u64);
            let text: String = join3(
                "Death Star construction sabotaged! ",
                days.as_str(),
                " ticks delayed.",
            );
            log.say(tick, text, MessageCategory::Mission);
            assert(log@ =~= said + effect_notes(*world, *effect, tick));
        },
    }
}

/// Reports a mission and applies its effects in order.
pub fn apply_mission_result(result: &MissionResult, world: &mut GameWorld, log: &mut MessageLog)
    ensures
        exists|worlds: Seq<GameWorld>| #[trigger]
            effects_done(worlds, result.effects@, result.tick) && worlds[0] == *old(world)
                && worlds.last() == *final(world) && final(log)@ == old(log)@.push(
                mission_note(
                    *old(world),
                    result.kind,
                    result.faction,
                    result.outcome,
                    result.target_system,
                    result.tick,
                ),
            ) + notes_of(worlds, result.effects@, result.tick, result.effects@.len()),
{
    let ghost first = mission_note(
        *world,
        result.kind,
        result.faction,
        result.outcome,
        result.target_system,
        result.tick,
    );
    let ghost told = log@.push(first);
    let how: &'static str = match result.outcome {
        MissionOutcome::Success => "succeeded",
        MissionOutcome::Failure => "failed",
        MissionOutcome::Foiled => "was foiled",
    };
    let category: MessageCategory = match result.kind {
        MissionKind::Diplomacy
        | MissionKind::InciteUprising
        | MissionKind::SubdueUprising => MessageCategory::Diplomacy,
        _ => MessageCategory::Mission,
    };
    let mut text: String = join5(
        title_side(result.faction),
        " ",
        title_kind(result.kind),
        " mission at ",
        name_system(world, result.target_system, "unknown"),
    );
    text.append(" ");
    text.append(how);
    log.say_at(result.tick, text, category, result.target_system);
    let ghost mut worlds: Seq<GameWorld> = seq![*world];
    assert(log@ == told);
    assert(told + Seq::<Note>::empty() =~= told);
    for i in 0..result.effects.len()
        invariant
            worlds.len() == i + 1,
            worlds[0] == *old(world),
            worlds.last() == *world,
            forall|k: int|
                0 <= k < i ==> #[trigger] stepped(worlds, result.effects@, result.tick, k),
            log@ == told + notes_of(worlds, result.effects@, result.tick, i as nat),
    {
        let ghost before = worlds;
        let ghost now = *world;
        apply_mission_effect(&result.effects[i], result.tick, world, log);
        proof {
            worlds = worlds.push(*world);
            lemma_notes_stable(before, worlds, result.effects@, result.tick, i as nat);
            assert forall|k: int| 0 <= k < i + 1 implies #[trigger] stepped(
                worlds,
                result.effects@,
                result.tick,
                k,
            ) by {
                reveal(stepped);
                if k < i {
                    assert(stepped(before, result.effects@, result.tick, k));
                    assert(worlds[k] == before[k]);
                    assert(worlds[k + 1] == before[k + 1]);
                } else {
                    assert(worlds[k] == now);
                }
            }
            assert(log@ =~= told + notes_of(worlds, result.effects@, result.tick, (i + 1) as nat));
        }
    }
    assert(effects_done(worlds, result.effects@, result.tick)) by {
        reveal(stepped);
        assert forall|k: int| 0 <= k < result.effects@.len() implies effect_done(
            #[trigger] worlds[k],
            worlds[k + 1],
            result.effects@[k],
            result.tick,
        ) by {
            assert(stepped(worlds, result.effects@, result.tick, k));
        }
    }
}

/// Whether the `k`th effect leads from the `k`th world to the next.
#[verifier::opaque]
spec fn stepped(worlds: Seq<GameWorld>, effects: Seq<MissionEffect>, tick: u64, k: int) -> bool {
    effect_done(worlds[k], worlds[k + 1], effects[k], tick)
}

/// Later worlds do not change what earlier effects said.
proof fn lemma_notes_stable(
    a: Seq<GameWorld>,
    b: Seq<GameWorld>,
    effects: Seq<MissionEffect>,
    tick: u64,
    n: nat,
)
    requires
        n <= a.len() <= b.len(),
        forall|k: int| 0 <= k < a.len() ==> a[k] == b[k],
    ensures
        notes_of(a, effects, tick, n) == notes_of(b, effects, tick, n),
    decreases n,
{
    if n > 0 {
        lemma_notes_stable(a, b, effects, tick, (n - 1) as nat);
    }
}

// ---- Laws ------------------------------------------------------------------

/// Whoever is struck off a list is no longer on it, and everybody else is
/// still there.
pub proof fn law_only_one_is_struck_off(list: Seq<CharacterKey>, who: CharacterKey, other: CharacterKey)
    ensures
        without_character(list, who).contains(other) == (list.contains(other) && other != who),
{
    let f = other_character(list, who);
    let rest = without_character(list, who);
    lemma_collect_covers(list.len(), f);
    if rest.contains(other) {
        let k = choose|k: int| 0 <= k < rest.len() && rest[k] == other;
        assert(gives(list.len(), f, rest[k]));
        let i = choose|i: int| 0 <= i < list.len() && #[trigger] f(i) == Some(rest[k]);
        assert(list[i] == other);
    }
    if list.contains(other) && other != who {
        let i = choose|i: int| 0 <= i < list.len() && list[i] == other;
        assert(f(i) == Some(other));
    }
}

/// A captive belongs to the side it belonged to before, so that an escape can
/// lead back there; once free, nothing of the captivity is left.
pub proof fn law_captivity_passes(c: Character, by: MissionFaction, tick: u64)
    ensures
        captured(c, by, tick).is_alliance == c.is_alliance,
        captured(c, by, tick).is_empire == c.is_empire,
        c.is_alliance != c.is_empire && !c.is_captive && c.captured_by is None && c.capture_tick
            is None ==> freed(captured(c, by, tick), c.is_alliance) == c,
{
}

} // verus!
