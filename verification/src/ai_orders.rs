//! Carrying out the orders of the computer player.

use crate::ai::{AIAction, AIState, AiFaction, FleetMoveReason};
use crate::ids::{CharacterKey, FleetKey, SystemKey};
use crate::manufacturing::{ManufacturingState, QueueItem};
use crate::messages::{
    character_name, departure_voice, kind_word, name_character, note, note_at, side_word, tree_word,
    word_kind, word_side, word_tree, MessageCategory, MessageLog, Note, VoiceLine,
};
use crate::missions::{MissionFaction, MissionKind};
use crate::research::ResearchProject;
use crate::text::{decimal, join4, join5, number};
use crate::world::GameWorld;
use vstd::prelude::*;
use vstd::string::*;

verus! {

/// What is left to do after an order.
#[derive(Debug, Clone, Copy, PartialEq, Eq, Structural)]
#[allow(inconsistent_fields)]
pub enum AiFollowUp {
    Done,
    DispatchMission {
        kind: MissionKind,
        faction: MissionFaction,
        character: CharacterKey,
        target_system: SystemKey,
        target_character: Option<CharacterKey>,
        duration_percent: u32,
    },
    /// Embark the regiments, if there are any, and send the fleet off; then
    /// see [`conclude_ai_move`].
    Depart { fleet: FleetKey, to_system: SystemKey, is_alliance: bool, embark: bool },
    Research(ResearchProject),
}

/// The faction whose missions a computer player sends out.
pub open spec fn acting(faction: Option<AiFaction>) -> AiFaction {
    match faction {
        Some(faction) => faction,
        None => AiFaction::Empire,
    }
}

/// The side that a computer player fights for.
pub open spec fn acting_side(faction: AiFaction) -> MissionFaction {
    match faction {
        AiFaction::Alliance => MissionFaction::Alliance,
        AiFaction::Empire => MissionFaction::Empire,
    }
}

/// What is left to do after an order.
pub open spec fn ai_follow_up(
    action: AIAction,
    faction: Option<AiFaction>,
    world: GameWorld,
) -> AiFollowUp {
    match action {
        AIAction::DispatchMission {
            kind,
            character,
            target_system,
            target_character,
            duration_percent,
        } => AiFollowUp::DispatchMission {
            kind,
            faction: acting_side(acting(faction)),
            character,
            target_system,
            target_character,
            duration_percent,
        },
        AIAction::EnqueueProduction { system, kind, ticks } => AiFollowUp::Done,
        AIAction::MoveFleet { fleet, to_system, reason, troops } => if world.fleets.has(fleet) {
            AiFollowUp::Depart {
                fleet,
                to_system,
                is_alliance: world.fleets.at(fleet).is_alliance,
                embark: troops@.len() > 0,
            }
        } else {
            AiFollowUp::Done
        },
        AIAction::DispatchResearch { character, tech_type, ticks } => AiFollowUp::Research(
            ResearchProject {
                tech_type,
                character,
                faction_is_alliance: faction == Some(AiFaction::Alliance),
                ticks_remaining: ticks,
                total_ticks: ticks,
            },
        ),
    }
}

/// The slots of the busy characters after an order.
pub open spec fn ai_busy(action: AIAction, busy: Set<usize>) -> Set<usize> {
    match action {
        AIAction::DispatchMission {
            kind,
            character,
            target_system,
            target_character,
            duration_percent,
        } => busy.insert(character.slot),
        AIAction::DispatchResearch { character, tech_type, ticks } => busy.insert(character.slot),
        _ => busy,
    }
}

/// The production queues after an order.
pub open spec fn ai_queues(action: AIAction, items: Seq<QueueItem>) -> Seq<QueueItem> {
    match action {
        AIAction::EnqueueProduction { system, kind, ticks } => items.push(
            QueueItem { system, kind, ticks_remaining: ticks, total_ticks: ticks },
        ),
        _ => items,
    }
}

/// What an order adds to the log. A fleet's departure is told when it is made.
pub open spec fn ai_notes(
    action: AIAction,
    faction: Option<AiFaction>,
    world: GameWorld,
    tick: u64,
) -> Seq<Note> {
    match action {
        AIAction::DispatchMission {
            kind,
            character,
            target_system,
            target_character,
            duration_percent,
        } => seq![
            note_at(
                tick,
                side_word(acting(faction) == AiFaction::Alliance) + " dispatched "@ + kind_word(
                    kind,
                ) + " mission"@,
                MessageCategory::Ai,
                target_system,
            ),
        ],
        AIAction::DispatchResearch { character, tech_type, ticks } => seq![
            note(
                tick,
                character_name(world, character, "unknown"@) + " assigned to "@ + tree_word(
                    tech_type,
                ) + " research ("@ + decimal(ticks as nat) + " ticks)"@,
                MessageCategory::Ai,
            ),
        ],
        _ => Seq::empty(),
    }
}

/// Carries out one order of the computer player.
pub fn apply_ai_action(
    action: &AIAction,
    ai_state: &mut AIState,
    queues: &mut ManufacturingState,
    world: &GameWorld,
    tick: u64,
    log: &mut MessageLog,
) -> (follow: AiFollowUp)
    ensures
        follow == ai_follow_up(*action, old(ai_state).faction, *world),
        final(ai_state).busy_characters@ == ai_busy(*action, old(ai_state).busy_characters@),
        final(ai_state).faction == old(ai_state).faction,
        final(ai_state).last_eval_tick == old(ai_state).last_eval_tick,
        final(ai_state).battle_cooldowns == old(ai_state).battle_cooldowns,
        final(queues).items@ == ai_queues(*action, old(queues).items@),
        final(log)@ == old(log)@ + ai_notes(*action, old(ai_state).faction, *world, tick),
{
    let ghost said = log@;
    assert(said + Seq::<Note>::empty() =~= said);
    match action {
        AIAction::DispatchMission {
            kind,
            character,
            target_system,
            target_character,
            duration_percent,
        } => {
            let faction: AiFaction = match ai_state.faction {
                Some(faction) => faction,
                None => AiFaction::Empire,
            };
            ai_state.mark_busy(*character);
            let text: String = join4(
                word_side(faction.is_alliance()),
                " dispatched ",
                word_kind(*kind),
                " mission",
            );
            log.say_at(tick, text, MessageCategory::Ai, *target_system);
            assert(log@ =~= said + ai_notes(*action, old(ai_state).faction, *world, tick));
            AiFollowUp::DispatchMission {
                kind: *kind,
                faction: faction.as_mission_faction(),
                character: *character,
                target_system: *target_system,
                target_character: *target_character,
                duration_percent: *duration_percent,
            }
        },
        AIAction::EnqueueProduction { system, kind, ticks } => {
            queues.enqueue(*system, *kind, *ticks);
            AiFollowUp::Done
        },
        AIAction::MoveFleet { fleet, to_system, troops, .. } => match world.fleets.get(*fleet) {
            Some(moving) => AiFollowUp::Depart {
                fleet: *fleet,
                to_system: *to_system,
                is_alliance: moving.is_alliance,
                embark: troops.len() > 0,
            },
            None => AiFollowUp::Done,
        },
        AIAction::DispatchResearch { character, tech_type, ticks } => {
            let is_alliance: bool = match ai_state.faction {
                Some(AiFaction::Alliance) => true,
                _ => false,
            };
            ai_state.mark_busy(*character);
            let days: String = number(*ticks as u64);
            let mut text: String = join5(
                name_character(world, *character, "unknown"),
                " assigned to ",
                word_tree(*tech_type),
                " research (",
                days.as_str(),
            );
            text.append(" ticks)");
            log.say(tick, text, MessageCategory::Ai);
            assert(log@ =~= said + ai_notes(*action, old(ai_state).faction, *world, tick));
            AiFollowUp::Research(
                ResearchProject {
                    tech_type: *tech_type,
                    character: *character,
                    faction_is_alliance: is_alliance,
                    ticks_remaining: *ticks,
                    total_ticks: *ticks,
                },
            )
        },
    }
}

/// How a move of the computer player ends.
#[derive(Debug, Clone, Copy, PartialEq, Eq, Structural)]
pub enum AiMoveEnd {
    /// The fleet has left: say so aloud.
    Announce(VoiceLine),
    /// The regiments are to go ashore again.
    Unload(SystemKey),
    Stay,
}

/// The word for why a fleet moves.
pub open spec fn reason_word(reason: FleetMoveReason) -> Seq<char> {
    match reason {
        FleetMoveReason::Attack => "attack"@,
        FleetMoveReason::Reinforce => "reinforce"@,
    }
}

/// The message about a departed fleet.
pub open spec fn ai_move_text(is_alliance: bool, reason: FleetMoveReason, regiments: nat) -> Seq<
    char,
> {
    let start = side_word(is_alliance) + " fleet moving to system ("@ + reason_word(reason) + ")"@;
    if regiments == 0 {
        start
    } else {
        start + " with "@ + decimal(regiments) + " regiment(s)"@
    }
}

/// Concludes a move, once it is known whether the regiments came aboard and
/// whether the fleet left. `embarked` also holds where there were none.
pub fn conclude_ai_move(
    world: &GameWorld,
    fleet: FleetKey,
    to_system: SystemKey,
    is_alliance: bool,
    reason: FleetMoveReason,
    regiments: usize,
    embarked: bool,
    departed: bool,
    tick: u64,
    log: &mut MessageLog,
) -> (end: AiMoveEnd)
    ensures
        embarked && departed ==> {
            &&& end == AiMoveEnd::Announce(
                if is_alliance {
                    VoiceLine::AllianceFleetDeparts
                } else {
                    VoiceLine::EmpireFleetDeparts
                },
            )
            &&& final(log)@ == old(log)@.push(
                note_at(
                    tick,
                    ai_move_text(is_alliance, reason, regiments as nat),
                    MessageCategory::Ai,
                    to_system,
                ),
            )
        },
        !(embarked && departed) ==> {
            &&& final(log)@ == old(log)@
            &&& end == if embarked && regiments > 0 && world.fleets.has(fleet) {
                AiMoveEnd::Unload(world.fleets.at(fleet).location)
            } else {
                AiMoveEnd::Stay
            }
        },
{
    if embarked && departed {
        let why: &'static str = match reason {
            FleetMoveReason::Attack => "attack",
            FleetMoveReason::Reinforce => "reinforce",
        };
        let mut text: String = join4(
            word_side(is_alliance),
            " fleet moving to system (",
            why,
            ")",
        );
        if regiments > 0 {
            let count: String = number(regiments as u64);
            text.append(" with ");
            text.append(count.as_str());
            text.append(" regiment(s)");
        }
        log.say_at(tick, text, MessageCategory::Ai, to_system);
        return AiMoveEnd::Announce(departure_voice(is_alliance));
    }
    if embarked && regiments > 0 {
        if let Some(value) = world.fleets.get(fleet) {
            return AiMoveEnd::Unload(value.location);
        }
    }
    AiMoveEnd::Stay
}

// ---- All orders of an evaluation -------------------------------------------

/// What decides how long a mission takes.
#[derive(Debug, Clone, Copy, PartialEq, Eq, Structural)]
pub enum MissionLength {
    /// The roll of that number.
    Rolled(usize),
    /// No roll is left: this percentage of the range, as the order has it.
    Ordered(u32),
}

/// What decides the length of the `k`th mission: its own roll while there are
/// any left, else the order.
pub open spec fn mission_length(rolls: usize, k: nat, duration_percent: u32) -> MissionLength {
    if k < rolls {
        MissionLength::Rolled(k as usize)
    } else {
        MissionLength::Ordered(duration_percent)
    }
}

/// Something left to do after the orders of an evaluation.
#[derive(Debug, Clone, Copy, PartialEq, Eq, Structural)]
#[allow(inconsistent_fields)]
pub enum AiTask {
    /// Send a mission out.
    Mission {
        kind: MissionKind,
        faction: MissionFaction,
        character: CharacterKey,
        target_system: SystemKey,
        target_character: Option<CharacterKey>,
        length: MissionLength,
    },
    Research(ResearchProject),
    /// A fleet has left: say so aloud.
    Announce(VoiceLine),
    /// A fleet could not leave: its regiments are to go ashore again.
    Unload { fleet: FleetKey, system: SystemKey },
}

/// How far the orders have been carried out.
pub struct AiRun {
    pub tasks: Seq<AiTask>,
    /// Missions sent out.
    pub missions: nat,
    /// Moves tried.
    pub moves: nat,
    pub busy: Set<usize>,
    pub items: Seq<QueueItem>,
    pub notes: Seq<Note>,
}

/// How the `k`th move went: whether the regiments came aboard and whether the
/// fleet left. Beyond the list neither happened.
pub open spec fn move_outcome(moves: Seq<(bool, bool)>, k: nat) -> (bool, bool) {
    if k < moves.len() {
        moves[k as int]
    } else {
        (false, false)
    }
}

/// What a move comes to, once it is known how it went.
pub open spec fn ai_move_end(
    world: GameWorld,
    fleet: FleetKey,
    regiments: nat,
    outcome: (bool, bool),
) -> AiMoveEnd {
    if !world.fleets.has(fleet) {
        AiMoveEnd::Stay
    } else if outcome.0 && outcome.1 {
        AiMoveEnd::Announce(
            if world.fleets.at(fleet).is_alliance {
                VoiceLine::AllianceFleetDeparts
            } else {
                VoiceLine::EmpireFleetDeparts
            },
        )
    } else if outcome.0 && regiments > 0 {
        AiMoveEnd::Unload(world.fleets.at(fleet).location)
    } else {
        AiMoveEnd::Stay
    }
}

/// One order carried out.
pub open spec fn ai_step(
    action: AIAction,
    rolls: usize,
    moves: Seq<(bool, bool)>,
    faction: Option<AiFaction>,
    world: GameWorld,
    tick: u64,
    run: AiRun,
) -> AiRun {
    let done = AiRun {
        busy: ai_busy(action, run.busy),
        items: ai_queues(action, run.items),
        notes: run.notes + ai_notes(action, faction, world, tick),
        ..run
    };
    match action {
        AIAction::DispatchMission {
            kind,
            character,
            target_system,
            target_character,
            duration_percent,
        } => AiRun {
            tasks: run.tasks.push(
                AiTask::Mission {
                    kind,
                    faction: acting_side(acting(faction)),
                    character,
                    target_system,
                    target_character,
                    length: mission_length(rolls, run.missions, duration_percent),
                },
            ),
            missions: run.missions + 1,
            ..done
        },
        AIAction::EnqueueProduction { system, kind, ticks } => done,
        AIAction::MoveFleet { fleet, to_system, reason, troops } => {
            let outcome = move_outcome(moves, run.moves);
            match ai_move_end(world, fleet, troops@.len(), outcome) {
                AiMoveEnd::Announce(voice) => AiRun {
                    tasks: run.tasks.push(AiTask::Announce(voice)),
                    moves: run.moves + 1,
                    notes: run.notes.push(
                        note_at(
                            tick,
                            ai_move_text(
                                world.fleets.at(fleet).is_alliance,
                                reason,
                                troops@.len(),
                            ),
                            MessageCategory::Ai,
                            to_system,
                        ),
                    ),
                    ..done
                },
                AiMoveEnd::Unload(system) => AiRun {
                    tasks: run.tasks.push(AiTask::Unload { fleet, system }),
                    moves: run.moves + 1,
                    ..done
                },
                AiMoveEnd::Stay => AiRun { moves: run.moves + 1, ..done },
            }
        },
        AIAction::DispatchResearch { character, tech_type, ticks } => AiRun {
            tasks: run.tasks.push(
                AiTask::Research(
                    ResearchProject {
                        tech_type,
                        character,
                        faction_is_alliance: faction == Some(AiFaction::Alliance),
                        ticks_remaining: ticks,
                        total_ticks: ticks,
                    },
                ),
            ),
            ..done
        },
    }
}

/// The first `n` orders carried out.
pub open spec fn ai_run(
    actions: Seq<AIAction>,
    rolls: usize,
    moves: Seq<(bool, bool)>,
    faction: Option<AiFaction>,
    world: GameWorld,
    tick: u64,
    busy: Set<usize>,
    items: Seq<QueueItem>,
    notes: Seq<Note>,
    n: nat,
) -> AiRun
    decreases n,
{
    if n == 0 {
        AiRun { tasks: Seq::empty(), missions: 0, moves: 0, busy, items, notes }
    } else {
        ai_step(
            actions[n - 1],
            rolls,
            moves,
            faction,
            world,
            tick,
            ai_run(
                actions,
                rolls,
                moves,
                faction,
                world,
                tick,
                busy,
                items,
                notes,
                (n - 1) as nat,
            ),
        )
    }
}

/// Carries out all orders of an evaluation. There are `rolls` rolls for the
/// lengths of missions. `moves` says of each order to move, in turn, whether
/// its regiments came aboard and whether its fleet left.
pub fn apply_ai_actions(
    actions: &Vec<AIAction>,
    rolls: usize,
    moves: &Vec<(bool, bool)>,
    ai_state: &mut AIState,
    queues: &mut ManufacturingState,
    world: &GameWorld,
    tick: u64,
    log: &mut MessageLog,
) -> (tasks: Vec<AiTask>)
    ensures
        ({
            let run = ai_run(
                actions@,
                rolls,
                moves@,
                old(ai_state).faction,
                *world,
                tick,
                old(ai_state).busy_characters@,
                old(queues).items@,
                old(log)@,
                actions@.len(),
            );
            &&& tasks@ == run.tasks
            &&& final(ai_state).busy_characters@ == run.busy
            &&& final(queues).items@ == run.items
            &&& final(log)@ == run.notes
        }),
        final(ai_state).faction == old(ai_state).faction,
        final(ai_state).last_eval_tick == old(ai_state).last_eval_tick,
        final(ai_state).battle_cooldowns == old(ai_state).battle_cooldowns,
{
    let ghost faction = ai_state.faction;
    let ghost busy = ai_state.busy_characters@;
    let ghost items = queues.items@;
    let ghost notes = log@;
    let mut tasks: Vec<AiTask> = Vec::new();
    let mut missions: usize = 0;
    let mut tried: usize = 0;
    for n in 0..actions.len()
        invariant
            faction == old(ai_state).faction,
            busy == old(ai_state).busy_characters@,
            items == old(queues).items@,
            notes == old(log)@,
            missions <= n,
            tried <= n,
            ai_state.faction == faction,
            ai_state.last_eval_tick == old(ai_state).last_eval_tick,
            ai_state.battle_cooldowns == old(ai_state).battle_cooldowns,
            ({
                let run = ai_run(
                    actions@,
                    rolls,
                    moves@,
                    faction,
                    *world,
                    tick,
                    busy,
                    items,
                    notes,
                    n as nat,
                );
                &&& tasks@ == run.tasks
                &&& missions == run.missions
                &&& tried == run.moves
                &&& ai_state.busy_characters@ == run.busy
                &&& queues.items@ == run.items
                &&& log@ == run.notes
            }),
    {
        let action: &AIAction = &actions[n];
        let ghost said = log@;
        let follow: AiFollowUp = apply_ai_action(action, ai_state, queues, world, tick, log);
        match follow {
            AiFollowUp::DispatchMission {
                kind,
                faction,
                character,
                target_system,
                target_character,
                duration_percent,
            } => {
                let length: MissionLength = if missions < rolls {
                    MissionLength::Rolled(missions)
                } else {
                    MissionLength::Ordered(duration_percent)
                };
                tasks.push(
                    AiTask::Mission {
                        kind,
                        faction,
                        character,
                        target_system,
                        target_character,
                        length,
                    },
                );
                missions = missions + 1;
            },
            AiFollowUp::Research(project) => {
                tasks.push(AiTask::Research(project));
            },
            _ => {},
        }
        if let AIAction::MoveFleet { fleet, to_system, reason, troops } = action {
            assert(said + Seq::<Note>::empty() =~= said);
            let (embarked, departed): (bool, bool) = if tried < moves.len() {
                moves[tried]
            } else {
                (false, false)
            };
            tried = tried + 1;
            if let Some(moving) = world.fleets.get(*fleet) {
                let end: AiMoveEnd = conclude_ai_move(
                    world,
                    *fleet,
                    *to_system,
                    moving.is_alliance,
                    *reason,
                    troops.len(),
                    embarked,
                    departed,
                    tick,
                    log,
                );
                match end {
                    AiMoveEnd::Announce(voice) => {
                        tasks.push(AiTask::Announce(voice));
                    },
                    AiMoveEnd::Unload(system) => {
                        tasks.push(AiTask::Unload { fleet: *fleet, system });
                    },
                    AiMoveEnd::Stay => {},
                }
            }
        }
    }
    tasks
}

/// Each mission of an evaluation gets a roll of its own, in turn, and none goes
/// without while a roll is left.
pub proof fn law_rolls_are_not_shared(
    actions: Seq<AIAction>,
    rolls: usize,
    moves: Seq<(bool, bool)>,
    faction: Option<AiFaction>,
    world: GameWorld,
    tick: u64,
    busy: Set<usize>,
    items: Seq<QueueItem>,
    notes: Seq<Note>,
    n: nat,
)
    ensures
        ({
            let run = ai_run(actions, rolls, moves, faction, world, tick, busy, items, notes, n);
            &&& run.missions <= n
            &&& forall|i: int|
                0 <= i < run.tasks.len() && (#[trigger] run.tasks[i]) is Mission
                    ==> match run.tasks[i]->Mission_length {
                    MissionLength::Rolled(k) => k < rolls && k < run.missions,
                    MissionLength::Ordered(_) => rolls < run.missions,
                }
            &&& forall|i: int, j: int|
                0 <= i < j < run.tasks.len() && (#[trigger] run.tasks[i]) is Mission && (
                #[trigger] run.tasks[j]) is Mission ==> match run.tasks[j]->Mission_length {
                    MissionLength::Rolled(k) => run.tasks[i]->Mission_length matches MissionLength::Rolled(
                        h,
                    ) && h < k,
                    MissionLength::Ordered(_) => true,
                }
        }),
    decreases n,
{
    if n > 0 {
        law_rolls_are_not_shared(
            actions,
            rolls,
            moves,
            faction,
            world,
            tick,
            busy,
            items,
            notes,
            (n - 1) as nat,
        );
    }
}

/// Whoever is sent out is busy afterwards, and nobody comes back by an order.
pub proof fn law_orders_keep_people_busy(action: AIAction, busy: Set<usize>, slot: usize)
    ensures
        busy.contains(slot) ==> ai_busy(action, busy).contains(slot),
        action matches AIAction::DispatchMission { character, .. } ==> ai_busy(
            action,
            busy,
        ).contains(character.slot),
        action matches AIAction::DispatchResearch { character, .. } ==> ai_busy(
            action,
            busy,
        ).contains(character.slot),
{
}

/// What an order leaves to do: a mission is sent out for the computer player's
/// own side, the Empire's where it has none, with everything as ordered; a
/// project takes as many days as ordered; an order to build only joins the
/// queue of its system; and a living fleet is to depart.
pub proof fn law_orders_are_passed_on(
    action: AIAction,
    faction: Option<AiFaction>,
    world: GameWorld,
    items: Seq<QueueItem>,
)
    ensures
        ({
            let follow = ai_follow_up(action, faction, world);
            let rebels = faction == Some(AiFaction::Alliance);
            match action {
                AIAction::DispatchMission {
                    kind,
                    character,
                    target_system,
                    target_character,
                    duration_percent,
                } => {
                    &&& follow == (AiFollowUp::DispatchMission {
                        kind,
                        faction: if rebels {
                            MissionFaction::Alliance
                        } else {
                            MissionFaction::Empire
                        },
                        character,
                        target_system,
                        target_character,
                        duration_percent,
                    })
                    &&& ai_queues(action, items) == items
                },
                AIAction::EnqueueProduction { system, kind, ticks } => {
                    &&& follow == AiFollowUp::Done
                    &&& ai_queues(action, items).len() == items.len() + 1
                    &&& ai_queues(action, items).drop_last() =~= items
                    &&& ai_queues(action, items).last() == (QueueItem {
                        system,
                        kind,
                        ticks_remaining: ticks,
                        total_ticks: ticks,
                    })
                },
                AIAction::MoveFleet { fleet, to_system, reason, troops } => {
                    &&& ai_queues(action, items) == items
                    &&& !world.fleets.has(fleet) ==> follow == AiFollowUp::Done
                    &&& world.fleets.has(fleet) ==> follow == (AiFollowUp::Depart {
                        fleet,
                        to_system,
                        is_alliance: world.fleets.at(fleet).is_alliance,
                        embark: troops@.len() != 0,
                    })
                },
                AIAction::DispatchResearch { character, tech_type, ticks } => {
                    &&& ai_queues(action, items) == items
                    &&& follow == AiFollowUp::Research(
                        ResearchProject {
                            tech_type,
                            character,
                            faction_is_alliance: rebels,
                            ticks_remaining: ticks,
                            total_ticks: ticks,
                        },
                    )
                },
            }
        }),
{
}

/// How a move ends: a fleet that took its regiments along and left is told of;
/// one that could not leave puts them ashore where it is, if it had any; and
/// otherwise, or once it is gone, nothing is left to do.
pub proof fn law_how_moves_end(
    world: GameWorld,
    fleet: FleetKey,
    regiments: nat,
    embarked: bool,
    departed: bool,
)
    ensures
        ({
            let end = ai_move_end(world, fleet, regiments, (embarked, departed));
            let there = world.fleets.has(fleet);
            &&& end is Announce <==> there && embarked && departed
            &&& end is Unload <==> there && embarked && !departed && regiments > 0
            &&& end is Unload ==> end == AiMoveEnd::Unload(world.fleets.at(fleet).location)
            &&& end is Announce ==> end == AiMoveEnd::Announce(
                if world.fleets.at(fleet).is_alliance {
                    VoiceLine::AllianceFleetDeparts
                } else {
                    VoiceLine::EmpireFleetDeparts
                },
            )
        }),
{
}

} // verus!
