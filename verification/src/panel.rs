//! The player's orders, as the panels give them.
//!
//! What concerns the campaign is done here. What is left to do elsewhere (by
//! the mission desk, the transports, the mod loader and so on) comes back as a
//! follow-up.

use crate::ai::{AIState, AiFaction};
use crate::bombardment::BombardmentResult;
use crate::campaign::{Campaign, GameSpeed, MapView};
use crate::dat::Faction;
use crate::ground_campaign::strike_ready;
use crate::ids::{CharacterKey, FleetKey, SystemKey, TroopKey};
use crate::manufacturing::{BuildableKind, QueueItem};
use crate::messages::{
    character_name, departure_voice, kind_title, name_character, name_system, note_at, system_name,
    title_kind, tree_word, word_tree, MessageCategory, Note, VoiceLine,
};
use crate::missions::{MissionFaction, MissionKind};
use crate::panel_death_star::{death_star_move, death_star_move_notes, fired, strike_ordered};
use crate::panel_fleets::{assigned, can_merge, merged, pool_fits, unassigned};
use crate::panel_reports::{fleet_notes, fleets_countable, stats_text};
use crate::research::{ResearchProject, TechType};
use crate::select::collect;
use crate::text::{decimal, join2, join5, number};
use crate::world::GameWorld;
use vstd::prelude::*;
use vstd::string::*;

verus! {

/// An order of the player.
#[derive(Debug)]
#[allow(inconsistent_fields)]
pub enum PanelAction {
    FocusFleetSystem(SystemKey),
    AssignCharacterToFleet { character: CharacterKey, fleet: FleetKey },
    RemoveCharacterFromFleet { character: CharacterKey, fleet: FleetKey },
    MergeFleets { fleet_a: FleetKey, fleet_b: FleetKey },
    DispatchFleet { fleet: FleetKey, destination: SystemKey, troops: Vec<TroopKey> },
    Enqueue { system: SystemKey, kind: BuildableKind, ticks: u32 },
    CancelQueueItem { system: SystemKey, index: usize },
    PrioritizeQueueItem { system: SystemKey, index: usize },
    DispatchMission {
        kind: MissionKind,
        faction: MissionFaction,
        character: CharacterKey,
        target: SystemKey,
        target_character: Option<CharacterKey>,
    },
    CancelMission(u64),
    SelectFaction(MissionFaction),
    FocusCharacter(CharacterKey),
    OpenSaveLoad,
    SaveGame { slot: u32, name: String },
    LoadGame { slot: u32 },
    DeleteSave { slot: u32 },
    CloseSaveLoadPanel,
    OpenModManager,
    ToggleMod { name: String },
    ReloadMods,
    OpenMissionTo { target: SystemKey, kind: MissionKind, faction: MissionFaction },
    InitiateFleetMove { destination: SystemKey },
    OrderBombardment { fleet: FleetKey, system: SystemKey },
    FireDeathStar { system: SystemKey },
    MoveDeathStar { system: SystemKey },
    AdvanceTicks(u64),
    SetGameSpeed(u8),
    ToggleDualAI,
    ForceVictoryCheck,
    RevealAllFog,
    ExportGameLog,
    ShowGameStats,
    ListActiveMissions,
    ListActiveFleets,
    ShowEventCount,
    DispatchResearch { character: CharacterKey, tech_type: TechType, faction: MissionFaction },
    CancelResearch { tech_type: TechType, faction: MissionFaction },
    StartJediTraining { character: CharacterKey, faction: MissionFaction },
    StopJediTraining { character: CharacterKey },
}

/// What is left to do after an order.
#[derive(Debug, Clone, Copy, PartialEq, Eq, Structural)]
#[allow(inconsistent_fields)]
pub enum FollowUp {
    Done,
    /// Hand the cargo of one fleet to another.
    TransferCargo { from: FleetKey, to: FleetKey },
    /// See whether a fleet may depart; see [`Campaign::dispatch_step`].
    CheckDispatch { fleet: FleetKey, destination: SystemKey, expected_is_alliance: bool },
    CancelQueueItem { system: SystemKey, index: usize },
    PrioritizeQueueItem { system: SystemKey, index: usize },
    DispatchMission {
        kind: MissionKind,
        faction: MissionFaction,
        character: CharacterKey,
        target: SystemKey,
        target_character: Option<CharacterKey>,
    },
    CancelMission(u64),
    ToggleMod,
    ReloadMods,
    /// Strike, then see [`Campaign::settle_bombardment`].
    Bombard { attacker: Faction, result: BombardmentResult },
    /// Send the Death Star off, then see [`Campaign::death_star_departed`].
    MoveDeathStar { fleet: FleetKey, origin: SystemKey, destination: SystemKey },
    /// Check for victory, then see [`Campaign::show_victory_check`].
    CheckVictory,
    /// Reveal every system; see [`living_systems`].
    RevealFog,
    ExportLog,
    /// See [`Campaign::list_missions`].
    ListMissions,
    /// See [`Campaign::show_event_count`].
    CountEvents,
    /// Work out how long it takes, then see [`Campaign::dispatch_research`].
    PlanResearch { character: CharacterKey, tech_type: TechType, is_alliance: bool },
    CancelResearch { tech_type: TechType, is_alliance: bool },
    StartTraining { character: CharacterKey, is_alliance: bool },
    StopTraining { character: CharacterKey },
}

/// Whether an order can be carried out without overflowing a count.
pub open spec fn panel_ready(campaign: Campaign, action: PanelAction) -> bool {
    match action {
        PanelAction::MergeFleets { fleet_a, fleet_b } => can_merge(campaign, fleet_a, fleet_b)
            ==> pool_fits(
            campaign.world.fleets.at(fleet_a).fighters@,
            campaign.world.fleets.at(fleet_b).fighters@,
        ),
        PanelAction::OrderBombardment { fleet, system } => strike_ready(
            campaign.world,
            fleet,
            system,
        ),
        PanelAction::AdvanceTicks(n) => campaign.tick + n <= u64::MAX,
        PanelAction::ListActiveFleets => fleets_countable(campaign.world),
        _ => true,
    }
}

/// The follow-up of an order.
pub open spec fn follow_up_of(before: Campaign, action: PanelAction, follow: FollowUp) -> bool {
    match action {
        PanelAction::MergeFleets { fleet_a, fleet_b } => follow == if can_merge(
            before,
            fleet_a,
            fleet_b,
        ) {
            FollowUp::TransferCargo { from: fleet_b, to: fleet_a }
        } else {
            FollowUp::Done
        },
        PanelAction::DispatchFleet { fleet, destination, troops } => follow
            == FollowUp::CheckDispatch {
            fleet,
            destination,
            expected_is_alliance: before.player_faction == MissionFaction::Alliance,
        },
        PanelAction::CancelQueueItem { system, index } => follow == FollowUp::CancelQueueItem {
            system,
            index,
        },
        PanelAction::PrioritizeQueueItem { system, index } => follow
            == FollowUp::PrioritizeQueueItem { system, index },
        PanelAction::DispatchMission { kind, faction, character, target, target_character } => {
            follow == FollowUp::DispatchMission {
                kind,
                faction,
                character,
                target,
                target_character,
            }
        },
        PanelAction::CancelMission(id) => follow == FollowUp::CancelMission(id),
        PanelAction::ToggleMod { name } => follow == FollowUp::ToggleMod,
        PanelAction::ReloadMods => follow == FollowUp::ReloadMods,
        PanelAction::OrderBombardment { fleet, system } => {
            exists|strike: Option<(Faction, BombardmentResult)>| #[trigger]
                strike_ordered(before.world, fleet, system, before.tick, strike) && follow
                    == match strike {
                    Some((attacker, result)) => FollowUp::Bombard { attacker, result },
                    None => FollowUp::Done,
                }
        },
        PanelAction::MoveDeathStar { system } => follow == match death_star_move(before, system) {
            Some((fleet, origin, destination)) => FollowUp::MoveDeathStar {
                fleet,
                origin,
                destination,
            },
            None => FollowUp::Done,
        },
        PanelAction::ForceVictoryCheck => follow == FollowUp::CheckVictory,
        PanelAction::RevealAllFog => follow == FollowUp::RevealFog,
        PanelAction::ExportGameLog => follow == FollowUp::ExportLog,
        PanelAction::ListActiveMissions => follow == FollowUp::ListMissions,
        PanelAction::ShowEventCount => follow == FollowUp::CountEvents,
        PanelAction::DispatchResearch { character, tech_type, faction } => follow
            == FollowUp::PlanResearch {
            character,
            tech_type,
            is_alliance: faction == MissionFaction::Alliance,
        },
        PanelAction::CancelResearch { tech_type, faction } => follow == FollowUp::CancelResearch {
            tech_type,
            is_alliance: faction == MissionFaction::Alliance,
        },
        PanelAction::StartJediTraining { character, faction } => follow
            == FollowUp::StartTraining {
            character,
            is_alliance: faction == MissionFaction::Alliance,
        },
        PanelAction::StopJediTraining { character } => follow == FollowUp::StopTraining {
            character,
        },
        _ => follow == FollowUp::Done,
    }
}

/// Where the map looks after a system was focused.
pub open spec fn focused(before: Campaign, system: SystemKey) -> MapView {
    if before.world.systems.has(system) {
        MapView {
            camera_x: before.world.systems.at(system).x,
            camera_y: before.world.systems.at(system).y,
            selected_system: Some(system),
        }
    } else {
        before.map
    }
}

/// The speed that a number stands for.
pub open spec fn speed_of(speed: u8) -> GameSpeed {
    if speed == 0 {
        GameSpeed::Paused
    } else if speed == 1 {
        GameSpeed::Normal
    } else if speed == 2 {
        GameSpeed::Fast
    } else {
        GameSpeed::Faster
    }
}

/// The side that a second computer player takes.
pub open spec fn other_ai(faction: Option<AiFaction>) -> AiFaction {
    match faction {
        Some(AiFaction::Empire) => AiFaction::Alliance,
        _ => AiFaction::Empire,
    }
}

/// Whether a computer player has nothing to remember yet.
pub open spec fn fresh_ai(state: AIState, faction: AiFaction) -> bool {
    &&& state.faction == Some(faction)
    &&& state.last_eval_tick == 0
    &&& state.busy_characters@ == Set::<usize>::empty()
    &&& state.battle_cooldowns@ == Map::<usize, u64>::empty()
}

/// Whether `after` is `before` with the second computer player toggled.
pub open spec fn dual_ai_toggled(before: Campaign, after: Campaign) -> bool {
    let on = !before.dual_ai_mode;
    &&& after == (Campaign {
        dual_ai_mode: on,
        secondary_ai: after.secondary_ai,
        log: after.log,
        ..before
    })
    &&& on == (after.secondary_ai is Some)
    &&& on ==> fresh_ai(after.secondary_ai->0, other_ai(before.ai_faction))
    &&& after.log@ == before.log@.push(
        before.today(
            "Dual AI mode "@ + (if on {
                "ENABLED"@
            } else {
                "DISABLED"@
            }),
            MessageCategory::Event,
        ),
    )
}

/// The message about a dispatched mission.
pub open spec fn dispatch_note(
    campaign: Campaign,
    kind: MissionKind,
    character: CharacterKey,
    target: SystemKey,
) -> Note {
    note_at(
        campaign.tick,
        character_name(campaign.world, character, "Unknown"@) + " dispatched on "@ + kind_title(
            kind,
        ) + " mission to "@ + system_name(campaign.world, target, "unknown"@),
        MessageCategory::Mission,
        target,
    )
}

/// A message of today about a character.
pub open spec fn character_note(campaign: Campaign, character: CharacterKey, news: Seq<char>) -> Note {
    campaign.today(
        character_name(campaign.world, character, "Unknown"@) + news,
        MessageCategory::Event,
    )
}

/// What an order does to the campaign.
pub open spec fn panel_done(before: Campaign, after: Campaign, action: PanelAction) -> bool {
    match action {
        PanelAction::FocusFleetSystem(system) => after == (Campaign {
            map: focused(before, system),
            ..before
        }),
        PanelAction::AssignCharacterToFleet { character, fleet } => assigned(
            before,
            after,
            character,
            fleet,
        ),
        PanelAction::RemoveCharacterFromFleet { character, fleet } => unassigned(
            before,
            after,
            character,
            fleet,
        ),
        PanelAction::MergeFleets { fleet_a, fleet_b } => merged(before, after, fleet_a, fleet_b),
        PanelAction::Enqueue { system, kind, ticks } => {
            &&& after == (Campaign { queues: after.queues, ..before })
            &&& after.queues.items@ == before.queues.items@.push(
                QueueItem { system, kind, ticks_remaining: ticks, total_ticks: ticks },
            )
        },
        PanelAction::DispatchMission { kind, faction, character, target, target_character } => {
            before.said(after, seq![dispatch_note(before, kind, character, target)])
        },
        PanelAction::ToggleMod { name } => before.said(
            after,
            seq![before.today("Toggled mod: "@ + name@, MessageCategory::Event)],
        ),
        PanelAction::OpenMissionTo { target, kind, faction } => after == (Campaign {
            map: MapView { selected_system: Some(target), ..before.map },
            ..before
        }),
        PanelAction::InitiateFleetMove { destination } => after == (Campaign {
            map: MapView { selected_system: Some(destination), ..before.map },
            ..before
        }),
        PanelAction::FireDeathStar { system } => fired(before, after, system),
        PanelAction::MoveDeathStar { system } => before.said(after, death_star_move_notes(before)),
        PanelAction::AdvanceTicks(n) => after == (Campaign {
            tick: (before.tick + n) as u64,
            ..before
        }),
        PanelAction::SetGameSpeed(speed) => after == (Campaign {
            speed: speed_of(speed),
            ..before
        }),
        PanelAction::ToggleDualAI => dual_ai_toggled(before, after),
        PanelAction::ShowGameStats => before.said(
            after,
            seq![before.today(stats_text(before), MessageCategory::Event)],
        ),
        PanelAction::ListActiveFleets => before.said(after, fleet_notes(before)),
        PanelAction::CancelResearch { tech_type, faction } => before.said(
            after,
            seq![
                before.today(
                    tree_word(tech_type) + " research cancelled"@,
                    MessageCategory::Event,
                ),
            ],
        ),
        PanelAction::StartJediTraining { character, faction } => before.said(
            after,
            seq![character_note(before, character, " begins Force training"@)],
        ),
        PanelAction::StopJediTraining { character } => before.said(
            after,
            seq![character_note(before, character, " Force training stopped"@)],
        ),
        _ => after == before,
    }
}

// ---- Sending a fleet off ---------------------------------------------------

/// What came of a step on the way to a departure.
#[derive(Debug)]
#[allow(inconsistent_fields)]
pub enum DispatchEvent {
    /// The fleet may depart.
    Valid,
    /// The fleet may not depart.
    Invalid(String),
    /// The regiments are aboard.
    Embarked,
    /// The regiments cannot come aboard.
    EmbarkRefused(String),
    Departed { origin: SystemKey, destination: SystemKey, transit_ticks: u32, is_alliance: bool },
    /// The fleet could not depart after all.
    DepartureRefused(String),
}

/// The next step on the way to a departure.
#[derive(Debug, Clone, Copy, PartialEq, Eq, Structural)]
#[allow(inconsistent_fields)]
pub enum DispatchStep {
    Embark,
    Depart,
    /// Put the regiments ashore again, where the fleet is.
    Unload { origin: Option<SystemKey> },
    /// The fleet has left: say so aloud.
    Announce(VoiceLine),
    Stop,
}

/// The next step after an event.
pub open spec fn step_after(
    world: GameWorld,
    fleet: FleetKey,
    with_troops: bool,
    event: DispatchEvent,
) -> DispatchStep {
    match event {
        DispatchEvent::Valid => DispatchStep::Embark,
        DispatchEvent::Invalid(_) => DispatchStep::Stop,
        DispatchEvent::Embarked => DispatchStep::Depart,
        DispatchEvent::EmbarkRefused(_) => if with_troops {
            DispatchStep::Stop
        } else {
            DispatchStep::Depart
        },
        DispatchEvent::Departed { origin, destination, transit_ticks, is_alliance } => {
            DispatchStep::Announce(
                if is_alliance {
                    VoiceLine::AllianceFleetDeparts
                } else {
                    VoiceLine::EmpireFleetDeparts
                },
            )
        },
        DispatchEvent::DepartureRefused(_) => if with_troops {
            DispatchStep::Unload {
                origin: if world.fleets.has(fleet) {
                    Some(world.fleets.at(fleet).location)
                } else {
                    None
                },
            }
        } else {
            DispatchStep::Stop
        },
    }
}

/// What an event adds to the log.
pub open spec fn step_notes(campaign: Campaign, with_troops: bool, event: DispatchEvent) -> Seq<Note> {
    match event {
        DispatchEvent::Invalid(reason) => seq![
            campaign.today("Fleet move rejected: "@ + reason@, MessageCategory::Event),
        ],
        DispatchEvent::EmbarkRefused(reason) => if with_troops {
            seq![campaign.today("Troop embarkation rejected: "@ + reason@, MessageCategory::Event)]
        } else {
            Seq::empty()
        },
        DispatchEvent::Departed { origin, destination, transit_ticks, is_alliance } => seq![
            note_at(
                campaign.tick,
                "Fleet departed "@ + system_name(campaign.world, origin, "Unknown"@) + " for "@
                    + system_name(campaign.world, destination, "Unknown"@) + " ("@ + decimal(
                    transit_ticks as nat,
                ) + " days)"@,
                MessageCategory::Event,
                destination,
            ),
        ],
        DispatchEvent::DepartureRefused(reason) => seq![
            campaign.today("Fleet move rejected: "@ + reason@, MessageCategory::Event),
        ],
        _ => Seq::empty(),
    }
}

/// The key of the system in slot `i`, if it lives.
pub open spec fn living_system(world: GameWorld) -> spec_fn(int) -> Option<SystemKey> {
    |i: int|
        if world.systems@[i] is Some {
            Some(SystemKey { slot: i as usize })
        } else {
            None
        }
}

/// Lists every system.
pub fn living_systems(world: &GameWorld) -> (list: Vec<SystemKey>)
    ensures
        list@ == collect(world.systems@.len(), living_system(*world)),
{
    let ghost f = living_system(*world);
    let slots: usize = world.systems.slot_count();
    let mut list: Vec<SystemKey> = Vec::new();
    for i in 0..slots
        invariant
            slots == world.systems@.len(),
            f == living_system(*world),
            list@ == collect(i as nat, f),
    {
        if world.systems.slot(i).is_some() {
            list.push(SystemKey { slot: i });
        }
    }
    list
}

impl Campaign {
    /// Takes the next step on the way to a fleet's departure.
    pub fn dispatch_step(&mut self, fleet: FleetKey, with_troops: bool, event: &DispatchEvent) -> (step:
        DispatchStep)
        ensures
            step == step_after(old(self).world, fleet, with_troops, *event),
            old(self).said(*final(self), step_notes(*old(self), with_troops, *event)),
    {
        let ghost before = self.log@;
        assert(before + Seq::<Note>::empty() =~= before);
        match event {
            DispatchEvent::Valid => DispatchStep::Embark,
            DispatchEvent::Invalid(reason) => {
                self.tell(join2("Fleet move rejected: ", reason.as_str()), MessageCategory::Event);
                DispatchStep::Stop
            },
            DispatchEvent::Embarked => DispatchStep::Depart,
            DispatchEvent::EmbarkRefused(reason) => {
                if with_troops {
                    self.tell(
                        join2("Troop embarkation rejected: ", reason.as_str()),
                        MessageCategory::Event,
                    );
                    DispatchStep::Stop
                } else {
                    DispatchStep::Depart
                }
            },
            DispatchEvent::Departed { origin, destination, transit_ticks, is_alliance } => {
                let days: String = number(*transit_ticks as u64);
                let mut text: String = join5(
                    "Fleet departed ",
                    name_system(&self.world, *origin, "Unknown"),
                    " for ",
                    name_system(&self.world, *destination, "Unknown"),
                    " (",
                );
                text.append(days.as_str());
                text.append(" days)");
                self.log.say_at(self.tick, text, MessageCategory::Event, *destination);
                assert(self.log@ =~= before + step_notes(*old(self), with_troops, *event));
                DispatchStep::Announce(departure_voice(*is_alliance))
            },
            DispatchEvent::DepartureRefused(reason) => {
                self.tell(join2("Fleet move rejected: ", reason.as_str()), MessageCategory::Event);
                if with_troops {
                    let origin: Option<SystemKey> = match self.world.fleets.get(fleet) {
                        Some(f) => Some(f.location),
                        None => None,
                    };
                    DispatchStep::Unload { origin }
                } else {
                    DispatchStep::Stop
                }
            },
        }
    }

    /// Puts a character to research, once it is known at what level the tree
    /// stands and how long the next one takes.
    pub fn dispatch_research(
        &mut self,
        character: CharacterKey,
        tech_type: TechType,
        is_alliance: bool,
        level: u32,
        ticks: u32,
    ) -> (project: ResearchProject)
        requires
            level < u32::MAX,
        ensures
            project == (ResearchProject {
                tech_type,
                character,
                faction_is_alliance: is_alliance,
                ticks_remaining: ticks,
                total_ticks: ticks,
            }),
            old(self).said(
                *final(self),
                seq![
                    character_note(
                        *old(self),
                        character,
                        " assigned to "@ + tree_word(tech_type) + " research (level "@ + decimal(
                            level as nat,
                        ) + " → "@ + decimal((level + 1) as nat) + ", "@ + decimal(ticks as nat)
                            + " ticks)"@,
                    ),
                ],
            ),
    {
        let now: String = number(level as u64);
        let next: String = number((level + 1) as u64);
        let days: String = number(ticks as u64);
        let mut news: String = join5(
            " assigned to ",
            word_tree(tech_type),
            " research (level ",
            now.as_str(),
            " → ",
        );
        news.append(next.as_str());
        news.append(", ");
        news.append(days.as_str());
        news.append(" ticks)");
        let text: String = join2(
            name_character(&self.world, character, "Unknown"),
            news.as_str(),
        );
        self.tell(text, MessageCategory::Event);
        ResearchProject {
            tech_type,
            character,
            faction_is_alliance: is_alliance,
            ticks_remaining: ticks,
            total_ticks: ticks,
        }
    }

    /// Looks at a system.
    fn focus(&mut self, system: SystemKey)
        ensures
            *final(self) == (Campaign { map: focused(*old(self), system), ..*old(self) }),
    {
        if let Some(sys) = self.world.systems.get(system) {
            self.map = MapView {
                camera_x: sys.x,
                camera_y: sys.y,
                selected_system: Some(system),
            };
        }
    }

    /// Tells something about a character.
    fn tell_of(&mut self, character: CharacterKey, news: &str)
        ensures
            old(self).said(*final(self), seq![character_note(*old(self), character, news@)]),
    {
        let text: String = join2(name_character(&self.world, character, "Unknown"), news);
        self.tell(text, MessageCategory::Event);
    }

    /// Tells of a dispatched mission.
    fn tell_dispatch(&mut self, kind: MissionKind, character: CharacterKey, target: SystemKey)
        ensures
            old(self).said(
                *final(self),
                seq![dispatch_note(*old(self), kind, character, target)],
            ),
    {
        let ghost before = self.log@;
        let text: String = join5(
            name_character(&self.world, character, "Unknown"),
            " dispatched on ",
            title_kind(kind),
            " mission to ",
            name_system(&self.world, target, "unknown"),
        );
        self.log.say_at(self.tick, text, MessageCategory::Mission, target);
        assert(self.log@ =~= before + seq![dispatch_note(*old(self), kind, character, target)]);
    }

    /// Switches the second computer player on or off.
    fn toggle_dual_ai(&mut self)
        ensures
            dual_ai_toggled(*old(self), *final(self)),
    {
        self.dual_ai_mode = !self.dual_ai_mode;
        if self.dual_ai_mode {
            let faction: AiFaction = match self.ai_faction {
                Some(AiFaction::Empire) => AiFaction::Alliance,
                _ => AiFaction::Empire,
            };
            self.secondary_ai = Some(AIState::new(faction));
        } else {
            self.secondary_ai = None;
        }
        let word: &'static str = if self.dual_ai_mode {
            "ENABLED"
        } else {
            "DISABLED"
        };
        self.log.say(self.tick, join2("Dual AI mode ", word), MessageCategory::Event);
    }

    /// Carries out an order of the player.
    pub fn apply_panel_action(&mut self, action: &PanelAction) -> (follow: FollowUp)
        requires
            panel_ready(*old(self), *action),
        ensures
            panel_done(*old(self), *final(self), *action),
            follow_up_of(*old(self), *action, follow),
    {
        match action {
            PanelAction::FocusFleetSystem(system) => {
                self.focus(*system);
                FollowUp::Done
            },
            PanelAction::AssignCharacterToFleet { character, fleet } => {
                self.assign_character(*character, *fleet);
                FollowUp::Done
            },
            PanelAction::RemoveCharacterFromFleet { character, fleet } => {
                self.remove_character(*character, *fleet);
                FollowUp::Done
            },
            PanelAction::MergeFleets { fleet_a, fleet_b } => {
                if self.merge_fleets(*fleet_a, *fleet_b) {
                    FollowUp::TransferCargo { from: *fleet_b, to: *fleet_a }
                } else {
                    FollowUp::Done
                }
            },
            PanelAction::DispatchFleet { fleet, destination, troops } => FollowUp::CheckDispatch {
                fleet: *fleet,
                destination: *destination,
                expected_is_alliance: self.player_faction == MissionFaction::Alliance,
            },
            PanelAction::Enqueue { system, kind, ticks } => {
                self.queues.enqueue(*system, *kind, *ticks);
                FollowUp::Done
            },
            PanelAction::CancelQueueItem { system, index } => FollowUp::CancelQueueItem {
                system: *system,
                index: *index,
            },
            PanelAction::PrioritizeQueueItem { system, index } => FollowUp::PrioritizeQueueItem {
                system: *system,
                index: *index,
            },
            PanelAction::DispatchMission {
                kind,
                faction,
                character,
                target,
                target_character,
            } => {
                self.tell_dispatch(*kind, *character, *target);
                FollowUp::DispatchMission {
                    kind: *kind,
                    faction: *faction,
                    character: *character,
                    target: *target,
                    target_character: *target_character,
                }
            },
            PanelAction::CancelMission(id) => FollowUp::CancelMission(*id),
            PanelAction::SelectFaction(_)
            | PanelAction::FocusCharacter(_)
            | PanelAction::OpenSaveLoad
            | PanelAction::SaveGame { .. }
            | PanelAction::LoadGame { .. }
            | PanelAction::DeleteSave { .. }
            | PanelAction::CloseSaveLoadPanel
            | PanelAction::OpenModManager => FollowUp::Done,
            PanelAction::ToggleMod { name } => {
                self.tell(join2("Toggled mod: ", name.as_str()), MessageCategory::Event);
                FollowUp::ToggleMod
            },
            PanelAction::ReloadMods => FollowUp::ReloadMods,
            PanelAction::OpenMissionTo { target, .. } => {
                self.map.selected_system = Some(*target);
                FollowUp::Done
            },
            PanelAction::InitiateFleetMove { destination } => {
                self.map.selected_system = Some(*destination);
                FollowUp::Done
            },
            PanelAction::OrderBombardment { fleet, system } => {
                let strike: Option<(Faction, BombardmentResult)> = self.order_bombardment(
                    *fleet,
                    *system,
                );
                match strike {
                    Some((attacker, result)) => FollowUp::Bombard { attacker, result },
                    None => FollowUp::Done,
                }
            },
            PanelAction::FireDeathStar { system } => {
                self.fire_death_star(*system);
                FollowUp::Done
            },
            PanelAction::MoveDeathStar { system } => match self.move_death_star(*system) {
                Some((fleet, origin, destination)) => FollowUp::MoveDeathStar {
                    fleet,
                    origin,
                    destination,
                },
                None => FollowUp::Done,
            },
            PanelAction::AdvanceTicks(n) => {
                self.tick = self.tick + *n;
                FollowUp::Done
            },
            PanelAction::SetGameSpeed(speed) => {
                self.speed = match *speed {
                    0 => GameSpeed::Paused,
                    1 => GameSpeed::Normal,
                    2 => GameSpeed::Fast,
                    _ => GameSpeed::Faster,
                };
                FollowUp::Done
            },
            PanelAction::ToggleDualAI => {
                self.toggle_dual_ai();
                FollowUp::Done
            },
            PanelAction::ForceVictoryCheck => FollowUp::CheckVictory,
            PanelAction::RevealAllFog => FollowUp::RevealFog,
            PanelAction::ExportGameLog => FollowUp::ExportLog,
            PanelAction::ShowGameStats => {
                self.show_stats();
                FollowUp::Done
            },
            PanelAction::ListActiveMissions => FollowUp::ListMissions,
            PanelAction::ListActiveFleets => {
                self.list_fleets();
                FollowUp::Done
            },
            PanelAction::ShowEventCount => FollowUp::CountEvents,
            PanelAction::DispatchResearch { character, tech_type, faction } => {
                FollowUp::PlanResearch {
                    character: *character,
                    tech_type: *tech_type,
                    is_alliance: *faction == MissionFaction::Alliance,
                }
            },
            PanelAction::CancelResearch { tech_type, faction } => {
                self.tell(
                    join2(word_tree(*tech_type), " research cancelled"),
                    MessageCategory::Event,
                );
                FollowUp::CancelResearch {
                    tech_type: *tech_type,
                    is_alliance: *faction == MissionFaction::Alliance,
                }
            },
            PanelAction::StartJediTraining { character, faction } => {
                self.tell_of(*character, " begins Force training");
                FollowUp::StartTraining {
                    character: *character,
                    is_alliance: *faction == MissionFaction::Alliance,
                }
            },
            PanelAction::StopJediTraining { character } => {
                self.tell_of(*character, " Force training stopped");
                FollowUp::StopTraining { character: *character }
            },
        }
    }
}

// ---- Laws ------------------------------------------------------------------

/// No order of the player takes a message out of the log or changes one.
pub proof fn law_log_only_grows(before: Campaign, after: Campaign, action: PanelAction)
    requires
        panel_done(before, after, action),
    ensures
        before.log@.is_prefix_of(after.log@),
{
}

/// Only the order to advance changes the day, and only forwards.
pub proof fn law_days_only_advance(before: Campaign, after: Campaign, action: PanelAction)
    requires
        panel_ready(before, action),
        panel_done(before, after, action),
    ensures
        after.tick >= before.tick,
        !(action is AdvanceTicks) ==> after.tick == before.tick,
{
}

/// A mode that is toggled twice is as it was.
pub proof fn law_toggled_twice(before: Campaign, between: Campaign, after: Campaign)
    requires
        dual_ai_toggled(before, between),
        dual_ai_toggled(between, after),
    ensures
        after.dual_ai_mode == before.dual_ai_mode,
{
}

/// A fleet that is refused, at whatever point, stays where it is: no step
/// after a refusal sends it off, except where only the absence of regiments
/// kept them from coming aboard.
pub proof fn law_refused_fleets_stay(
    world: GameWorld,
    fleet: FleetKey,
    with_troops: bool,
    event: DispatchEvent,
)
    requires
        event is Invalid || event is DepartureRefused || (event is EmbarkRefused && with_troops),
    ensures
        !(step_after(world, fleet, with_troops, event) is Depart),
        !(step_after(world, fleet, with_troops, event) is Announce),
{
}

} // verus!
