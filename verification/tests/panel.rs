//! Tests of the player's orders.

use open_rebellion::ai::AiFaction;
use open_rebellion::blockade::BlockadeState;
use open_rebellion::campaign::{Campaign, GameSpeed, MapView};
use open_rebellion::dat::{ExplorationStatus, Faction, SectorGroup};
use open_rebellion::death_star::{DeathStarConstruction, DeathStarState};
use open_rebellion::ids::{
    CapitalShipKey, CharacterKey, DatId, FighterKey, FleetKey, SystemKey, TroopKey,
};
use open_rebellion::manufacturing::{BuildableKind, ManufacturingState};
use open_rebellion::messages::{MessageCategory, MessageLog, VoiceLine};
use open_rebellion::missions::{MissionFaction, MissionKind};
use open_rebellion::movement::MovementState;
use open_rebellion::panel::{
    living_systems, DispatchEvent, DispatchStep, FollowUp, PanelAction,
};
use open_rebellion::panel_reports::ActiveMission;
use open_rebellion::research::TechType;
use open_rebellion::world::{
    CapitalShipClass, Character, ControlKind, FighterEntry, Fleet, GameWorld, Sector, ShipInstance,
    System, TroopUnit,
};

fn campaign() -> Campaign {
    Campaign {
        world: GameWorld::default(),
        map: MapView {
            camera_x: 0,
            camera_y: 0,
            selected_system: None,
        },
        queues: ManufacturingState::new(),
        movement: MovementState::new(),
        death_star: DeathStarState::default(),
        blockade: BlockadeState::new(),
        log: MessageLog::new(),
        player_faction: MissionFaction::Alliance,
        tick: 100,
        speed: GameSpeed::Normal,
        dual_ai_mode: false,
        ai_faction: Some(AiFaction::Empire),
        secondary_ai: None,
        death_star_location: None,
    }
}

fn add_system(world: &mut GameWorld, name: &str, x: u16, control: ControlKind) -> SystemKey {
    let sector = world.sectors.insert(Sector {
        dat_id: DatId::new(1),
        name: "Core".into(),
        group: SectorGroup::Core,
        x: 0,
        y: 0,
        systems: vec![],
    });
    world.systems.insert(System {
        dat_id: DatId::new(2),
        name: name.into(),
        sector,
        x,
        y: 7,
        exploration_status: ExplorationStatus::Explored,
        popularity_alliance: 0.5f32.to_bits(),
        popularity_empire: 0.5f32.to_bits(),
        is_populated: true,
        total_energy: 0,
        raw_materials: 0,
        espionage_rating: 0,
        fleets: vec![],
        ground_units: vec![],
        special_forces: vec![],
        defense_facilities: vec![],
        manufacturing_facilities: vec![],
        production_facilities: vec![],
        is_headquarters: false,
        is_destroyed: false,
        control,
    })
}

fn add_fleet(world: &mut GameWorld, system: SystemKey, is_alliance: bool) -> FleetKey {
    let key = world.fleets.insert(Fleet {
        location: system,
        capital_ships: vec![],
        fighters: vec![],
        characters: vec![],
        is_alliance,
        has_death_star: false,
    });
    world.systems.get_mut(system).unwrap().fleets.push(key);
    key
}

fn add_person(world: &mut GameWorld, name: &str) -> CharacterKey {
    world.characters.insert(Character {
        name: name.into(),
        is_alliance: true,
        ..Default::default()
    })
}

fn texts(campaign: &Campaign) -> Vec<&str> {
    campaign.log.messages.iter().map(|m| m.text.as_str()).collect()
}

#[test]
fn focusing_a_system_moves_the_map() {
    let mut c = campaign();
    let system = add_system(&mut c.world, "Coruscant", 42, ControlKind::Uncontrolled);
    let follow = c.apply_panel_action(&PanelAction::FocusFleetSystem(system));
    assert_eq!(follow, FollowUp::Done);
    assert_eq!(
        c.map,
        MapView {
            camera_x: 42,
            camera_y: 7,
            selected_system: Some(system),
        }
    );
    c.apply_panel_action(&PanelAction::FocusFleetSystem(SystemKey { slot: 30 }));
    assert_eq!(c.map.camera_x, 42);
    c.apply_panel_action(&PanelAction::InitiateFleetMove {
        destination: SystemKey { slot: 30 },
    });
    assert_eq!(c.map.selected_system, Some(SystemKey { slot: 30 }));
    c.apply_panel_action(&PanelAction::OpenMissionTo {
        target: system,
        kind: MissionKind::Diplomacy,
        faction: MissionFaction::Alliance,
    });
    assert_eq!(c.map.selected_system, Some(system));
    assert!(c.log.messages.is_empty());
}

#[test]
fn officers_come_and_go() {
    let mut c = campaign();
    let system = add_system(&mut c.world, "Hoth", 0, ControlKind::Uncontrolled);
    let fleet = add_fleet(&mut c.world, system, true);
    let leia = add_person(&mut c.world, "Leia");
    let order = PanelAction::AssignCharacterToFleet {
        character: leia,
        fleet,
    };
    c.apply_panel_action(&order);
    c.apply_panel_action(&order);
    assert_eq!(c.world.fleets.get(fleet).unwrap().characters, vec![leia]);
    assert_eq!(c.world.characters.get(leia).unwrap().current_fleet, Some(fleet));
    c.apply_panel_action(&PanelAction::RemoveCharacterFromFleet {
        character: leia,
        fleet,
    });
    assert!(c.world.fleets.get(fleet).unwrap().characters.is_empty());
    assert_eq!(c.world.characters.get(leia).unwrap().current_fleet, None);
    assert_eq!(
        texts(&c),
        vec![
            "Leia assigned to fleet",
            "Leia assigned to fleet",
            "Leia removed from fleet",
        ]
    );
    let nobody = CharacterKey { slot: 80 };
    c.apply_panel_action(&PanelAction::AssignCharacterToFleet {
        character: nobody,
        fleet,
    });
    assert_eq!(c.world.fleets.get(fleet).unwrap().characters, vec![nobody]);
    assert_eq!(c.log.messages.len(), 3);
}

#[test]
fn merging_pools_everything() {
    let mut c = campaign();
    let system = add_system(&mut c.world, "Hoth", 0, ControlKind::Uncontrolled);
    let a = add_fleet(&mut c.world, system, true);
    let b = add_fleet(&mut c.world, system, true);
    let leia = add_person(&mut c.world, "Leia");
    let (x, y) = (FighterKey { slot: 1 }, FighterKey { slot: 2 });
    let class = CapitalShipKey { slot: 0 };
    {
        let fleet = c.world.fleets.get_mut(a).unwrap();
        fleet.capital_ships = ShipInstance::make(class, 10, true, 2);
        fleet.fighters = vec![FighterEntry { class: x, count: 3 }];
    }
    {
        let fleet = c.world.fleets.get_mut(b).unwrap();
        fleet.capital_ships = ShipInstance::make(class, 20, true, 1);
        fleet.fighters = vec![
            FighterEntry { class: x, count: 4 },
            FighterEntry { class: y, count: 5 },
        ];
        fleet.characters = vec![leia];
        fleet.has_death_star = true;
    }
    let follow = c.apply_panel_action(&PanelAction::MergeFleets {
        fleet_a: a,
        fleet_b: b,
    });
    assert_eq!(follow, FollowUp::TransferCargo { from: b, to: a });
    let fleet = c.world.fleets.get(a).unwrap();
    assert_eq!(fleet.capital_ships.len(), 3);
    assert_eq!(
        fleet.fighters,
        vec![
            FighterEntry { class: x, count: 7 },
            FighterEntry { class: y, count: 5 },
        ]
    );
    assert_eq!(fleet.characters, vec![leia]);
    assert!(fleet.has_death_star);
    assert_eq!(c.world.characters.get(leia).unwrap().current_fleet, Some(a));
    assert!(!c.world.fleets.contains_key(b));
    assert_eq!(c.world.systems.get(system).unwrap().fleets, vec![a]);
    assert_eq!(texts(&c), vec!["Fleets merged"]);
}

#[test]
fn fleets_under_way_do_not_merge() {
    let mut c = campaign();
    let system = add_system(&mut c.world, "Hoth", 0, ControlKind::Uncontrolled);
    let other = add_system(&mut c.world, "Endor", 9, ControlKind::Uncontrolled);
    let a = add_fleet(&mut c.world, system, true);
    let b = add_fleet(&mut c.world, system, true);
    assert!(c.movement.order(b, system, other, 4));
    let follow = c.apply_panel_action(&PanelAction::MergeFleets {
        fleet_a: a,
        fleet_b: b,
    });
    assert_eq!(follow, FollowUp::Done);
    assert!(c.world.fleets.contains_key(b));
    assert!(c.movement.is_in_transit(b));
    // The message comes in any case.
    assert_eq!(texts(&c), vec!["Fleets merged"]);
}

#[test]
fn dispatching_a_fleet_goes_step_by_step() {
    let mut c = campaign();
    let system = add_system(&mut c.world, "Hoth", 0, ControlKind::Uncontrolled);
    let other = add_system(&mut c.world, "Endor", 9, ControlKind::Uncontrolled);
    let fleet = add_fleet(&mut c.world, system, true);
    let follow = c.apply_panel_action(&PanelAction::DispatchFleet {
        fleet,
        destination: other,
        troops: vec![TroopKey { slot: 0 }],
    });
    assert_eq!(
        follow,
        FollowUp::CheckDispatch {
            fleet,
            destination: other,
            expected_is_alliance: true,
        }
    );
    assert_eq!(c.dispatch_step(fleet, true, &DispatchEvent::Valid), DispatchStep::Embark);
    assert_eq!(c.dispatch_step(fleet, true, &DispatchEvent::Embarked), DispatchStep::Depart);
    let refused = DispatchEvent::EmbarkRefused("no room".to_string());
    assert_eq!(c.dispatch_step(fleet, false, &refused), DispatchStep::Depart);
    assert!(c.log.messages.is_empty());
    assert_eq!(c.dispatch_step(fleet, true, &refused), DispatchStep::Stop);
    let invalid = DispatchEvent::Invalid("not yours".to_string());
    assert_eq!(c.dispatch_step(fleet, true, &invalid), DispatchStep::Stop);
    let late = DispatchEvent::DepartureRefused("blockaded".to_string());
    assert_eq!(
        c.dispatch_step(fleet, true, &late),
        DispatchStep::Unload {
            origin: Some(system)
        }
    );
    assert_eq!(c.dispatch_step(fleet, false, &late), DispatchStep::Stop);
    assert_eq!(
        c.dispatch_step(FleetKey { slot: 60 }, true, &late),
        DispatchStep::Unload { origin: None }
    );
    let left = DispatchEvent::Departed {
        origin: system,
        destination: other,
        transit_ticks: 14,
        is_alliance: true,
    };
    assert_eq!(
        c.dispatch_step(fleet, true, &left),
        DispatchStep::Announce(VoiceLine::AllianceFleetDeparts)
    );
    assert_eq!(
        texts(&c),
        vec![
            "Troop embarkation rejected: no room",
            "Fleet move rejected: not yours",
            "Fleet move rejected: blockaded",
            "Fleet move rejected: blockaded",
            "Fleet move rejected: blockaded",
            "Fleet departed Hoth for Endor (14 days)",
        ]
    );
    assert_eq!(c.log.messages[5].system, Some(other));
}

#[test]
fn queues_and_missions_are_passed_on() {
    let mut c = campaign();
    let system = add_system(&mut c.world, "Kuat", 0, ControlKind::Uncontrolled);
    let lando = add_person(&mut c.world, "Lando");
    c.apply_panel_action(&PanelAction::Enqueue {
        system,
        kind: BuildableKind::Fighter(FighterKey { slot: 0 }),
        ticks: 8,
    });
    assert_eq!(c.queues.queue_len(system), 1);
    assert_eq!(c.queues.items[0].total_ticks, 8);
    assert_eq!(
        c.apply_panel_action(&PanelAction::CancelQueueItem { system, index: 3 }),
        FollowUp::CancelQueueItem { system, index: 3 }
    );
    assert_eq!(
        c.apply_panel_action(&PanelAction::PrioritizeQueueItem { system, index: 2 }),
        FollowUp::PrioritizeQueueItem { system, index: 2 }
    );
    let follow = c.apply_panel_action(&PanelAction::DispatchMission {
        kind: MissionKind::DeathStarSabotage,
        faction: MissionFaction::Alliance,
        character: lando,
        target: system,
        target_character: None,
    });
    assert!(matches!(follow, FollowUp::DispatchMission { .. }));
    assert_eq!(
        texts(&c),
        vec!["Lando dispatched on Death Star Sabotage mission to Kuat"]
    );
    assert_eq!(c.log.messages[0].category, MessageCategory::Mission);
    assert_eq!(
        c.apply_panel_action(&PanelAction::CancelMission(17)),
        FollowUp::CancelMission(17)
    );
}

#[test]
fn interface_orders_leave_the_campaign_alone() {
    let mut c = campaign();
    let orders = [
        PanelAction::SelectFaction(MissionFaction::Empire),
        PanelAction::FocusCharacter(CharacterKey { slot: 0 }),
        PanelAction::OpenSaveLoad,
        PanelAction::SaveGame {
            slot: 1,
            name: "one".to_string(),
        },
        PanelAction::LoadGame { slot: 1 },
        PanelAction::DeleteSave { slot: 1 },
        PanelAction::CloseSaveLoadPanel,
        PanelAction::OpenModManager,
    ];
    for order in &orders {
        assert_eq!(c.apply_panel_action(order), FollowUp::Done);
    }
    assert_eq!(c.player_faction, MissionFaction::Alliance);
    assert!(c.log.messages.is_empty());
}

#[test]
fn mods_are_told() {
    let mut c = campaign();
    let follow = c.apply_panel_action(&PanelAction::ToggleMod {
        name: "hd".to_string(),
    });
    assert_eq!(follow, FollowUp::ToggleMod);
    assert_eq!(c.apply_panel_action(&PanelAction::ReloadMods), FollowUp::ReloadMods);
    c.show_mods(3);
    assert_eq!(texts(&c), vec!["Toggled mod: hd", "Reloaded 3 mods"]);
}

#[test]
fn an_ordered_bombardment_is_settled() {
    let mut c = campaign();
    let system = add_system(
        &mut c.world,
        "Yavin",
        0,
        ControlKind::Controlled(Faction::Empire),
    );
    let class = c.world.capital_ship_classes.insert(CapitalShipClass {
        bombardment_modifier: 30,
        ..CapitalShipClass::default()
    });
    let fleet = add_fleet(&mut c.world, system, true);
    c.world.fleets.get_mut(fleet).unwrap().capital_ships = ShipInstance::make(class, 5, true, 1);
    let order = PanelAction::OrderBombardment { fleet, system };
    let FollowUp::Bombard { attacker, result } = c.apply_panel_action(&order) else {
        panic!("expected a strike");
    };
    assert_eq!(attacker, Faction::Alliance);
    assert!(result.damage >= 1);
    c.settle_bombardment(system, true, result.damage, 0.25f32.to_bits(), true);
    let sys = c.world.systems.get(system).unwrap();
    assert_eq!(f32::from_bits(sys.popularity_empire), 0.25);
    assert_eq!(f32::from_bits(sys.popularity_alliance), 0.5);
    c.settle_bombardment(system, false, -2, 0.125f32.to_bits(), false);
    let sys = c.world.systems.get(system).unwrap();
    assert_eq!(f32::from_bits(sys.popularity_alliance), 0.125);
    let said = texts(&c);
    assert_eq!(said[1], "Alliance headquarters destroyed at Yavin");
    assert_eq!(said[2], "Orbital bombardment — -2 damage");
    let gone = PanelAction::OrderBombardment {
        fleet: FleetKey { slot: 9 },
        system,
    };
    assert_eq!(c.apply_panel_action(&gone), FollowUp::Done);
}

#[test]
fn the_superlaser_clears_a_system_once() {
    let mut c = campaign();
    let system = add_system(
        &mut c.world,
        "Alderaan",
        0,
        ControlKind::Controlled(Faction::Alliance),
    );
    let other = add_system(&mut c.world, "Endor", 5, ControlKind::Uncontrolled);
    let station = add_fleet(&mut c.world, system, false);
    c.world.fleets.get_mut(station).unwrap().has_death_star = true;
    let victim = add_fleet(&mut c.world, system, true);
    let bail = add_person(&mut c.world, "Bail");
    c.world.fleets.get_mut(victim).unwrap().characters = vec![bail];
    let away = add_fleet(&mut c.world, other, true);
    assert!(c.movement.order(away, other, system, 5));
    c.queues.enqueue(system, BuildableKind::Troop(TroopKey { slot: 0 }), 3);
    c.death_star.under_construction = Some(DeathStarConstruction {
        system,
        ticks_remaining: 9,
    });
    let order = PanelAction::FireDeathStar { system };
    // Not while the generator runs.
    c.apply_panel_action(&order);
    assert!(c.log.messages.is_empty());
    c.death_star.destroy_shield();
    c.apply_panel_action(&order);
    assert!(c.world.systems.get(system).unwrap().is_destroyed);
    assert!(c.world.systems.get(system).unwrap().fleets.is_empty());
    assert!(!c.world.fleets.contains_key(victim));
    assert!(c.world.characters.get(bail).unwrap().is_killed);
    assert!(!c.movement.is_in_transit(away));
    assert_eq!(c.queues.queue_len(system), 0);
    assert_eq!(c.death_star.under_construction, None);
    assert_eq!(c.death_star_location, Some(system));
    assert_eq!(
        texts(&c),
        vec![
            "Bail has been killed.",
            "Alderaan DESTROYED by Death Star superlaser!",
        ]
    );
    // A second shot does nothing.
    c.apply_panel_action(&order);
    assert_eq!(c.log.messages.len(), 2);
}

#[test]
fn the_death_star_moves_unless_it_is_there_or_under_way() {
    let mut c = campaign();
    let system = add_system(&mut c.world, "Endor", 0, ControlKind::Uncontrolled);
    let target = add_system(&mut c.world, "Yavin", 5, ControlKind::Uncontrolled);
    let order = PanelAction::MoveDeathStar { system: target };
    assert_eq!(c.apply_panel_action(&order), FollowUp::Done);
    let fleet = add_fleet(&mut c.world, system, false);
    c.death_star.death_star_fleet = Some(fleet);
    assert_eq!(
        c.apply_panel_action(&order),
        FollowUp::MoveDeathStar {
            fleet,
            origin: system,
            destination: target,
        }
    );
    c.death_star_departed(target, 20);
    let here = PanelAction::MoveDeathStar { system };
    assert_eq!(c.apply_panel_action(&here), FollowUp::Done);
    assert!(c.movement.order(fleet, system, target, 20));
    assert_eq!(c.apply_panel_action(&order), FollowUp::Done);
    assert_eq!(
        texts(&c),
        vec![
            "Death Star fleet moving to Yavin (20 days)",
            "Death Star fleet is already in transit",
        ]
    );
}

#[test]
fn days_and_speeds() {
    let mut c = campaign();
    c.apply_panel_action(&PanelAction::AdvanceTicks(30));
    assert_eq!(c.tick, 130);
    for (number, speed) in [
        (0, GameSpeed::Paused),
        (1, GameSpeed::Normal),
        (2, GameSpeed::Fast),
        (3, GameSpeed::Faster),
        (200, GameSpeed::Faster),
    ] {
        c.apply_panel_action(&PanelAction::SetGameSpeed(number));
        assert_eq!(c.speed, speed);
    }
}

#[test]
fn dual_mode_is_toggled() {
    let mut c = campaign();
    c.apply_panel_action(&PanelAction::ToggleDualAI);
    assert!(c.dual_ai_mode);
    assert_eq!(
        c.secondary_ai.as_ref().unwrap().faction,
        Some(AiFaction::Alliance)
    );
    c.apply_panel_action(&PanelAction::ToggleDualAI);
    assert!(!c.dual_ai_mode);
    assert!(c.secondary_ai.is_none());
    assert_eq!(texts(&c), vec!["Dual AI mode ENABLED", "Dual AI mode DISABLED"]);
    c.ai_faction = None;
    c.apply_panel_action(&PanelAction::ToggleDualAI);
    assert_eq!(
        c.secondary_ai.as_ref().unwrap().faction,
        Some(AiFaction::Empire)
    );
}

#[test]
fn reports_count_and_list() {
    let mut c = campaign();
    let a = add_system(
        &mut c.world,
        "Yavin",
        0,
        ControlKind::Controlled(Faction::Alliance),
    );
    add_system(
        &mut c.world,
        "Kuat",
        0,
        ControlKind::Controlled(Faction::Empire),
    );
    add_system(
        &mut c.world,
        "Fondor",
        0,
        ControlKind::Controlled(Faction::Empire),
    );
    let gone = add_system(
        &mut c.world,
        "Gone",
        0,
        ControlKind::Controlled(Faction::Empire),
    );
    c.world.systems.remove(gone);
    let fleet = add_fleet(&mut c.world, a, true);
    let mut ships = ShipInstance::make(CapitalShipKey { slot: 0 }, 1, true, 3);
    ships[0].alive = false;
    c.world.fleets.get_mut(fleet).unwrap().capital_ships = ships;
    c.world.fleets.get_mut(fleet).unwrap().fighters = vec![
        FighterEntry {
            class: FighterKey { slot: 0 },
            count: 4,
        },
        FighterEntry {
            class: FighterKey { slot: 1 },
            count: 6,
        },
    ];
    let lando = add_person(&mut c.world, "Lando");
    c.apply_panel_action(&PanelAction::ShowGameStats);
    c.apply_panel_action(&PanelAction::ListActiveFleets);
    assert_eq!(
        c.apply_panel_action(&PanelAction::ListActiveMissions),
        FollowUp::ListMissions
    );
    c.list_missions(&vec![]);
    c.list_missions(&vec![ActiveMission {
        kind: MissionKind::SubdueUprising,
        character: lando,
        target_system: gone,
    }]);
    assert_eq!(
        c.apply_panel_action(&PanelAction::ShowEventCount),
        FollowUp::CountEvents
    );
    c.show_event_count(40, 7);
    c.show_victory_check(None);
    c.show_victory_check(Some("DeathStarVictory"));
    c.show_export("game_log.jsonl");
    assert_eq!(
        texts(&c),
        vec![
            "Stats: tick 100, Alliance 1 systems, Empire 2 systems, 1 fleets, 1 characters",
            "1 fleets:",
            "  Alliance fleet at Yavin — 12 ships",
            "No active missions",
            "1 active missions:",
            "  SubdueUprising — Lando at unknown",
            "Events: 40 defined, 7 fired",
            "Victory check: no winner yet",
            "Victory check: DeathStarVictory",
            "Exported game log to game_log.jsonl",
        ]
    );
    assert_eq!(living_systems(&c.world).len(), 3);
    assert_eq!(
        c.apply_panel_action(&PanelAction::RevealAllFog),
        FollowUp::RevealFog
    );
    assert_eq!(
        c.apply_panel_action(&PanelAction::ExportGameLog),
        FollowUp::ExportLog
    );
    assert_eq!(
        c.apply_panel_action(&PanelAction::ForceVictoryCheck),
        FollowUp::CheckVictory
    );
}

#[test]
fn research_and_training() {
    let mut c = campaign();
    let who = add_person(&mut c.world, "Luke");
    let follow = c.apply_panel_action(&PanelAction::DispatchResearch {
        character: who,
        tech_type: TechType::Ship,
        faction: MissionFaction::Alliance,
    });
    assert_eq!(
        follow,
        FollowUp::PlanResearch {
            character: who,
            tech_type: TechType::Ship,
            is_alliance: true,
        }
    );
    let project = c.dispatch_research(who, TechType::Ship, true, 2, 55);
    assert_eq!(project.total_ticks, 55);
    c.apply_panel_action(&PanelAction::CancelResearch {
        tech_type: TechType::Troop,
        faction: MissionFaction::Empire,
    });
    c.apply_panel_action(&PanelAction::StartJediTraining {
        character: who,
        faction: MissionFaction::Alliance,
    });
    let follow = c.apply_panel_action(&PanelAction::StopJediTraining {
        character: CharacterKey { slot: 9 },
    });
    assert_eq!(
        follow,
        FollowUp::StopTraining {
            character: CharacterKey { slot: 9 }
        }
    );
    assert_eq!(
        texts(&c),
        vec![
            "Luke assigned to Ship research (level 2 → 3, 55 ticks)",
            "Troop research cancelled",
            "Luke begins Force training",
            "Unknown Force training stopped",
        ]
    );
}

#[test]
fn strikes_need_a_known_garrison() {
    let mut c = campaign();
    let system = add_system(
        &mut c.world,
        "Hoth",
        0,
        ControlKind::Controlled(Faction::Alliance),
    );
    let troop = c.world.troops.insert(TroopUnit {
        class_dat_id: DatId(0),
        is_alliance: true,
        regiment_strength: 40,
    });
    c.world.systems.get_mut(system).unwrap().ground_units.push(troop);
    let fleet = add_fleet(&mut c.world, system, false);
    let (_, result) = c.order_bombardment(fleet, system).unwrap();
    assert_eq!(result.tick, 100);
    // The fleet has nothing, the garrison forty: that distance is the force.
    assert!(result.damage >= 1);
}
