//! Tests of what missions, battles and orders do to a campaign.

use open_rebellion::ai::{AIAction, AIState, AiFaction, FleetMoveReason};
use open_rebellion::ai_orders::{apply_ai_action, conclude_ai_move, AiFollowUp, AiMoveEnd};
use open_rebellion::combat::{CombatSide, GroundCombatResult, TroopDamageEvent};
use open_rebellion::dat::{ExplorationStatus, Faction, SectorGroup};
use open_rebellion::ground_campaign::{
    apply_system_occupation, apply_tactical_ground_strengths, automatic_bombardment,
    close_ground_battle, ground_forces, landing_fleets, next_round, open_ground_campaign,
    report_bombardment, report_landing, GroundOpening, MAX_GROUND_ROUNDS,
};
use open_rebellion::ids::{
    CapitalShipKey, CharacterKey, DatId, FighterKey, FleetKey, SystemKey, TroopKey,
};
use open_rebellion::manufacturing::{BuildableKind, ManufacturingState};
use open_rebellion::messages::{MessageCategory, MessageLog, SfxKind, VoiceLine};
use open_rebellion::mission_effects::{apply_mission_result, calm_helps_alliance, mission_cue};
use open_rebellion::missions::{
    MissionEffect, MissionFaction, MissionKind, MissionOutcome, MissionResult,
};
use open_rebellion::research::{ResearchProject, TechType};
use open_rebellion::tactical::{
    apply_tactical_results, battle_speed, retreat_selected, BattleFighter, BattleSession,
    BattleShip,
};
use open_rebellion::world::{
    CapitalShipClass, Character, ControlKind, DefenseFacilityInstance, FighterEntry, Fleet,
    GameWorld, ManufacturingFacilityInstance, Sector, ShipInstance, System, TroopUnit,
};

fn add_system(world: &mut GameWorld, name: &str) -> SystemKey {
    let sector = world.sectors.insert(Sector {
        dat_id: DatId::new(1),
        name: "Test Sector".into(),
        group: SectorGroup::Core,
        x: 0,
        y: 0,
        systems: vec![],
    });
    world.systems.insert(System {
        dat_id: DatId::new(2),
        name: name.into(),
        sector,
        x: 0,
        y: 0,
        exploration_status: ExplorationStatus::Unexplored,
        popularity_alliance: 0.5f32.to_bits(),
        popularity_empire: 0.5f32.to_bits(),
        is_populated: true,
        total_energy: 0,
        raw_materials: 0,
        espionage_rating: 0,
        fleets: vec![],
        ground_units: vec![],
        special_forces: vec![],
        defense_facilities: vec![],
        manufacturing_facilities: vec![],
        production_facilities: vec![],
        is_headquarters: false,
        is_destroyed: false,
        control: ControlKind::Uncontrolled,
    })
}

fn add_troop(world: &mut GameWorld, system: SystemKey, is_alliance: bool, strength: i16) -> TroopKey {
    let key = world.troops.insert(TroopUnit {
        class_dat_id: DatId::new(3),
        is_alliance,
        regiment_strength: strength,
    });
    world.systems.get_mut(system).unwrap().ground_units.push(key);
    key
}

fn add_fleet(world: &mut GameWorld, system: SystemKey, is_alliance: bool) -> FleetKey {
    let key = world.fleets.insert(Fleet {
        location: system,
        capital_ships: vec![],
        fighters: vec![],
        characters: vec![],
        is_alliance,
        has_death_star: false,
    });
    world.systems.get_mut(system).unwrap().fleets.push(key);
    key
}

fn add_person(world: &mut GameWorld, name: &str, is_alliance: bool) -> CharacterKey {
    world.characters.insert(Character {
        name: name.into(),
        is_alliance,
        is_empire: !is_alliance,
        ..Default::default()
    })
}

fn last(log: &MessageLog) -> (String, MessageCategory, Option<SystemKey>) {
    let message = log.messages.last().unwrap();
    (message.text.clone(), message.category, message.system)
}

// ---------------------------------------------------------------------------
// Strengths
// ---------------------------------------------------------------------------

#[test]
fn tactical_ground_results_persist_survivor_damage_and_remove_losses() {
    let mut world = GameWorld::default();
    let system = add_system(&mut world, "Test System");
    let survivor = world.troops.insert(TroopUnit {
        class_dat_id: DatId::new(3),
        is_alliance: true,
        regiment_strength: 100,
    });
    let destroyed = world.troops.insert(TroopUnit {
        class_dat_id: DatId::new(4),
        is_alliance: false,
        regiment_strength: 100,
    });
    world.systems.get_mut(system).unwrap().ground_units = vec![survivor, destroyed];

    apply_tactical_ground_strengths(&mut world, system, &vec![(survivor, 37), (destroyed, 0)]);

    assert_eq!(world.troops.get(survivor).unwrap().regiment_strength, 37);
    assert!(!world.troops.contains_key(destroyed));
    assert_eq!(world.systems.get(system).unwrap().ground_units, vec![survivor]);
}

#[test]
fn a_spent_regiment_does_not_come_back() {
    let mut world = GameWorld::default();
    let system = add_system(&mut world, "Hoth");
    let troop = add_troop(&mut world, system, true, 50);
    apply_tactical_ground_strengths(&mut world, system, &vec![(troop, -3), (troop, 90)]);
    assert!(!world.troops.contains_key(troop));
    assert!(world.systems.get(system).unwrap().ground_units.is_empty());
}

// ---------------------------------------------------------------------------
// Missions
// ---------------------------------------------------------------------------

fn mission(
    kind: MissionKind,
    outcome: MissionOutcome,
    system: SystemKey,
    effects: Vec<MissionEffect>,
) -> MissionResult {
    MissionResult {
        kind,
        faction: MissionFaction::Alliance,
        outcome,
        target_system: system,
        tick: 9,
        effects,
    }
}

#[test]
fn missions_are_reported_by_kind_and_outcome() {
    let mut world = GameWorld::default();
    let system = add_system(&mut world, "Corellia");
    let mut log = MessageLog::new();
    let result = mission(MissionKind::SubdueUprising, MissionOutcome::Foiled, system, vec![]);
    apply_mission_result(&result, &mut world, &mut log);
    assert_eq!(
        last(&log),
        (
            "Alliance Subdue Uprising mission at Corellia was foiled".to_string(),
            MessageCategory::Diplomacy,
            Some(system)
        )
    );
    let gone = SystemKey { slot: 77 };
    let result = MissionResult {
        kind: MissionKind::Sabotage,
        faction: MissionFaction::Empire,
        outcome: MissionOutcome::Failure,
        target_system: gone,
        tick: 10,
        effects: vec![],
    };
    apply_mission_result(&result, &mut world, &mut log);
    assert_eq!(
        last(&log),
        (
            "Empire Sabotage mission at unknown failed".to_string(),
            MessageCategory::Mission,
            Some(gone)
        )
    );
    assert_eq!(log.messages.len(), 2);
    assert_eq!(log.messages[1].tick, 10);
}

#[test]
fn mission_cues_follow_outcome_and_side() {
    assert_eq!(
        mission_cue(MissionOutcome::Success, MissionFaction::Empire),
        (SfxKind::MissionSuccess, VoiceLine::EmpireMissionSuccess)
    );
    assert_eq!(
        mission_cue(MissionOutcome::Foiled, MissionFaction::Alliance),
        (SfxKind::MissionFail, VoiceLine::AllianceMissionFail)
    );
}

#[test]
fn support_and_exploration_change() {
    let mut world = GameWorld::default();
    let system = add_system(&mut world, "Naboo");
    let mut log = MessageLog::new();
    let result = mission(
        MissionKind::Diplomacy,
        MissionOutcome::Success,
        system,
        vec![
            MissionEffect::PopularityShifted {
                system,
                faction: MissionFaction::Alliance,
                support: 0.75f32.to_bits(),
            },
            MissionEffect::SystemIntelligenceGathered { system },
        ],
    );
    apply_mission_result(&result, &mut world, &mut log);
    let sys = world.systems.get(system).unwrap();
    assert_eq!(f32::from_bits(sys.popularity_alliance), 0.75);
    assert_eq!(f32::from_bits(sys.popularity_empire), 0.5);
    assert_eq!(sys.exploration_status, ExplorationStatus::Explored);
    assert!(calm_helps_alliance(ControlKind::Controlled(Faction::Alliance)));
    assert!(!calm_helps_alliance(ControlKind::Contested));
    let result = mission(
        MissionKind::InciteUprising,
        MissionOutcome::Success,
        system,
        vec![MissionEffect::UprisingStarted {
            system,
            alliance_support: 1,
            empire_support: 2,
        }],
    );
    apply_mission_result(&result, &mut world, &mut log);
    let sys = world.systems.get(system).unwrap();
    assert_eq!((sys.popularity_alliance, sys.popularity_empire), (1, 2));
}

#[test]
fn sabotage_counts_yards_before_defenses() {
    let mut world = GameWorld::default();
    let system = add_system(&mut world, "Kuat");
    let yard = world.manufacturing_facilities.insert(ManufacturingFacilityInstance {
        class_dat_id: DatId(1),
        is_alliance: false,
        is_shipyard: true,
    });
    let wall = world.defense_facilities.insert(DefenseFacilityInstance {
        class_dat_id: DatId(2),
        is_alliance: false,
    });
    world.systems.get_mut(system).unwrap().manufacturing_facilities = vec![yard];
    world.systems.get_mut(system).unwrap().defense_facilities = vec![wall];
    let mut log = MessageLog::new();
    let strike = |index| {
        mission(
            MissionKind::Sabotage,
            MissionOutcome::Success,
            system,
            vec![MissionEffect::FacilitySabotaged {
                system,
                facility_index: index,
                ticks_lost: 3,
            }],
        )
    };
    apply_mission_result(&strike(2), &mut world, &mut log);
    assert!(world.manufacturing_facilities.contains_key(yard));
    assert!(world.defense_facilities.contains_key(wall));
    apply_mission_result(&strike(1), &mut world, &mut log);
    assert!(!world.defense_facilities.contains_key(wall));
    assert!(world.systems.get(system).unwrap().defense_facilities.is_empty());
    apply_mission_result(&strike(0), &mut world, &mut log);
    assert!(!world.manufacturing_facilities.contains_key(yard));
    assert!(world.systems.get(system).unwrap().manufacturing_facilities.is_empty());
}

#[test]
fn captives_keep_their_side_and_leave_their_fleet() {
    let mut world = GameWorld::default();
    let system = add_system(&mut world, "Bespin");
    let han = add_person(&mut world, "Han Solo", true);
    let chewie = add_person(&mut world, "Chewbacca", true);
    let fleet = add_fleet(&mut world, system, true);
    world.fleets.get_mut(fleet).unwrap().characters = vec![han, chewie];
    let mut log = MessageLog::new();
    let result = mission(
        MissionKind::Abduction,
        MissionOutcome::Success,
        system,
        vec![MissionEffect::CharacterCaptured {
            character: han,
            captured_by: MissionFaction::Empire,
        }],
    );
    apply_mission_result(&result, &mut world, &mut log);
    let c = world.characters.get(han).unwrap();
    assert!(c.is_captive && c.is_alliance && !c.is_empire);
    assert_eq!(c.captured_by, Some(Faction::Empire));
    assert_eq!(c.capture_tick, Some(9));
    assert_eq!(world.fleets.get(fleet).unwrap().characters, vec![chewie]);

    let result = mission(
        MissionKind::Rescue,
        MissionOutcome::Success,
        system,
        vec![MissionEffect::CharacterRescued {
            character: han,
            returned_to: MissionFaction::Alliance,
        }],
    );
    apply_mission_result(&result, &mut world, &mut log);
    let c = world.characters.get(han).unwrap();
    assert!(!c.is_captive && c.captured_by.is_none() && c.capture_tick.is_none());
}

#[test]
fn the_killed_leave_the_world() {
    let mut world = GameWorld::default();
    let system = add_system(&mut world, "Endor");
    let who = add_person(&mut world, "Bib Fortuna", false);
    let fleet = add_fleet(&mut world, system, false);
    world.fleets.get_mut(fleet).unwrap().characters = vec![who];
    let mut log = MessageLog::new();
    let result = mission(
        MissionKind::Assassination,
        MissionOutcome::Success,
        system,
        vec![MissionEffect::CharacterKilled { character: who }],
    );
    apply_mission_result(&result, &mut world, &mut log);
    assert!(!world.characters.contains_key(who));
    assert!(world.fleets.get(fleet).unwrap().characters.is_empty());
}

#[test]
fn effects_that_are_told() {
    let mut world = GameWorld::default();
    let system = add_system(&mut world, "Bothawui");
    let spy = add_person(&mut world, "Borsk", true);
    let mut log = MessageLog::new();
    let result = mission(
        MissionKind::Espionage,
        MissionOutcome::Foiled,
        system,
        vec![
            MissionEffect::DecoyTriggered {
                system,
                decoy_character: spy,
            },
            MissionEffect::CharacterEscaped {
                character: spy,
                escaped_to_alliance: false,
            },
            MissionEffect::DeathStarSabotaged { ticks_delayed: 12 },
            MissionEffect::CharacterBusy { character: spy },
            MissionEffect::CharacterRecruited {
                character: spy,
                faction: MissionFaction::Empire,
            },
        ],
    );
    apply_mission_result(&result, &mut world, &mut log);
    let texts: Vec<&str> = log.messages.iter().map(|m| m.text.as_str()).collect();
    assert_eq!(
        texts,
        vec![
            "Alliance Espionage mission at Bothawui was foiled",
            "Mission intercepted by decoy Borsk at Bothawui",
            "Borsk has escaped captivity!",
            "Death Star construction sabotaged! 12 ticks delayed.",
        ]
    );
    let c = world.characters.get(spy).unwrap();
    assert!(c.is_empire && !c.is_alliance && c.on_mission);
    let result = mission(
        MissionKind::Espionage,
        MissionOutcome::Success,
        system,
        vec![MissionEffect::CharacterAvailable { character: spy }],
    );
    apply_mission_result(&result, &mut world, &mut log);
    assert!(!world.characters.get(spy).unwrap().on_mission);
}

// ---------------------------------------------------------------------------
// Landings, bombardment, occupation
// ---------------------------------------------------------------------------

#[test]
fn only_loaded_fleets_of_the_side_land() {
    let mut world = GameWorld::default();
    let system = add_system(&mut world, "Sullust");
    let a = add_fleet(&mut world, system, true);
    let b = add_fleet(&mut world, system, false);
    let c = add_fleet(&mut world, system, true);
    let stale = FleetKey { slot: 50 };
    assert_eq!(landing_fleets(&world, &vec![a, b, stale], system, true), vec![a]);
    assert_eq!(landing_fleets(&world, &vec![c, a], system, true), vec![a, c]);
    assert!(landing_fleets(&world, &vec![a], SystemKey { slot: 9 }, true).is_empty());
    let mut log = MessageLog::new();
    report_landing(&world, system, 0, 4, &mut log);
    assert!(log.messages.is_empty());
    report_landing(&world, system, 3, 4, &mut log);
    assert_eq!(
        last(&log),
        (
            "3 regiment(s) landed at Sullust".to_string(),
            MessageCategory::Combat,
            Some(system)
        )
    );
}

#[test]
fn automatic_bombardment_needs_fleet_and_system() {
    let mut world = GameWorld::default();
    let system = add_system(&mut world, "Yavin");
    let class = world.capital_ship_classes.insert(CapitalShipClass {
        bombardment_modifier: 30,
        maneuverability: 3,
        ..CapitalShipClass::default()
    });
    let fleet = add_fleet(&mut world, system, false);
    world.fleets.get_mut(fleet).unwrap().capital_ships =
        ShipInstance::make(class, 100, false, 1);
    assert!(automatic_bombardment(&world, FleetKey { slot: 5 }, system, 1).is_none());
    assert!(automatic_bombardment(&world, fleet, SystemKey { slot: 5 }, 1).is_none());
    let (attacker, result) = automatic_bombardment(&world, fleet, system, 8).unwrap();
    assert_eq!(attacker, Faction::Empire);
    assert_eq!((result.system, result.tick), (system, 8));
    assert!(result.damage >= 1);
    let mut log = MessageLog::new();
    report_bombardment(&world, system, 0, false, 8, &mut log);
    assert!(log.messages.is_empty());
    report_bombardment(&world, system, 17, true, 8, &mut log);
    let texts: Vec<&str> = log.messages.iter().map(|m| m.text.as_str()).collect();
    assert_eq!(
        texts,
        vec![
            "Orbital bombardment at Yavin — 17 damage",
            "Alliance headquarters destroyed at Yavin",
        ]
    );
}

#[test]
fn occupation_takes_the_system_and_the_enemies_there() {
    let mut world = GameWorld::default();
    let system = add_system(&mut world, "Ord Mantell");
    let enemy = add_person(&mut world, "Tarkin", false);
    let friend = add_person(&mut world, "Ackbar", true);
    let away = add_person(&mut world, "Piett", false);
    let dead = add_person(&mut world, "Ozzel", false);
    let fleet = FleetKey { slot: 0 };
    for key in [enemy, friend, dead] {
        let c = world.characters.get_mut(key).unwrap();
        c.current_system = Some(system);
        c.current_fleet = Some(fleet);
    }
    world.characters.get_mut(dead).unwrap().is_killed = true;
    let mut log = MessageLog::new();
    apply_system_occupation(&mut world, system, Faction::Alliance, 21, &mut log);
    assert_eq!(
        world.systems.get(system).unwrap().control,
        ControlKind::Controlled(Faction::Alliance)
    );
    assert_eq!(last(&log).0, "Ord Mantell occupied by Alliance");
    let c = world.characters.get(enemy).unwrap();
    assert!(c.is_captive && c.is_empire);
    assert_eq!(c.captured_by, Some(Faction::Alliance));
    assert_eq!(c.capture_tick, Some(21));
    assert_eq!(c.current_fleet, None);
    for key in [friend, away, dead] {
        assert!(!world.characters.get(key).unwrap().is_captive);
    }
    // A second time nothing is told, and whoever was taken stays as taken.
    apply_system_occupation(&mut world, system, Faction::Alliance, 21, &mut log);
    assert_eq!(log.messages.len(), 1);
    assert_eq!(world.characters.get(enemy).unwrap().capture_tick, Some(21));
}

#[test]
fn a_ground_campaign_opens_by_who_is_there() {
    let mut world = GameWorld::default();
    let system = add_system(&mut world, "Dantooine");
    assert_eq!(open_ground_campaign(&world, system, 2), GroundOpening::Quiet);
    add_troop(&mut world, system, true, 10);
    add_troop(&mut world, system, false, 0);
    assert_eq!(ground_forces(&world, system), (1, 0));
    assert_eq!(open_ground_campaign(&world, system, 0), GroundOpening::Quiet);
    assert_eq!(
        open_ground_campaign(&world, system, 1),
        GroundOpening::Unopposed(Faction::Alliance)
    );
    add_troop(&mut world, system, false, 1);
    assert_eq!(open_ground_campaign(&world, system, 0), GroundOpening::Battle);
}

#[test]
fn ground_rounds_stop_at_a_winner_a_standstill_or_the_limit() {
    let round = |winner, before, after| GroundCombatResult {
        system: SystemKey { slot: 0 },
        winner,
        troop_damage: vec![TroopDamageEvent {
            troop: TroopKey { slot: 0 },
            strength_before: before,
            strength_after: after,
        }],
        tick: 1,
    };
    assert!(next_round(&round(CombatSide::Draw, 10, 9), 1));
    assert!(!next_round(&round(CombatSide::Draw, 10, 10), 1));
    assert!(!next_round(&round(CombatSide::Attacker, 10, 9), 1));
    assert!(next_round(&round(CombatSide::Draw, 10, 9), MAX_GROUND_ROUNDS - 1));
    assert!(!next_round(&round(CombatSide::Draw, 10, 9), MAX_GROUND_ROUNDS));
}

#[test]
fn a_ground_battle_ends_with_an_occupier() {
    let mut world = GameWorld::default();
    let system = add_system(&mut world, "Hoth");
    let mut log = MessageLog::new();
    let occupier =
        close_ground_battle(&world, system, CombatSide::Defender, 12, true, 3, &mut log);
    assert_eq!(occupier, Some(Faction::Empire));
    assert_eq!(last(&log).0, "Ground battle at Hoth: Defender after 12 round(s)");
    let nobody = close_ground_battle(&world, system, CombatSide::Draw, 256, true, 3, &mut log);
    assert_eq!(nobody, None);
    let winner = close_ground_battle(&world, system, CombatSide::Attacker, 1, true, 3, &mut log);
    assert_eq!(winner, Some(Faction::Alliance));
}

// ---------------------------------------------------------------------------
// Tactical battles
// ---------------------------------------------------------------------------

fn ship(is_attacker: bool, alive: bool, retreated: bool, index: usize) -> BattleShip {
    BattleShip {
        is_attacker,
        retreated,
        alive,
        selected: false,
        retreating: false,
        fleet_ship_index: index,
    }
}

#[test]
fn tactical_losses_are_written_back() {
    let mut world = GameWorld::default();
    let system = add_system(&mut world, "Endor");
    let class = CapitalShipKey { slot: 0 };
    let wing = FighterKey { slot: 4 };
    let attacker = add_fleet(&mut world, system, true);
    let defender = add_fleet(&mut world, system, false);
    let mut ships = ShipInstance::make(class, 100, true, 4);
    ships[1].alive = false;
    for (i, ship) in ships.iter_mut().enumerate() {
        ship.hull_current = i as i32;
    }
    world.fleets.get_mut(attacker).unwrap().capital_ships = ships;
    world.fleets.get_mut(attacker).unwrap().fighters = vec![FighterEntry {
        class: wing,
        count: 6,
    }];
    world.fleets.get_mut(defender).unwrap().capital_ships =
        ShipInstance::make(class, 100, false, 1);
    let session = BattleSession {
        attacker_fleet: attacker,
        defender_fleet: defender,
        ships: vec![
            ship(true, true, false, 0),
            ship(true, false, false, 1),
            ship(true, false, true, 2),
            ship(false, false, false, 0),
        ],
        fighters: vec![BattleFighter {
            is_attacker: true,
            class_key: wing,
            squad_count: 2,
        }],
    };
    apply_tactical_results(&session, &mut world);
    // The dead hull goes, the second living one was lost, the third retreated.
    let fleet = world.fleets.get(attacker).unwrap();
    let hulls: Vec<i32> = fleet.capital_ships.iter().map(|s| s.hull_current).collect();
    assert_eq!(hulls, vec![0, 3]);
    assert_eq!(fleet.fighters[0].count, 2);
    // Nothing is left of the defender.
    assert!(!world.fleets.contains_key(defender));
    assert_eq!(world.systems.get(system).unwrap().fleets, vec![attacker]);
}

#[test]
fn no_losses_change_nothing() {
    let mut world = GameWorld::default();
    let system = add_system(&mut world, "Endor");
    let class = CapitalShipKey { slot: 0 };
    let attacker = add_fleet(&mut world, system, true);
    let defender = add_fleet(&mut world, system, false);
    let ships = ShipInstance::make(class, 100, true, 3);
    world.fleets.get_mut(attacker).unwrap().capital_ships = ships.clone();
    world.fleets.get_mut(defender).unwrap().capital_ships = ships.clone();
    let session = BattleSession {
        attacker_fleet: attacker,
        defender_fleet: defender,
        ships: vec![],
        fighters: vec![],
    };
    apply_tactical_results(&session, &mut world);
    assert_eq!(world.fleets.get(attacker).unwrap().capital_ships, ships);
    assert_eq!(world.fleets.get(defender).unwrap().capital_ships, ships);
}

#[test]
fn only_picked_living_ships_of_the_player_retreat() {
    let mut session = BattleSession {
        attacker_fleet: FleetKey { slot: 0 },
        defender_fleet: FleetKey { slot: 1 },
        ships: vec![
            ship(true, true, false, 0),
            ship(true, false, false, 1),
            ship(false, true, false, 0),
            ship(true, true, false, 2),
        ],
        fighters: vec![],
    };
    for i in 0..3 {
        session.ships[i].selected = true;
    }
    retreat_selected(&mut session, true);
    let turned: Vec<bool> = session.ships.iter().map(|s| s.retreating).collect();
    assert_eq!(turned, vec![true, false, false, false]);
    let picked: Vec<bool> = session.ships.iter().map(|s| s.selected).collect();
    assert_eq!(picked, vec![false, true, true, false]);
    assert_eq!((battle_speed(0), battle_speed(3), battle_speed(9)), (1, 3, 4));
}

// ---------------------------------------------------------------------------
// Orders of the computer player
// ---------------------------------------------------------------------------

#[test]
fn ai_missions_and_research_keep_people_busy() {
    let mut world = GameWorld::default();
    let system = add_system(&mut world, "Fondor");
    let spy = add_person(&mut world, "Mara", false);
    let mut state = AIState::new(AiFaction::Empire);
    let mut queues = ManufacturingState::new();
    let mut log = MessageLog::new();
    let order = AIAction::DispatchMission {
        kind: MissionKind::InciteUprising,
        character: spy,
        target_system: system,
        target_character: None,
        duration_percent: 50,
    };
    let follow = apply_ai_action(&order, &mut state, &mut queues, &world, 6, &mut log);
    assert_eq!(
        follow,
        AiFollowUp::DispatchMission {
            kind: MissionKind::InciteUprising,
            faction: MissionFaction::Empire,
            character: spy,
            target_system: system,
            target_character: None,
            duration_percent: 50,
        }
    );
    assert!(state.is_busy(spy));
    assert_eq!(last(&log).0, "Empire dispatched InciteUprising mission");
    assert_eq!(last(&log).1, MessageCategory::Ai);

    let order = AIAction::DispatchResearch {
        character: spy,
        tech_type: TechType::Facility,
        ticks: 40,
    };
    let follow = apply_ai_action(&order, &mut state, &mut queues, &world, 6, &mut log);
    assert_eq!(
        follow,
        AiFollowUp::Research(ResearchProject {
            tech_type: TechType::Facility,
            character: spy,
            faction_is_alliance: false,
            ticks_remaining: 40,
            total_ticks: 40,
        })
    );
    assert_eq!(last(&log).0, "Mara assigned to Facility research (40 ticks)");

    let order = AIAction::EnqueueProduction {
        system,
        kind: BuildableKind::Troop(TroopKey { slot: 0 }),
        ticks: 15,
    };
    let follow = apply_ai_action(&order, &mut state, &mut queues, &world, 6, &mut log);
    assert_eq!(follow, AiFollowUp::Done);
    assert_eq!(queues.queue_len(system), 1);
    assert_eq!(log.messages.len(), 2);
}

#[test]
fn ai_moves_end_in_departure_or_unloading() {
    let mut world = GameWorld::default();
    let system = add_system(&mut world, "Fondor");
    let target = add_system(&mut world, "Ralltiir");
    let fleet = add_fleet(&mut world, system, false);
    let mut state = AIState::new(AiFaction::Empire);
    let mut queues = ManufacturingState::new();
    let mut log = MessageLog::new();
    let order = AIAction::MoveFleet {
        fleet,
        to_system: target,
        reason: FleetMoveReason::Attack,
        troops: vec![TroopKey { slot: 0 }, TroopKey { slot: 1 }],
    };
    let follow = apply_ai_action(&order, &mut state, &mut queues, &world, 6, &mut log);
    assert_eq!(
        follow,
        AiFollowUp::Depart {
            fleet,
            to_system: target,
            is_alliance: false,
            embark: true,
        }
    );
    let end = conclude_ai_move(
        &world,
        fleet,
        target,
        false,
        FleetMoveReason::Attack,
        2,
        true,
        true,
        6,
        &mut log,
    );
    assert_eq!(end, AiMoveEnd::Announce(VoiceLine::EmpireFleetDeparts));
    assert_eq!(
        last(&log).0,
        "Empire fleet moving to system (attack) with 2 regiment(s)"
    );
    let end = conclude_ai_move(
        &world,
        fleet,
        target,
        true,
        FleetMoveReason::Reinforce,
        0,
        true,
        true,
        6,
        &mut log,
    );
    assert_eq!(end, AiMoveEnd::Announce(VoiceLine::AllianceFleetDeparts));
    assert_eq!(last(&log).0, "Alliance fleet moving to system (reinforce)");
    let end = conclude_ai_move(
        &world,
        fleet,
        target,
        false,
        FleetMoveReason::Attack,
        2,
        true,
        false,
        6,
        &mut log,
    );
    assert_eq!(end, AiMoveEnd::Unload(system));
    let end = conclude_ai_move(
        &world,
        fleet,
        target,
        false,
        FleetMoveReason::Attack,
        2,
        false,
        false,
        6,
        &mut log,
    );
    assert_eq!(end, AiMoveEnd::Stay);
    assert_eq!(log.messages.len(), 2);
    let gone = AIAction::MoveFleet {
        fleet: FleetKey { slot: 40 },
        to_system: target,
        reason: FleetMoveReason::Attack,
        troops: vec![],
    };
    let follow = apply_ai_action(&gone, &mut state, &mut queues, &world, 6, &mut log);
    assert_eq!(follow, AiFollowUp::Done);
}
