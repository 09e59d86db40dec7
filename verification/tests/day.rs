//! Tests of the events of a day and of meetings in orbit.

use std::collections::{HashMap, HashSet};

use open_rebellion::betrayal::BetrayalEvent;
use open_rebellion::combat::CombatSide;
use open_rebellion::dat::{ExplorationStatus, Faction, SectorGroup};
use open_rebellion::day_events::{
    apply_betrayal, apply_discovery, apply_economy_event, apply_escape, apply_repair, apply_tier,
    apply_uprising, destroy_blockaded_troop, luke_knows_heritage, report_death_star, report_news,
    report_tech, EconomyEvent, SystemNews,
};
use open_rebellion::death_star::DeathStarEvent;
use open_rebellion::ids::{CapitalShipKey, CharacterKey, DatId, FleetKey, SystemKey, TroopKey};
use open_rebellion::messages::{MessageCategory, MessageLog};
use open_rebellion::missions::MissionFaction;
use open_rebellion::orbit::{
    aftermath, combat_triggers, continuing_ground_battles, find_headquarters,
    headquarters_bombarder, landing_party, landing_targets, player_part, player_won_battle,
    report_battle, report_ground_battle, report_tactical_start, watched_headquarters, Aftermath,
    BattleStyle,
};
use open_rebellion::research::TechType;
use open_rebellion::world::{
    Character, ControlKind, Fleet, ForceTier, GameWorld, Sector, ShipInstance, System, TroopUnit,
};

fn add_system(world: &mut GameWorld, name: &str, control: ControlKind) -> SystemKey {
    let sector = world.sectors.insert(Sector {
        dat_id: DatId::new(1),
        name: "Core".into(),
        group: SectorGroup::Core,
        x: 0,
        y: 0,
        systems: vec![],
    });
    world.systems.insert(System {
        dat_id: DatId::new(2),
        name: name.into(),
        sector,
        x: 0,
        y: 0,
        exploration_status: ExplorationStatus::Explored,
        popularity_alliance: 1,
        popularity_empire: 2,
        is_populated: true,
        total_energy: 0,
        raw_materials: 0,
        espionage_rating: 0,
        fleets: vec![],
        ground_units: vec![],
        special_forces: vec![],
        defense_facilities: vec![],
        manufacturing_facilities: vec![],
        production_facilities: vec![],
        is_headquarters: false,
        is_destroyed: false,
        control,
    })
}

fn add_fleet(world: &mut GameWorld, system: SystemKey, is_alliance: bool) -> FleetKey {
    let key = world.fleets.insert(Fleet {
        location: system,
        capital_ships: vec![],
        fighters: vec![],
        characters: vec![],
        is_alliance,
        has_death_star: false,
    });
    world.systems.get_mut(system).unwrap().fleets.push(key);
    key
}

fn add_troop(world: &mut GameWorld, system: SystemKey, is_alliance: bool, strength: i16) -> TroopKey {
    let key = world.troops.insert(TroopUnit {
        class_dat_id: DatId::new(3),
        is_alliance,
        regiment_strength: strength,
    });
    world.systems.get_mut(system).unwrap().ground_units.push(key);
    key
}

fn add_person(world: &mut GameWorld, name: &str, is_alliance: bool) -> CharacterKey {
    world.characters.insert(Character {
        name: name.into(),
        is_alliance,
        is_empire: !is_alliance,
        ..Default::default()
    })
}

fn texts(log: &MessageLog) -> Vec<&str> {
    log.messages.iter().map(|m| m.text.as_str()).collect()
}

// ---------------------------------------------------------------------------
// The events of a day
// ---------------------------------------------------------------------------

#[test]
fn the_economy_drifts_and_tells() {
    let mut world = GameWorld::default();
    let system = add_system(&mut world, "Kessel", ControlKind::Uncontrolled);
    let mut log = MessageLog::new();
    let events = [
        EconomyEvent::SupportDrifted {
            system,
            alliance_support: 7,
            empire_support: 8,
        },
        EconomyEvent::ControlResolved {
            system,
            new_control: ControlKind::Contested,
        },
        EconomyEvent::NaturalDisaster { system },
        EconomyEvent::ResourceDiscovered {
            system,
            new_output: 12,
        },
        EconomyEvent::MaintenanceShortfall {
            faction_is_alliance: false,
            deficit_system_count: 4,
        },
    ];
    for event in &events {
        apply_economy_event(event, &mut world, 3, &mut log);
    }
    let sys = world.systems.get(system).unwrap();
    assert_eq!((sys.popularity_alliance, sys.popularity_empire), (7, 8));
    assert_eq!(sys.control, ControlKind::Contested);
    assert_eq!(
        texts(&log),
        vec![
            "Natural disaster strikes Kessel",
            "New resources discovered at Kessel (12 units)",
            "Empire reports maintenance shortfall across 4 systems",
        ]
    );
}

#[test]
fn news_name_their_system() {
    let mut world = GameWorld::default();
    let system = add_system(&mut world, "Kessel", ControlKind::Uncontrolled);
    let mut log = MessageLog::new();
    for news in [
        SystemNews::ConstructionComplete,
        SystemNews::ManufacturingIdle,
        SystemNews::FleetArrived,
        SystemNews::Revealed,
        SystemNews::AllianceForceLanded,
        SystemNews::ImperialForceLanded,
        SystemNews::BlockadeStarted,
        SystemNews::BlockadeEnded,
        SystemNews::UprisingIncident,
        SystemNews::UprisingSubdued,
    ] {
        report_news(news, system, &world, 5, &mut log);
    }
    report_death_star(
        &DeathStarEvent::ConstructionCompleted { system, tick: 6 },
        &world,
        &mut log,
    );
    report_death_star(
        &DeathStarEvent::NearbyWarning {
            system: SystemKey { slot: 8 },
            tick: 7,
        },
        &world,
        &mut log,
    );
    assert_eq!(
        texts(&log),
        vec![
            "Construction complete at Kessel",
            "Manufacturing queue idle at Kessel",
            "Fleet arrived at Kessel",
            "System Kessel revealed",
            "Alliance special force lands at Kessel",
            "Imperial special force lands at Kessel",
            "Blockade established at Kessel",
            "Blockade lifted at Kessel",
            "Uprising incident at Kessel",
            "Uprising subdued at Kessel",
            "Death Star construction complete at Kessel",
            "Death Star detected near unknown!",
        ]
    );
    assert_eq!(log.messages[0].category, MessageCategory::Manufacturing);
    assert_eq!(log.messages[11].tick, 7);
}

#[test]
fn blockades_destroy_and_yards_repair() {
    let mut world = GameWorld::default();
    let system = add_system(&mut world, "Kessel", ControlKind::Uncontrolled);
    let a = add_troop(&mut world, system, true, 10);
    let b = add_troop(&mut world, system, true, 10);
    let mut log = MessageLog::new();
    destroy_blockaded_troop(system, a, &mut world, 2, &mut log);
    assert!(!world.troops.contains_key(a));
    assert_eq!(world.systems.get(system).unwrap().ground_units, vec![b]);
    assert_eq!(texts(&log), vec!["Troops destroyed by blockade at Kessel"]);
    let fleet = add_fleet(&mut world, system, true);
    world.fleets.get_mut(fleet).unwrap().capital_ships =
        ShipInstance::make(CapitalShipKey { slot: 0 }, 10, true, 2);
    apply_repair(fleet, 1, 77, &mut world);
    apply_repair(fleet, 2, 99, &mut world);
    apply_repair(FleetKey { slot: 12 }, 0, 99, &mut world);
    let hulls: Vec<i32> = world
        .fleets
        .get(fleet)
        .unwrap()
        .capital_ships
        .iter()
        .map(|s| s.hull_current)
        .collect();
    assert_eq!(hulls, vec![10, 77]);
}

#[test]
fn uprisings_change_hands_and_back() {
    let mut world = GameWorld::default();
    let system = add_system(
        &mut world,
        "Ryloth",
        ControlKind::Controlled(Faction::Empire),
    );
    let mut log = MessageLog::new();
    assert!(apply_uprising(system, MissionFaction::Alliance, &mut world, 1, &mut log));
    assert_eq!(
        world.systems.get(system).unwrap().control,
        ControlKind::Controlled(Faction::Alliance)
    );
    assert!(!apply_uprising(system, MissionFaction::Alliance, &mut world, 1, &mut log));
    assert_eq!(
        world.systems.get(system).unwrap().control,
        ControlKind::Controlled(Faction::Empire)
    );
    assert_eq!(texts(&log)[0], "Uprising! Ryloth has changed hands");
    let neutral = add_system(&mut world, "Tatooine", ControlKind::Contested);
    assert!(!apply_uprising(neutral, MissionFaction::Empire, &mut world, 1, &mut log));
    assert_eq!(
        world.systems.get(neutral).unwrap().control,
        ControlKind::Contested
    );
}

#[test]
fn people_change_sides() {
    let mut world = GameWorld::default();
    let system = add_system(&mut world, "Bespin", ControlKind::Uncontrolled);
    let lando = add_person(&mut world, "Lando", true);
    let fleet = add_fleet(&mut world, system, true);
    world.fleets.get_mut(fleet).unwrap().characters = vec![lando];
    let mut log = MessageLog::new();
    let event = BetrayalEvent::CharacterBetrayed {
        character: lando,
        defected_to_alliance: false,
    };
    apply_betrayal(&event, &mut world, 4, &mut log);
    let c = world.characters.get(lando).unwrap();
    assert!(c.is_empire && !c.is_alliance);
    assert!(world.fleets.get(fleet).unwrap().characters.is_empty());
    world.characters.get_mut(lando).unwrap().is_captive = true;
    apply_escape(lando, true, &mut world, 5, &mut log);
    let c = world.characters.get(lando).unwrap();
    assert!(c.is_alliance && !c.is_captive);
    assert_eq!(
        texts(&log),
        vec![
            "Lando has betrayed and defected to the Empire!",
            "Lando has escaped captivity!",
        ]
    );
}

#[test]
fn technology_and_the_force_advance() {
    let mut world = GameWorld::default();
    let luke = add_person(&mut world, "Luke Skywalker", true);
    let mut log = MessageLog::new();
    report_tech(true, TechType::Troop, 3, 9, &mut log);
    apply_tier(luke, ForceTier::Training, 50, 200, &mut world, 9, &mut log);
    assert_eq!(world.characters.get(luke).unwrap().force_experience, 50);
    apply_tier(luke, ForceTier::Experienced, 50, 200, &mut world, 9, &mut log);
    let c = world.characters.get(luke).unwrap();
    assert_eq!((c.force_tier, c.force_experience), (ForceTier::Experienced, 200));
    apply_discovery(luke, &mut world, 9, &mut log);
    assert!(world.characters.get(luke).unwrap().is_discovered_jedi);
    assert_eq!(
        texts(&log),
        vec![
            "Alliance Troop tech advanced to level 3",
            "Luke Skywalker has reached Jedi Training tier",
            "Luke Skywalker has reached Jedi Knight tier",
            "Luke Skywalker's Force sensitivity discovered!",
        ]
    );
    assert!(!luke_knows_heritage(&world));
    world.characters.get_mut(luke).unwrap().heritage_known = true;
    assert!(luke_knows_heritage(&world));
}

// ---------------------------------------------------------------------------
// Orbit
// ---------------------------------------------------------------------------

#[test]
fn one_side_alone_lands() {
    let mut world = GameWorld::default();
    let a = add_system(&mut world, "A", ControlKind::Uncontrolled);
    let b = add_system(&mut world, "B", ControlKind::Uncontrolled);
    let c = add_system(&mut world, "C", ControlKind::Uncontrolled);
    let fa = add_fleet(&mut world, a, true);
    let fb = add_fleet(&mut world, b, false);
    let fc = add_fleet(&mut world, c, true);
    add_fleet(&mut world, c, false);
    assert_eq!(
        landing_targets(&world, &vec![fa, fb, fc]),
        vec![(a, true), (b, false)]
    );
    assert!(landing_targets(&world, &vec![]).is_empty());
    assert_eq!(headquarters_bombarder(&world, &vec![fb], b, false, b), Some(fb));
    assert_eq!(headquarters_bombarder(&world, &vec![fb], b, false, a), None);
    assert_eq!(headquarters_bombarder(&world, &vec![], b, false, b), None);
    assert_eq!(headquarters_bombarder(&world, &vec![fa], a, true, a), None);
}

#[test]
fn battles_pause_for_five_days() {
    let mut world = GameWorld::default();
    let system = add_system(&mut world, "A", ControlKind::Uncontrolled);
    let e = add_fleet(&mut world, system, false);
    let a = add_fleet(&mut world, system, true);
    add_fleet(&mut world, system, true);
    let mut cooldowns = HashMap::new();
    assert_eq!(combat_triggers(&world, &cooldowns, 10), vec![(system, a, e)]);
    cooldowns.insert(system.slot, 10);
    for day in 10..15 {
        assert!(combat_triggers(&world, &cooldowns, day).is_empty());
    }
    assert_eq!(combat_triggers(&world, &cooldowns, 15).len(), 1);
    assert_eq!(player_part(&world, a, e, MissionFaction::Alliance), Some(true));
    assert_eq!(player_part(&world, a, e, MissionFaction::Empire), Some(false));
    assert_eq!(player_part(&world, a, a, MissionFaction::Empire), None);
}

#[test]
fn battles_are_told() {
    let mut world = GameWorld::default();
    let system = add_system(&mut world, "Endor", ControlKind::Uncontrolled);
    let mut log = MessageLog::new();
    report_tactical_start(&world, system, 1, &mut log);
    report_battle("Endor", system, CombatSide::Attacker, BattleStyle::Unseen, 1, &mut log);
    report_battle(
        "Endor",
        system,
        CombatSide::Defender,
        BattleStyle::AutoResolved,
        1,
        &mut log,
    );
    report_battle("Endor", system, CombatSide::Defender, BattleStyle::Tactical, 1, &mut log);
    report_ground_battle("Endor", system, CombatSide::Draw, 1, &mut log);
    assert_eq!(
        texts(&log),
        vec![
            "Battle at Endor — entering tactical combat!",
            "Space battle at Endor — Alliance victory",
            "Space battle at Endor — Empire victory (auto-resolved)",
            "Space battle at Endor — Defender victory (tactical)",
            "Ground battle at Endor — Ground combat draw",
        ]
    );
    assert!(player_won_battle(CombatSide::Attacker, true));
    assert!(player_won_battle(CombatSide::Defender, false));
    assert!(!player_won_battle(CombatSide::Draw, true));
    let (x, y) = (FleetKey { slot: 1 }, FleetKey { slot: 2 });
    assert_eq!(landing_party(CombatSide::Attacker, x, y), Some(x));
    assert_eq!(landing_party(CombatSide::Defender, x, y), Some(y));
    assert_eq!(landing_party(CombatSide::Draw, x, y), None);
}

#[test]
fn ground_battles_go_on() {
    let mut world = GameWorld::default();
    let a = add_system(&mut world, "A", ControlKind::Uncontrolled);
    let b = add_system(&mut world, "B", ControlKind::Uncontrolled);
    for system in [a, b] {
        add_troop(&mut world, system, true, 5);
        add_troop(&mut world, system, false, 5);
    }
    add_fleet(&mut world, b, false);
    let mut resolved = HashSet::new();
    assert_eq!(
        continuing_ground_battles(&world, &resolved),
        vec![(a, true), (b, false)]
    );
    resolved.insert(a.slot);
    assert_eq!(continuing_ground_battles(&world, &resolved), vec![(b, false)]);
}

#[test]
fn a_won_orbit_leads_to_the_ground() {
    let mut world = GameWorld::default();
    let system = add_system(&mut world, "Hoth", ControlKind::Uncontrolled);
    assert!(matches!(aftermath(&world, system, true, 3), Aftermath::Nothing));
    add_troop(&mut world, system, true, 9);
    assert!(matches!(
        aftermath(&world, system, true, 1),
        Aftermath::Occupy(Faction::Alliance)
    ));
    assert!(matches!(aftermath(&world, system, true, 0), Aftermath::Nothing));
    add_troop(&mut world, system, false, 0);
    let d = add_troop(&mut world, system, false, 6);
    add_troop(&mut world, system, true, 4);
    let Aftermath::Ground {
        attackers,
        defenders,
    } = aftermath(&world, system, true, 0)
    else {
        panic!("expected a ground battle");
    };
    let names: Vec<&str> = attackers.iter().map(|r| r.name.as_str()).collect();
    assert_eq!(names, vec!["Attacker Regiment 1", "Attacker Regiment 2"]);
    assert_eq!(defenders.len(), 1);
    assert_eq!(defenders[0].troop, d);
    assert_eq!(defenders[0].name, "Defender Regiment 1");
    assert_eq!(defenders[0].strength, 6);
}

#[test]
fn headquarters_are_found_or_stood_in_for() {
    let mut world = GameWorld::default();
    let gone = add_system(&mut world, "Gone", ControlKind::Uncontrolled);
    world.systems.remove(gone);
    let a = add_system(&mut world, "A", ControlKind::Controlled(Faction::Empire));
    let b = add_system(&mut world, "B", ControlKind::Controlled(Faction::Alliance));
    let c = add_system(&mut world, "C", ControlKind::Controlled(Faction::Empire));
    assert_eq!(find_headquarters(&world, Faction::Empire), None);
    assert_eq!(watched_headquarters(&world), (a, b));
    world.systems.get_mut(b).unwrap().is_headquarters = true;
    world.systems.get_mut(c).unwrap().is_headquarters = true;
    assert_eq!(watched_headquarters(&world), (b, c));
}
