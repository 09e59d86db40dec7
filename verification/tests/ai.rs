//! Tests of the computer player.

use open_rebellion::ai::{
    AIAction, AIState, AISystem, Advice, AiFaction, FleetMoveReason, AI_TICK_INTERVAL,
    MAX_COVERT_OPS_PER_EVAL,
};
use open_rebellion::dat::SectorGroup;
use open_rebellion::ids::{CharacterKey, DatId, SectorKey, SystemKey};
use open_rebellion::manufacturing::{BuildableKind, ManufacturingState};
use open_rebellion::missions::MissionKind;
use open_rebellion::movement::MovementState;
use open_rebellion::research::ResearchState;
use open_rebellion::tick::TickEvent;
use open_rebellion::tuning::GameConfig;
use open_rebellion::world::{
    CapitalShipClass, Character, ControlKind, FighterClass, Fleet, GameWorld, Sector, ShipInstance,
    SkillPair, System,
};

// ---------------------------------------------------------------------------
// What the caller works out in floating point
// ---------------------------------------------------------------------------

/// The mission curve of these tests: a score is its own chance in percent.
fn covert_advice() -> Advice {
    let mut formula_clears = Vec::new();
    for kind in [
        MissionKind::Sabotage,
        MissionKind::Assassination,
        MissionKind::Abduction,
        MissionKind::Espionage,
    ] {
        for score in 0..=100u32 {
            if f64::from(score) / 100.0 >= 0.30 {
                formula_clears.push((kind, score));
            }
        }
    }
    Advice {
        min_success_percent: 30,
        formula_clears,
        ship_research_ticks: 30,
        troop_research_ticks: 30,
        facility_research_ticks: 30,
        ..Advice::none()
    }
}

fn outgunned(world: &GameWorld, faction: AiFaction) -> bool {
    let side = faction == AiFaction::Alliance;
    let Some(fleet) = AISystem::find_death_star(world, faction) else {
        return false;
    };
    let Some(sys) = world.systems.get(world.fleets.get(fleet).unwrap().location) else {
        return false;
    };
    let ours = AISystem::system_strength(world, sys, side);
    let theirs = AISystem::system_strength(world, sys, !side);
    theirs > 0 && f64::from(theirs) > f64::from(ours) * 2.0
}

/// How good a target is: weak, near, not crowded.
fn score(world: &GameWorld, side: bool, from: SystemKey, target: SystemKey, crowd: usize) -> f64 {
    let (Some(t), Some(f)) = (world.systems.get(target), world.systems.get(from)) else {
        return 0.0;
    };
    let strength = f64::from(AISystem::system_strength(world, t, !side));
    let dx = f64::from(t.x) - f64::from(f.x);
    let dy = f64::from(t.y) - f64::from(f.y);
    let distance = (dx * dx + dy * dy).sqrt();
    0.4 / (1.0 + strength) + 0.3 / (1.0 + distance / 200.0) + 0.2 / (1.0 + crowd as f64) + 0.1
}

fn advise(
    state: &AIState,
    world: &GameWorld,
    mfg: &ManufacturingState,
    movement: &MovementState,
    config: &GameConfig,
    research: &ResearchState,
) -> Advice {
    let faction = state.faction.unwrap();
    let side = faction == AiFaction::Alliance;
    let mut advice = covert_advice();
    advice.death_star_outgunned = outgunned(world, faction);
    let galaxy = AISystem::evaluate_galaxy_state(world, faction);
    let ours = galaxy.our_controlled.len() as f64;
    let theirs = galaxy.enemy_controlled.len() as f64;
    let ratio = if ours + theirs > 0.0 {
        ours / (ours + theirs)
    } else {
        0.5
    };
    let aggression = (ratio * 0.8 + 0.1).clamp(0.1, 0.9);
    advice.attack_fronts = (aggression * 3.0).ceil() as usize;
    let mut early = Vec::new();
    AISystem::evaluate_officers(state, world, faction, config, &mut early);
    AISystem::evaluate_espionage(state, world, faction, config, &advice, &mut early);
    AISystem::evaluate_rescue(state, world, faction, &mut early);
    AISystem::evaluate_reconnaissance(state, world, faction, config, &advice, &mut early);
    AISystem::evaluate_research(state, world, research, faction, &advice, &mut early);
    AISystem::evaluate_production(world, mfg, faction, config, &mut early);
    AISystem::evaluate_uprising_prevention(state, world, faction, config, &mut early);
    AISystem::evaluate_ds_escort(world, movement, faction, &advice, &mut early);
    while let Some(asked) = AISystem::attack_request(world, movement, faction, &advice, &early) {
        let ranks = asked
            .candidates
            .iter()
            .zip(&asked.crowds)
            .map(|(&target, &crowd)| {
                i128::from(score(world, side, asked.location, target, crowd).to_bits())
            })
            .collect();
        advice.rankings.push(ranks);
    }
    advice
}

fn evaluate(
    state: &mut AIState,
    world: &GameWorld,
    mfg: &ManufacturingState,
    movement: &MovementState,
    ticks: &[TickEvent],
    config: &GameConfig,
    research: &ResearchState,
) -> Vec<AIAction> {
    let advice = advise(state, world, mfg, movement, config, research);
    AISystem::advance(state, world, mfg, movement, ticks, config, research, &advice)
}

// ---------------------------------------------------------------------------
// World builder helpers
// ---------------------------------------------------------------------------

fn empty_world() -> GameWorld {
    GameWorld::default()
}

fn add_sector(world: &mut GameWorld) -> SectorKey {
    world.sectors.insert(Sector {
        dat_id: DatId(0),
        name: "Test Sector".into(),
        group: SectorGroup::Core,
        x: 0,
        y: 0,
        systems: vec![],
    })
}

fn add_system(
    world: &mut GameWorld,
    sector: SectorKey,
    pop_alliance: f32,
    pop_empire: f32,
) -> SystemKey {
    world.systems.insert(System {
        dat_id: DatId(0),
        name: "Test System".into(),
        sector,
        x: 0,
        y: 0,
        exploration_status: open_rebellion::dat::ExplorationStatus::Explored,
        popularity_alliance: pop_alliance.to_bits(),
        popularity_empire: pop_empire.to_bits(),
        is_populated: true,
        total_energy: 0,
        raw_materials: 0,
        espionage_rating: 0,
        fleets: vec![],
        ground_units: vec![],
        special_forces: vec![],
        defense_facilities: vec![],
        manufacturing_facilities: vec![],
        production_facilities: vec![],
        is_headquarters: false,
        is_destroyed: false,
        control: ControlKind::Uncontrolled,
    })
}

fn add_character(
    world: &mut GameWorld,
    is_alliance: bool,
    is_major: bool,
    diplomacy_base: u32,
) -> CharacterKey {
    world.characters.insert(Character {
        name: "TestChar".into(),
        is_alliance,
        is_empire: !is_alliance,
        is_major,
        diplomacy: SkillPair {
            base: diplomacy_base,
            variance: 0,
        },
        leadership: SkillPair {
            base: 50,
            variance: 0,
        },
        can_be_commander: true,
        ..Default::default()
    })
}

fn ticks(n: u64) -> Vec<TickEvent> {
    (1..=n).map(|t| TickEvent { tick: t }).collect()
}

// -----------------------------------------------------------------------
// AIState tests
// -----------------------------------------------------------------------

#[test]
fn should_evaluate_at_tick_zero() {
    let state = AIState::new(AiFaction::Empire);
    assert!(state.should_evaluate(0, AI_TICK_INTERVAL));
}

#[test]
fn should_not_evaluate_before_interval() {
    let mut state = AIState::new(AiFaction::Empire);
    state.last_eval_tick = 0;
    // 3 days elapsed — interval is 5
    assert!(!state.should_evaluate(3, AI_TICK_INTERVAL));
}

#[test]
fn should_evaluate_after_interval() {
    let mut state = AIState::new(AiFaction::Empire);
    state.last_eval_tick = 0;
    assert!(state.should_evaluate(5, AI_TICK_INTERVAL));
    assert!(state.should_evaluate(10, AI_TICK_INTERVAL));
}

#[test]
fn busy_character_tracking() {
    let mut world = empty_world();
    let sector = add_sector(&mut world);
    let _ = add_system(&mut world, sector, 0.5, 0.5);
    let char_key = add_character(&mut world, true, false, 30);

    let mut state = AIState::new(AiFaction::Alliance);
    assert!(!state.is_busy(char_key));
    state.mark_busy(char_key);
    assert!(state.is_busy(char_key));
    state.mark_available(char_key);
    assert!(!state.is_busy(char_key));
}

// -----------------------------------------------------------------------
// No-op conditions
// -----------------------------------------------------------------------

#[test]
fn no_ticks_returns_empty() {
    let world = empty_world();
    let mut state = AIState::new(AiFaction::Empire);
    let mfg = ManufacturingState::new();

    let actions = evaluate(
        &mut state,
        &world,
        &mfg,
        &open_rebellion::movement::MovementState::new(),
        &[],
        &GameConfig::default(),
        &open_rebellion::research::ResearchState::new(),
    );
    assert!(actions.is_empty());
}

#[test]
fn before_interval_returns_empty() {
    let world = empty_world();
    let mut state = AIState::new(AiFaction::Empire);
    state.last_eval_tick = 5; // already evaluated 5 ticks ago, interval=7

    let mfg = ManufacturingState::new();

    // last_eval=5, current=8, diff=3 < 7 → should not evaluate
    let actions = evaluate(
        &mut state,
        &world,
        &mfg,
        &open_rebellion::movement::MovementState::new(),
        &[TickEvent { tick: 8 }],
        &GameConfig::default(),
        &open_rebellion::research::ResearchState::new(),
    );
    assert!(actions.is_empty());
}

// -----------------------------------------------------------------------
// Officer heuristics
// -----------------------------------------------------------------------

#[test]
fn major_character_dispatched_on_recruitment_when_unrecruited_exist() {
    let mut world = empty_world();
    let sector = add_sector(&mut world);
    let _sys = add_system(&mut world, sector, 0.9, 0.1); // friendly high-pop system

    // Major empire character — can be commander
    let major = add_character(&mut world, false, true, 30);
    // An unrecruited Alliance character (enemy faction = "unrecruited" from Empire perspective)
    let _ = add_character(&mut world, true, false, 30);

    let mut state = AIState::new(AiFaction::Empire);
    let mfg = ManufacturingState::new();

    let actions = evaluate(
        &mut state,
        &world,
        &mfg,
        &open_rebellion::movement::MovementState::new(),
        &ticks(7),
        &GameConfig::default(),
        &open_rebellion::research::ResearchState::new(),
    );

    let recruitment = actions.iter().find(|a| {
        matches!(
            a,
            AIAction::DispatchMission { kind: MissionKind::Recruitment, character, .. }
            if *character == major
        )
    });
    assert!(
        recruitment.is_some(),
        "expected recruitment mission for major character"
    );
}

#[test]
fn high_diplomacy_minor_dispatched_on_diplomacy() {
    let mut world = empty_world();
    let sector = add_sector(&mut world);
    // Low-popularity empire system — a good diplomacy target
    let _ = add_system(&mut world, sector, 0.1, 0.2);

    // Minor empire character with high diplomacy
    let diplomat = add_character(&mut world, false, false, 80);

    let mut state = AIState::new(AiFaction::Empire);
    let mfg = ManufacturingState::new();

    let actions = evaluate(
        &mut state,
        &world,
        &mfg,
        &open_rebellion::movement::MovementState::new(),
        &ticks(7),
        &GameConfig::default(),
        &open_rebellion::research::ResearchState::new(),
    );

    let diplomacy = actions.iter().find(|a| {
        matches!(
            a,
            AIAction::DispatchMission { kind: MissionKind::Diplomacy, character, .. }
            if *character == diplomat
        )
    });
    assert!(
        diplomacy.is_some(),
        "expected diplomacy mission for high-skill minor"
    );
}

#[test]
fn low_diplomacy_minor_not_dispatched() {
    let mut world = empty_world();
    let sector = add_sector(&mut world);
    let _ = add_system(&mut world, sector, 0.1, 0.2);

    // Minor with low diplomacy — below threshold
    let _ = add_character(&mut world, false, false, 30);

    let mut state = AIState::new(AiFaction::Empire);
    let mfg = ManufacturingState::new();

    let actions = evaluate(
        &mut state,
        &world,
        &mfg,
        &open_rebellion::movement::MovementState::new(),
        &ticks(7),
        &GameConfig::default(),
        &open_rebellion::research::ResearchState::new(),
    );
    let mission_count = actions
        .iter()
        .filter(|a| matches!(a, AIAction::DispatchMission { .. }))
        .count();
    assert_eq!(mission_count, 0);
}

#[test]
fn busy_character_not_redispatched() {
    let mut world = empty_world();
    let sector = add_sector(&mut world);
    let _ = add_system(&mut world, sector, 0.1, 0.2);

    let diplomat = add_character(&mut world, false, false, 80);

    let mut state = AIState::new(AiFaction::Empire);
    state.mark_busy(diplomat);

    let mfg = ManufacturingState::new();

    let actions = evaluate(
        &mut state,
        &world,
        &mfg,
        &open_rebellion::movement::MovementState::new(),
        &ticks(7),
        &GameConfig::default(),
        &open_rebellion::research::ResearchState::new(),
    );
    let mission_count = actions
        .iter()
        .filter(|a| matches!(a, AIAction::DispatchMission { .. }))
        .count();
    assert_eq!(mission_count, 0);
}

// -----------------------------------------------------------------------
// Production heuristics
// -----------------------------------------------------------------------

#[test]
fn idle_system_with_mfg_gets_fighter_production() {
    let mut world = empty_world();
    let sector = add_sector(&mut world);

    // Add an empire manufacturing facility
    let mfg_key =
        world
            .manufacturing_facilities
            .insert(open_rebellion::world::ManufacturingFacilityInstance {
                class_dat_id: DatId(1),
                is_alliance: false, // empire
                is_shipyard: false,
            });

    let sys_key = world.systems.insert(System {
        dat_id: DatId(0),
        name: "Coruscant".into(),
        sector,
        x: 0,
        y: 0,
        exploration_status: open_rebellion::dat::ExplorationStatus::Explored,
        popularity_alliance: 0.1f32.to_bits(),
        popularity_empire: 0.9f32.to_bits(),
        is_populated: true,
        total_energy: 0,
        raw_materials: 0,
        espionage_rating: 0,
        fleets: vec![],
        ground_units: vec![],
        special_forces: vec![],
        defense_facilities: vec![],
        manufacturing_facilities: vec![mfg_key],
        production_facilities: vec![],
        is_headquarters: false,
        is_destroyed: false,
        control: ControlKind::Controlled(open_rebellion::dat::Faction::Empire),
    });

    // Add a TIE fighter class
    let _ = world.fighter_classes.insert(FighterClass {
        dat_id: DatId(10),
        name: "TIE Fighter".into(),
        is_alliance: false,
        is_empire: true,
        refined_material_cost: 20,
        maintenance_cost: 2,
        squadron_size: 6,
        torpedoes: 0,
        overall_attack_strength: 10,
        bombardment_defense: 0,
        ..FighterClass::default()
    });

    let mut state = AIState::new(AiFaction::Empire);
    let mfg = ManufacturingState::new(); // empty queue

    let actions = evaluate(
        &mut state,
        &world,
        &mfg,
        &open_rebellion::movement::MovementState::new(),
        &ticks(7),
        &GameConfig::default(),
        &open_rebellion::research::ResearchState::new(),
    );

    let has_fighter_enqueue = actions.iter().any(|a| {
        matches!(
            a,
            AIAction::EnqueueProduction { system, kind: BuildableKind::Fighter(_), .. }
            if *system == sys_key
        )
    });
    assert!(
        has_fighter_enqueue,
        "expected fighter production at empire system"
    );
}

#[test]
fn uncontrolled_system_facility_cannot_produce_for_ai() {
    let mut world = empty_world();
    let sector = add_sector(&mut world);
    let mfg_key =
        world
            .manufacturing_facilities
            .insert(open_rebellion::world::ManufacturingFacilityInstance {
                class_dat_id: DatId(1),
                is_alliance: false,
                is_shipyard: false,
            });
    let sys_key = add_system(&mut world, sector, 0.5, 0.5);
    world.systems.get_mut(sys_key).unwrap()
        .manufacturing_facilities
        .push(mfg_key);
    world.systems.get_mut(sys_key).unwrap().control = ControlKind::Uncontrolled;
    world.fighter_classes.insert(FighterClass {
        dat_id: DatId(10),
        name: "TIE Fighter".into(),
        is_empire: true,
        refined_material_cost: 20,
        overall_attack_strength: 10,
        ..FighterClass::default()
    });

    let mut state = AIState::new(AiFaction::Empire);
    let actions = evaluate(
        &mut state,
        &world,
        &ManufacturingState::new(),
        &open_rebellion::movement::MovementState::new(),
        &ticks(7),
        &GameConfig::default(),
        &open_rebellion::research::ResearchState::new(),
    );

    assert!(!actions.iter().any(|action| matches!(
        action,
        AIAction::EnqueueProduction { system, .. } if *system == sys_key
    )));
}

// -----------------------------------------------------------------------
// Fleet deployment heuristics
// -----------------------------------------------------------------------

#[test]
fn fleet_directed_to_attack_weak_enemy_system() {
    let mut world = empty_world();
    let sector = add_sector(&mut world);

    // Empire fleet at a safe friendly system (Empire-controlled)
    let home_sys = add_system(&mut world, sector, 0.1, 0.9);
    world.systems.get_mut(home_sys).unwrap().control = ControlKind::Controlled(open_rebellion::dat::Faction::Empire);
    // Enemy system controlled by Alliance (attack target)
    let target_sys = add_system(&mut world, sector, 0.6, 0.15);
    world.systems.get_mut(target_sys).unwrap().control = ControlKind::Controlled(open_rebellion::dat::Faction::Alliance);

    // Fleet needs at least one ship to pass dispatch validation.
    let class_key = world
        .capital_ship_classes
        .insert(CapitalShipClass::default());
    let fleet_key = world.fleets.insert(Fleet {
        location: home_sys,
        capital_ships: ShipInstance::make(class_key, 100, false, 1),
        fighters: vec![],
        characters: vec![],
        is_alliance: false, // empire fleet
        has_death_star: false,
    });

    let mut state = AIState::new(AiFaction::Empire);
    let mfg = ManufacturingState::new();

    let actions = evaluate(
        &mut state,
        &world,
        &mfg,
        &open_rebellion::movement::MovementState::new(),
        &ticks(7),
        &GameConfig::default(),
        &open_rebellion::research::ResearchState::new(),
    );

    let fleet_move = actions.iter().find(|a| {
        matches!(
            a,
            AIAction::MoveFleet { fleet, to_system, reason: FleetMoveReason::Attack, .. }
            if *fleet == fleet_key && *to_system == target_sys
        )
    });
    assert!(
        fleet_move.is_some(),
        "expected fleet to be directed at weak enemy system"
    );
}

#[test]
fn fleet_attacks_enemy_force_orbiting_neutral_system() {
    let mut world = empty_world();
    let sector = add_sector(&mut world);
    let home_sys = add_system(&mut world, sector, 0.1, 0.9);
    world.systems.get_mut(home_sys).unwrap().control = ControlKind::Controlled(open_rebellion::dat::Faction::Empire);
    let target_sys = add_system(&mut world, sector, 0.5, 0.5);
    world.systems.get_mut(target_sys).unwrap().control = ControlKind::Uncontrolled;

    let class_key = world
        .capital_ship_classes
        .insert(CapitalShipClass::default());
    let empire_fleet = world.fleets.insert(Fleet {
        location: home_sys,
        capital_ships: ShipInstance::make(class_key, 100, false, 1),
        fighters: vec![],
        characters: vec![],
        is_alliance: false,
        has_death_star: false,
    });
    world.systems.get_mut(home_sys).unwrap().fleets.push(empire_fleet);
    let alliance_fleet = world.fleets.insert(Fleet {
        location: target_sys,
        capital_ships: ShipInstance::make(class_key, 100, true, 1),
        fighters: vec![],
        characters: vec![],
        is_alliance: true,
        has_death_star: false,
    });
    world.systems.get_mut(target_sys).unwrap().fleets.push(alliance_fleet);

    let mut state = AIState::new(AiFaction::Empire);
    let actions = evaluate(
        &mut state,
        &world,
        &ManufacturingState::new(),
        &open_rebellion::movement::MovementState::new(),
        &ticks(7),
        &GameConfig::default(),
        &ResearchState::new(),
    );

    assert!(actions.iter().any(|action| matches!(
        action,
        AIAction::MoveFleet {
            fleet,
            to_system,
            reason: FleetMoveReason::Attack,
            ..
        } if *fleet == empire_fleet && *to_system == target_sys
    )));
}

#[test]
fn outmatched_fleet_raids_weak_territory_instead_of_suicidal_interception() {
    let mut world = empty_world();
    let sector = add_sector(&mut world);
    let home_sys = add_system(&mut world, sector, 0.1, 0.9);
    world.systems.get_mut(home_sys).unwrap().control = ControlKind::Controlled(open_rebellion::dat::Faction::Empire);
    let weak_target = add_system(&mut world, sector, 0.5, 0.5);
    world.systems.get_mut(weak_target).unwrap().control = ControlKind::Controlled(open_rebellion::dat::Faction::Alliance);
    let strong_target = add_system(&mut world, sector, 0.8, 0.2);
    world.systems.get_mut(strong_target).unwrap().control = ControlKind::Uncontrolled;

    let small_class = world.capital_ship_classes.insert(CapitalShipClass {
        hull: 100,
        ..CapitalShipClass::default()
    });
    let large_class = world.capital_ship_classes.insert(CapitalShipClass {
        hull: 1000,
        ..CapitalShipClass::default()
    });
    let empire_fleet = world.fleets.insert(Fleet {
        location: home_sys,
        capital_ships: ShipInstance::make(small_class, 100, false, 1),
        fighters: vec![],
        characters: vec![],
        is_alliance: false,
        has_death_star: false,
    });
    world.systems.get_mut(home_sys).unwrap().fleets.push(empire_fleet);
    let alliance_fleet = world.fleets.insert(Fleet {
        location: strong_target,
        capital_ships: ShipInstance::make(large_class, 1000, true, 1),
        fighters: vec![],
        characters: vec![],
        is_alliance: true,
        has_death_star: false,
    });
    world.systems.get_mut(strong_target).unwrap().fleets.push(alliance_fleet);

    let mut state = AIState::new(AiFaction::Empire);
    let actions = evaluate(
        &mut state,
        &world,
        &ManufacturingState::new(),
        &open_rebellion::movement::MovementState::new(),
        &ticks(7),
        &GameConfig::default(),
        &ResearchState::new(),
    );

    assert!(actions.iter().any(|action| matches!(
        action,
        AIAction::MoveFleet {
            fleet,
            to_system,
            reason: FleetMoveReason::Attack,
            ..
        } if *fleet == empire_fleet && *to_system == weak_target
    )));
}

#[test]
fn blockading_fleet_holds_enemy_system() {
    let mut world = empty_world();
    let sector = add_sector(&mut world);
    let hq_sys = add_system(&mut world, sector, 0.1, 0.9);
    world.systems.get_mut(hq_sys).unwrap().control = ControlKind::Controlled(open_rebellion::dat::Faction::Empire);
    world.systems.get_mut(hq_sys).unwrap().is_headquarters = true;
    let blockaded_sys = add_system(&mut world, sector, 0.8, 0.2);
    world.systems.get_mut(blockaded_sys).unwrap().control =
        ControlKind::Controlled(open_rebellion::dat::Faction::Alliance);
    let other_target = add_system(&mut world, sector, 0.7, 0.3);
    world.systems.get_mut(other_target).unwrap().control =
        ControlKind::Controlled(open_rebellion::dat::Faction::Alliance);

    let class_key = world
        .capital_ship_classes
        .insert(CapitalShipClass::default());
    let blockader = world.fleets.insert(Fleet {
        location: blockaded_sys,
        capital_ships: ShipInstance::make(class_key, 100, false, 1),
        fighters: vec![],
        characters: vec![],
        is_alliance: false,
        has_death_star: false,
    });
    world.systems.get_mut(blockaded_sys).unwrap().fleets.push(blockader);

    let mut state = AIState::new(AiFaction::Empire);
    let actions = evaluate(
        &mut state,
        &world,
        &ManufacturingState::new(),
        &open_rebellion::movement::MovementState::new(),
        &ticks(7),
        &GameConfig::default(),
        &ResearchState::new(),
    );

    assert!(!actions.iter().any(
        |action| matches!(action, AIAction::MoveFleet { fleet, .. } if *fleet == blockader)
    ));
}

#[test]
fn stationed_hq_defender_is_not_dispatched() {
    let mut world = empty_world();
    let sector = add_sector(&mut world);
    let hq_sys = add_system(&mut world, sector, 0.1, 0.9);
    world.systems.get_mut(hq_sys).unwrap().control = ControlKind::Controlled(open_rebellion::dat::Faction::Empire);
    world.systems.get_mut(hq_sys).unwrap().is_headquarters = true;
    let staging_sys = add_system(&mut world, sector, 0.2, 0.8);
    world.systems.get_mut(staging_sys).unwrap().control = ControlKind::Controlled(open_rebellion::dat::Faction::Empire);
    let target_sys = add_system(&mut world, sector, 0.8, 0.2);
    world.systems.get_mut(target_sys).unwrap().control = ControlKind::Controlled(open_rebellion::dat::Faction::Alliance);

    let class_key = world
        .capital_ship_classes
        .insert(CapitalShipClass::default());
    let defender = world.fleets.insert(Fleet {
        location: hq_sys,
        capital_ships: ShipInstance::make(class_key, 100, false, 1),
        fighters: vec![],
        characters: vec![],
        is_alliance: false,
        has_death_star: false,
    });
    world.systems.get_mut(hq_sys).unwrap().fleets.push(defender);
    let attacker = world.fleets.insert(Fleet {
        location: staging_sys,
        capital_ships: ShipInstance::make(class_key, 100, false, 1),
        fighters: vec![],
        characters: vec![],
        is_alliance: false,
        has_death_star: false,
    });
    world.systems.get_mut(staging_sys).unwrap().fleets.push(attacker);

    let mut state = AIState::new(AiFaction::Empire);
    let actions = evaluate(
        &mut state,
        &world,
        &ManufacturingState::new(),
        &open_rebellion::movement::MovementState::new(),
        &ticks(7),
        &GameConfig::default(),
        &ResearchState::new(),
    );

    assert!(!actions.iter().any(
        |action| matches!(action, AIAction::MoveFleet { fleet, .. } if *fleet == defender)
    ));
    assert!(actions.iter().any(|action| matches!(
        action,
        AIAction::MoveFleet {
            fleet,
            to_system,
            reason: FleetMoveReason::Attack,
            ..
        } if *fleet == attacker && *to_system == target_sys
    )));
}

#[test]
fn assembled_hq_wave_can_launch_and_leave_future_production_to_defend() {
    let mut world = empty_world();
    let sector = add_sector(&mut world);
    let hq_sys = add_system(&mut world, sector, 0.1, 0.9);
    world.systems.get_mut(hq_sys).unwrap().control = ControlKind::Controlled(open_rebellion::dat::Faction::Alliance);
    world.systems.get_mut(hq_sys).unwrap().is_headquarters = true;
    let target_sys = add_system(&mut world, sector, 0.8, 0.2);
    world.systems.get_mut(target_sys).unwrap().control = ControlKind::Controlled(open_rebellion::dat::Faction::Empire);

    let class_key = world
        .capital_ship_classes
        .insert(CapitalShipClass::default());
    let wave = world.fleets.insert(Fleet {
        location: hq_sys,
        capital_ships: ShipInstance::make(class_key, 100, true, 2),
        fighters: vec![],
        characters: vec![],
        is_alliance: true,
        has_death_star: false,
    });
    world.systems.get_mut(hq_sys).unwrap().fleets.push(wave);

    let mut state = AIState::new(AiFaction::Alliance);
    let actions = evaluate(
        &mut state,
        &world,
        &ManufacturingState::new(),
        &open_rebellion::movement::MovementState::new(),
        &ticks(7),
        &GameConfig::default(),
        &ResearchState::new(),
    );

    assert!(actions.iter().any(|action| matches!(
        action,
        AIAction::MoveFleet {
            fleet,
            to_system,
            reason: FleetMoveReason::Attack,
            ..
        } if *fleet == wave && *to_system == target_sys
    )));
}

#[test]
fn fleet_in_transit_is_not_redispatched() {
    let mut world = empty_world();
    let sector = add_sector(&mut world);
    let home_sys = add_system(&mut world, sector, 0.1, 0.9);
    world.systems.get_mut(home_sys).unwrap().control = ControlKind::Controlled(open_rebellion::dat::Faction::Empire);
    let target_sys = add_system(&mut world, sector, 0.8, 0.1);
    world.systems.get_mut(target_sys).unwrap().control = ControlKind::Controlled(open_rebellion::dat::Faction::Alliance);

    let class_key = world
        .capital_ship_classes
        .insert(CapitalShipClass::default());
    let fleet_key = world.fleets.insert(Fleet {
        location: home_sys,
        capital_ships: ShipInstance::make(class_key, 100, false, 1),
        fighters: vec![],
        characters: vec![],
        is_alliance: false,
        has_death_star: false,
    });
    world.systems.get_mut(home_sys).unwrap().fleets.push(fleet_key);

    let mut movement = open_rebellion::movement::MovementState::new();
    assert!(movement.order(fleet_key, home_sys, target_sys, 10));
    movement.orders[0].elapsed_ticks = 3;
    let before = *movement.get(fleet_key).unwrap();

    let mut state = AIState::new(AiFaction::Empire);
    let actions = evaluate(
        &mut state,
        &world,
        &ManufacturingState::new(),
        &movement,
        &ticks(7),
        &GameConfig::default(),
        &ResearchState::new(),
    );

    assert!(!actions.iter().any(
        |action| matches!(action, AIAction::MoveFleet { fleet, .. } if *fleet == fleet_key)
    ));
    assert_eq!(movement.get(fleet_key), Some(&before));
}

#[test]
fn fleet_receives_at_most_one_move_action_per_evaluation() {
    let mut world = empty_world();
    let sector = add_sector(&mut world);
    let home_sys = add_system(&mut world, sector, 0.1, 0.9);
    world.systems.get_mut(home_sys).unwrap().control = ControlKind::Controlled(open_rebellion::dat::Faction::Empire);
    let staging_sys = add_system(&mut world, sector, 0.1, 0.9);
    world.systems.get_mut(staging_sys).unwrap().control = ControlKind::Controlled(open_rebellion::dat::Faction::Empire);
    world.systems.get_mut(staging_sys).unwrap().x = 25;
    let target_sys = add_system(&mut world, sector, 0.8, 0.1);
    world.systems.get_mut(target_sys).unwrap().control = ControlKind::Controlled(open_rebellion::dat::Faction::Alliance);
    world.systems.get_mut(target_sys).unwrap().x = 100;

    let class_key = world
        .capital_ship_classes
        .insert(CapitalShipClass::default());
    let death_star = world.fleets.insert(Fleet {
        location: home_sys,
        capital_ships: ShipInstance::make(class_key, 100, false, 1),
        fighters: vec![],
        characters: vec![],
        is_alliance: false,
        has_death_star: true,
    });
    world.systems.get_mut(home_sys).unwrap().fleets.push(death_star);
    let escort = world.fleets.insert(Fleet {
        location: staging_sys,
        capital_ships: ShipInstance::make(class_key, 100, false, 1),
        fighters: vec![],
        characters: vec![],
        is_alliance: false,
        has_death_star: false,
    });
    world.systems.get_mut(staging_sys).unwrap().fleets.push(escort);

    let mut state = AIState::new(AiFaction::Empire);
    let actions = evaluate(
        &mut state,
        &world,
        &ManufacturingState::new(),
        &open_rebellion::movement::MovementState::new(),
        &ticks(7),
        &GameConfig::default(),
        &ResearchState::new(),
    );

    for fleet in [death_star, escort] {
        let move_count = actions
            .iter()
            .filter(|action| {
                matches!(action, AIAction::MoveFleet { fleet: moved, .. } if *moved == fleet)
            })
            .count();
        assert!(move_count <= 1, "fleet received {move_count} move actions");
    }
}

// -----------------------------------------------------------------------
// Espionage heuristics
// -----------------------------------------------------------------------

/// Helper: insert a character with custom espionage + combat scores.
fn add_spy(
    world: &mut GameWorld,
    is_alliance: bool,
    is_major: bool,
    espionage_base: u32,
    combat_base: u32,
) -> CharacterKey {
    world.characters.insert(Character {
        name: "TestSpy".into(),
        is_alliance,
        is_empire: !is_alliance,
        is_major,
        espionage: SkillPair {
            base: espionage_base,
            variance: 0,
        },
        combat: SkillPair {
            base: combat_base,
            variance: 0,
        },
        leadership: SkillPair {
            base: 50,
            variance: 0,
        },
        can_be_commander: true,
        ..Default::default()
    })
}

#[test]
fn high_espionage_character_dispatched_on_sabotage() {
    let mut world = empty_world();
    let sector = add_sector(&mut world);

    // Enemy (alliance) system with a manufacturing facility — a sabotage target.
    let mfg_key =
        world
            .manufacturing_facilities
            .insert(open_rebellion::world::ManufacturingFacilityInstance {
                class_dat_id: DatId(1),
                is_alliance: true, // alliance-owned → enemy from Empire's perspective
                is_shipyard: false,
            });
    let enemy_sys = world.systems.insert(System {
        dat_id: DatId(0),
        name: "Enemy Shipyard".into(),
        sector,
        x: 10,
        y: 10,
        exploration_status: open_rebellion::dat::ExplorationStatus::Explored,
        popularity_alliance: 0.8f32.to_bits(),
        popularity_empire: 0.1f32.to_bits(),
        is_populated: true,
        total_energy: 0,
        raw_materials: 0,
        espionage_rating: 0,
        fleets: vec![],
        ground_units: vec![],
        special_forces: vec![],
        defense_facilities: vec![],
        manufacturing_facilities: vec![mfg_key],
        production_facilities: vec![],
        is_headquarters: false,
        is_destroyed: false,
        control: ControlKind::Uncontrolled,
    });

    // Empire spy with high espionage — above threshold.
    let spy = add_spy(&mut world, false, false, 80, 50);

    let mut state = AIState::new(AiFaction::Empire);
    let mfg = ManufacturingState::new();

    let actions = evaluate(
        &mut state,
        &world,
        &mfg,
        &open_rebellion::movement::MovementState::new(),
        &ticks(7),
        &GameConfig::default(),
        &open_rebellion::research::ResearchState::new(),
    );

    let sabotage = actions.iter().find(|a| {
        matches!(
            a,
            AIAction::DispatchMission {
                kind: MissionKind::Sabotage,
                character,
                target_system,
                ..
            }
            if *character == spy && *target_system == enemy_sys
        )
    });
    assert!(
        sabotage.is_some(),
        "expected sabotage mission against enemy shipyard"
    );
}

#[test]
fn low_espionage_character_not_dispatched_on_covert_ops() {
    let mut world = empty_world();
    let sector = add_sector(&mut world);

    let mfg_key =
        world
            .manufacturing_facilities
            .insert(open_rebellion::world::ManufacturingFacilityInstance {
                class_dat_id: DatId(1),
                is_alliance: true,
                is_shipyard: false,
            });
    let _ = world.systems.insert(System {
        dat_id: DatId(0),
        name: "Enemy Shipyard".into(),
        sector,
        x: 10,
        y: 10,
        exploration_status: open_rebellion::dat::ExplorationStatus::Explored,
        popularity_alliance: 0.8f32.to_bits(),
        popularity_empire: 0.1f32.to_bits(),
        is_populated: true,
        total_energy: 0,
        raw_materials: 0,
        espionage_rating: 0,
        fleets: vec![],
        ground_units: vec![],
        special_forces: vec![],
        defense_facilities: vec![],
        manufacturing_facilities: vec![mfg_key],
        production_facilities: vec![],
        is_headquarters: false,
        is_destroyed: false,
        control: ControlKind::Uncontrolled,
    });

    // Empire spy with low espionage — below threshold.
    let _ = add_spy(&mut world, false, false, 20, 20);

    let mut state = AIState::new(AiFaction::Empire);
    let mfg = ManufacturingState::new();

    let actions = evaluate(
        &mut state,
        &world,
        &mfg,
        &open_rebellion::movement::MovementState::new(),
        &ticks(7),
        &GameConfig::default(),
        &open_rebellion::research::ResearchState::new(),
    );

    let covert = actions
        .iter()
        .filter(|a| {
            matches!(
                a,
                AIAction::DispatchMission {
                    kind: MissionKind::Sabotage
                        | MissionKind::Assassination
                        | MissionKind::Espionage,
                    ..
                }
            )
        })
        .count();
    assert_eq!(
        covert, 0,
        "low-espionage character should not be dispatched on covert ops"
    );
}

#[test]
fn ai_dispatches_espionage_on_unexplored_system() {
    let mut world = empty_world();
    let sector = add_sector(&mut world);

    // Unexplored system — worth investigating.
    let unexplored = world.systems.insert(System {
        dat_id: DatId(0),
        name: "Dark System".into(),
        sector,
        x: 50,
        y: 50,
        exploration_status: open_rebellion::dat::ExplorationStatus::Unexplored,
        popularity_alliance: 0.0f32.to_bits(),
        popularity_empire: 0.0f32.to_bits(),
        is_populated: false,
        total_energy: 0,
        raw_materials: 0,
        espionage_rating: 0,
        fleets: vec![],
        ground_units: vec![],
        special_forces: vec![],
        defense_facilities: vec![],
        manufacturing_facilities: vec![],
        production_facilities: vec![],
        is_headquarters: false,
        is_destroyed: false,
        control: ControlKind::Uncontrolled,
    });

    // Alliance spy.
    let spy = add_spy(&mut world, true, false, 75, 40);

    let mut state = AIState::new(AiFaction::Alliance);
    let mfg = ManufacturingState::new();

    let actions = evaluate(
        &mut state,
        &world,
        &mfg,
        &open_rebellion::movement::MovementState::new(),
        &ticks(7),
        &GameConfig::default(),
        &open_rebellion::research::ResearchState::new(),
    );

    let intel = actions.iter().find(|a| {
        matches!(
            a,
            AIAction::DispatchMission {
                kind: MissionKind::Espionage,
                character,
                target_system,
                ..
            }
            if *character == spy && *target_system == unexplored
        )
    });
    assert!(
        intel.is_some(),
        "expected intelligence mission on unexplored system"
    );
}

#[test]
fn covert_ops_capped_at_max_per_eval() {
    let mut world = empty_world();
    let sector = add_sector(&mut world);

    // Create 5 enemy manufacturing systems — more than MAX_COVERT_OPS_PER_EVAL.
    for i in 0..5u32 {
        let mfg_key = world.manufacturing_facilities.insert(
            open_rebellion::world::ManufacturingFacilityInstance {
                class_dat_id: DatId(i),
                is_alliance: true,
                is_shipyard: false,
            },
        );
        world.systems.insert(System {
            dat_id: DatId(i),
            name: format!("Enemy System {i}"),
            sector,
            x: (i * 10) as u16,
            y: 0,
            exploration_status: open_rebellion::dat::ExplorationStatus::Explored,
            popularity_alliance: 0.7f32.to_bits(),
            popularity_empire: 0.1f32.to_bits(),
            is_populated: true,
            total_energy: 0,
            raw_materials: 0,
            espionage_rating: 0,
            fleets: vec![],
            ground_units: vec![],
            special_forces: vec![],
            defense_facilities: vec![],
            manufacturing_facilities: vec![mfg_key],
            production_facilities: vec![],
            is_headquarters: false,
            is_destroyed: false,
            control: ControlKind::Uncontrolled,
        });
    }

    // 5 Empire spies — all highly skilled.
    for _ in 0..5 {
        add_spy(&mut world, false, false, 80, 60);
    }

    let mut state = AIState::new(AiFaction::Empire);
    let mfg = ManufacturingState::new();

    let actions = evaluate(
        &mut state,
        &world,
        &mfg,
        &open_rebellion::movement::MovementState::new(),
        &ticks(7),
        &GameConfig::default(),
        &open_rebellion::research::ResearchState::new(),
    );

    let covert_count = actions
        .iter()
        .filter(|a| {
            matches!(
                a,
                AIAction::DispatchMission {
                    kind: MissionKind::Sabotage
                        | MissionKind::Assassination
                        | MissionKind::Espionage,
                    ..
                }
            )
        })
        .count();

    assert!(
        covert_count <= MAX_COVERT_OPS_PER_EVAL,
        "expected at most {MAX_COVERT_OPS_PER_EVAL} covert ops, got {covert_count}",
    );
}

#[test]
fn interval_gates_repeated_evaluation() {
    let mut world = empty_world();
    let sector = add_sector(&mut world);
    let _ = add_system(&mut world, sector, 0.5, 0.5);

    let mut state = AIState::new(AiFaction::Alliance);
    let mfg = ManufacturingState::new();

    // First evaluation at tick 7
    let _first = evaluate(
        &mut state,
        &world,
        &mfg,
        &open_rebellion::movement::MovementState::new(),
        &[TickEvent { tick: 7 }],
        &GameConfig::default(),
        &open_rebellion::research::ResearchState::new(),
    );
    assert_eq!(state.last_eval_tick, 7);

    // Tick 10 — only 3 days elapsed, should skip
    let second = evaluate(
        &mut state,
        &world,
        &mfg,
        &open_rebellion::movement::MovementState::new(),
        &[TickEvent { tick: 10 }],
        &GameConfig::default(),
        &open_rebellion::research::ResearchState::new(),
    );
    assert!(
        second.is_empty(),
        "expected no actions before interval elapses"
    );
    assert_eq!(state.last_eval_tick, 7); // unchanged

    // Tick 14 — 7 days elapsed, should evaluate again
    let third = evaluate(
        &mut state,
        &world,
        &mfg,
        &open_rebellion::movement::MovementState::new(),
        &[TickEvent { tick: 14 }],
        &GameConfig::default(),
        &open_rebellion::research::ResearchState::new(),
    );
    assert_eq!(state.last_eval_tick, 14);
    let _ = third; // just checking it ran
}

// -----------------------------------------------------------------------
// Killed characters are invisible to dispatch
// -----------------------------------------------------------------------

#[test]
fn can_dispatch_rejects_killed_character() {
    let mut world = empty_world();
    let ck = add_character(&mut world, /*alliance*/ false, /*major*/ true, 50);
    let character = world.characters.get(ck).unwrap();
    let state = AIState::new(AiFaction::Empire);
    assert!(AISystem::can_dispatch(
        &state,
        AiFaction::Empire,
        ck,
        character
    ));

    // Kill and re-check.
    world.characters.get_mut(ck).unwrap().mark_killed();
    let character = world.characters.get(ck).unwrap();
    assert!(
        !AISystem::can_dispatch(&state, AiFaction::Empire, ck, character),
        "killed character must not pass dispatch gate"
    );
}

// -----------------------------------------------------------------------
// D1: Enhanced dispatch validator tests
// -----------------------------------------------------------------------

#[test]
fn can_dispatch_to_system_rejects_destroyed_system() {
    let mut world = empty_world();
    let sector = add_sector(&mut world);
    let sys = add_system(&mut world, sector, 0.5, 0.5);
    world.systems.get_mut(sys).unwrap().is_destroyed = true;

    assert!(
        !AISystem::can_dispatch_to_system(&world, AiFaction::Empire, sys),
        "destroyed system must not pass dispatch gate"
    );
}

#[test]
fn can_dispatch_to_system_allows_hostile_enemy_population() {
    let mut world = empty_world();
    let sector = add_sector(&mut world);
    let sys = add_system(&mut world, sector, 0.0, 1.0);
    world.systems.get_mut(sys).unwrap().control = ControlKind::Controlled(open_rebellion::dat::Faction::Alliance);

    assert!(
        AISystem::can_dispatch_to_system(&world, AiFaction::Empire, sys),
        "population hostility must not prevent a military attack"
    );
}

#[test]
fn can_dispatch_fleet_rejects_no_alive_ships() {
    let mut world = empty_world();
    let sector = add_sector(&mut world);
    let sys = add_system(&mut world, sector, 0.5, 0.5);

    let class_key = world
        .capital_ship_classes
        .insert(CapitalShipClass::default());
    // Create a fleet where all ships are dead.
    let mut ships = ShipInstance::make(class_key, 100, false, 2);
    for s in &mut ships {
        s.alive = false;
    }

    let fleet_key = world.fleets.insert(Fleet {
        location: sys,
        capital_ships: ships,
        fighters: vec![],
        characters: vec![],
        is_alliance: false,
        has_death_star: false,
    });

    assert!(
        !AISystem::can_dispatch_fleet(&world, fleet_key, AiFaction::Empire),
        "fleet with only dead ships must not pass dispatch gate"
    );
}

#[test]
fn can_dispatch_to_system_does_not_turn_strength_score_into_a_hard_gate() {
    let mut world = empty_world();
    let sector = add_sector(&mut world);
    let sys = add_system(&mut world, sector, 0.5, 0.5);
    world.systems.get_mut(sys).unwrap().control = ControlKind::Controlled(open_rebellion::dat::Faction::Alliance);

    // Add a massive Alliance fleet (enemy from Empire perspective).
    let class_key = world.capital_ship_classes.insert(CapitalShipClass {
        hull: 500,
        ..CapitalShipClass::default()
    });
    let enemy_fleet = world.fleets.insert(Fleet {
        location: sys,
        capital_ships: ShipInstance::make(class_key, 500, true, 10),
        fighters: vec![],
        characters: vec![],
        is_alliance: true,
        has_death_star: false,
    });
    world.systems.get_mut(sys).unwrap().fleets.push(enemy_fleet);

    // Add a tiny Empire fleet (friendly from Empire perspective).
    let small_class = world.capital_ship_classes.insert(CapitalShipClass {
        hull: 10,
        ..CapitalShipClass::default()
    });
    let friendly_fleet = world.fleets.insert(Fleet {
        location: sys,
        capital_ships: ShipInstance::make(small_class, 10, false, 1),
        fighters: vec![],
        characters: vec![],
        is_alliance: false,
        has_death_star: false,
    });
    world.systems.get_mut(sys).unwrap().fleets.push(friendly_fleet);

    assert!(
        AISystem::can_dispatch_to_system(&world, AiFaction::Empire, sys),
        "strength mismatch must remain a scoring concern, not a destination gate"
    );
}

// -----------------------------------------------------------------------
// D2: Troop deployment tests
// -----------------------------------------------------------------------

#[test]
fn troop_deployment_prioritizes_frontline_systems() {
    let mut world = empty_world();
    let sector = add_sector(&mut world);
    let config = GameConfig::default();

    // Donor system: 5 empire troops.
    let donor_sys = world.systems.insert(System {
        dat_id: DatId(0),
        name: "Donor".into(),
        sector,
        x: 0,
        y: 0,
        exploration_status: open_rebellion::dat::ExplorationStatus::Explored,
        popularity_alliance: 0.1f32.to_bits(),
        popularity_empire: 0.9f32.to_bits(),
        is_populated: true,
        total_energy: 0,
        raw_materials: 0,
        espionage_rating: 0,
        fleets: vec![],
        ground_units: vec![],
        special_forces: vec![],
        defense_facilities: vec![],
        manufacturing_facilities: vec![],
        production_facilities: vec![],
        is_headquarters: false,
        is_destroyed: false,
        control: ControlKind::Controlled(open_rebellion::dat::Faction::Empire),
    });
    for _ in 0..5 {
        let tk = world.troops.insert(open_rebellion::world::TroopUnit {
            class_dat_id: DatId(0),
            is_alliance: false,
            regiment_strength: 100,
        });
        world.systems.get_mut(donor_sys).unwrap().ground_units.push(tk);
    }
    let transport_class = world.capital_ship_classes.insert(CapitalShipClass {
        troop_capacity: 1,
        ..CapitalShipClass::default()
    });
    let transport = world.fleets.insert(Fleet {
        location: donor_sys,
        capital_ships: ShipInstance::make(transport_class, 100, false, 1),
        fighters: vec![],
        characters: vec![],
        is_alliance: false,
        has_death_star: false,
    });
    world.systems.get_mut(donor_sys).unwrap().fleets.push(transport);

    // Frontline receiver: 0 troops, near enemy territory.
    let frontline_sys = world.systems.insert(System {
        dat_id: DatId(1),
        name: "Frontline".into(),
        sector,
        x: 100,
        y: 0, // close to enemy
        exploration_status: open_rebellion::dat::ExplorationStatus::Explored,
        popularity_alliance: 0.1f32.to_bits(),
        popularity_empire: 0.9f32.to_bits(),
        is_populated: true,
        total_energy: 0,
        raw_materials: 0,
        espionage_rating: 0,
        fleets: vec![],
        ground_units: vec![],
        special_forces: vec![],
        defense_facilities: vec![],
        manufacturing_facilities: vec![],
        production_facilities: vec![],
        is_headquarters: false,
        is_destroyed: false,
        control: ControlKind::Controlled(open_rebellion::dat::Faction::Empire),
    });

    // Interior receiver: 0 troops, far from enemy.
    let _interior_sys = world.systems.insert(System {
        dat_id: DatId(2),
        name: "Interior".into(),
        sector,
        x: 0,
        y: 500, // far from enemy
        exploration_status: open_rebellion::dat::ExplorationStatus::Explored,
        popularity_alliance: 0.1f32.to_bits(),
        popularity_empire: 0.9f32.to_bits(),
        is_populated: true,
        total_energy: 0,
        raw_materials: 0,
        espionage_rating: 0,
        fleets: vec![],
        ground_units: vec![],
        special_forces: vec![],
        defense_facilities: vec![],
        manufacturing_facilities: vec![],
        production_facilities: vec![],
        is_headquarters: false,
        is_destroyed: false,
        control: ControlKind::Controlled(open_rebellion::dat::Faction::Empire),
    });

    // Enemy system at x=120 (near frontline_sys).
    let _ = world.systems.insert(System {
        dat_id: DatId(3),
        name: "Enemy".into(),
        sector,
        x: 120,
        y: 0,
        exploration_status: open_rebellion::dat::ExplorationStatus::Explored,
        popularity_alliance: 0.9f32.to_bits(),
        popularity_empire: 0.1f32.to_bits(),
        is_populated: true,
        total_energy: 0,
        raw_materials: 0,
        espionage_rating: 0,
        fleets: vec![],
        ground_units: vec![],
        special_forces: vec![],
        defense_facilities: vec![],
        manufacturing_facilities: vec![],
        production_facilities: vec![],
        is_headquarters: false,
        is_destroyed: false,
        control: ControlKind::Controlled(open_rebellion::dat::Faction::Alliance),
    });

    let mut actions = Vec::new();
    AISystem::evaluate_troop_deployment(
        &world,
        &open_rebellion::movement::MovementState::new(),
        AiFaction::Empire,
        &config,
        &mut actions,
    );

    // Should dispatch at least one troop move.
    assert!(!actions.is_empty(), "expected troop deployment actions");

    // First troop move should go to the frontline system (higher priority).
    if let AIAction::MoveFleet {
        fleet,
        to_system,
        reason: FleetMoveReason::Reinforce,
        troops,
    } = &actions[0]
    {
        assert_eq!(*fleet, transport);
        assert_eq!(
            *to_system, frontline_sys,
            "first troop deployment should target frontline system"
        );
        assert_eq!(troops.len(), 1);
    } else {
        panic!("expected transport-backed MoveFleet action");
    }
}

// -----------------------------------------------------------------------
// D3: Death Star multi-target and retreat tests
// -----------------------------------------------------------------------

#[test]
fn death_star_targets_highest_value_when_no_hq() {
    let mut world = empty_world();
    let sector = add_sector(&mut world);

    // DS fleet at a friendly system.
    let home_sys = add_system(&mut world, sector, 0.1, 0.9);
    world.systems.get_mut(home_sys).unwrap().control = ControlKind::Controlled(open_rebellion::dat::Faction::Empire);

    // Two enemy systems: one weak, one strong (but no HQ).
    let weak_sys = add_system(&mut world, sector, 0.8, 0.1);
    world.systems.get_mut(weak_sys).unwrap().control = ControlKind::Controlled(open_rebellion::dat::Faction::Alliance);
    world.systems.get_mut(weak_sys).unwrap().x = 50;

    let strong_sys = add_system(&mut world, sector, 0.8, 0.1);
    world.systems.get_mut(strong_sys).unwrap().control = ControlKind::Controlled(open_rebellion::dat::Faction::Alliance);
    world.systems.get_mut(strong_sys).unwrap().x = 100;
    // Add a large fleet to the strong system.
    let big_class = world.capital_ship_classes.insert(CapitalShipClass {
        hull: 200,
        ..CapitalShipClass::default()
    });
    let big_fleet = world.fleets.insert(Fleet {
        location: strong_sys,
        capital_ships: ShipInstance::make(big_class, 200, true, 5),
        fighters: vec![],
        characters: vec![],
        is_alliance: true,
        has_death_star: false,
    });
    world.systems.get_mut(strong_sys).unwrap().fleets.push(big_fleet);

    // DS fleet with one ship + death star flag.
    let ds_class = world
        .capital_ship_classes
        .insert(CapitalShipClass::default());
    let ds_fleet = world.fleets.insert(Fleet {
        location: home_sys,
        capital_ships: ShipInstance::make(ds_class, 100, false, 1),
        fighters: vec![],
        characters: vec![],
        is_alliance: false,
        has_death_star: true,
    });
    world.systems.get_mut(home_sys).unwrap().fleets.push(ds_fleet);

    let galaxy = AISystem::evaluate_galaxy_state(&world, AiFaction::Empire);
    let target = AISystem::select_ds_target(&world, &galaxy, home_sys, false);

    // Should pick the strong system (higher value) since no HQ exists.
    assert_eq!(
        target,
        Some(strong_sys),
        "DS should target highest-value enemy system when no HQ"
    );
}

#[test]
fn death_star_retreats_when_outgunned() {
    let mut world = empty_world();
    let sector = add_sector(&mut world);

    // DS at a system with overwhelming enemy presence.
    let danger_sys = add_system(&mut world, sector, 0.8, 0.2);
    world.systems.get_mut(danger_sys).unwrap().control = ControlKind::Controlled(open_rebellion::dat::Faction::Alliance);

    // Safe retreat system.
    let safe_sys = add_system(&mut world, sector, 0.2, 0.8);
    world.systems.get_mut(safe_sys).unwrap().control = ControlKind::Controlled(open_rebellion::dat::Faction::Empire);
    world.systems.get_mut(safe_sys).unwrap().x = 50;

    // Big enemy fleet at danger_sys.
    let big_class = world.capital_ship_classes.insert(CapitalShipClass {
        hull: 500,
        ..CapitalShipClass::default()
    });
    let enemy_fleet = world.fleets.insert(Fleet {
        location: danger_sys,
        capital_ships: ShipInstance::make(big_class, 500, true, 10),
        fighters: vec![],
        characters: vec![],
        is_alliance: true,
        has_death_star: false,
    });
    world.systems.get_mut(danger_sys).unwrap().fleets.push(enemy_fleet);

    // DS fleet (tiny, outgunned).
    let ds_class = world
        .capital_ship_classes
        .insert(CapitalShipClass::default());
    let ds_fleet = world.fleets.insert(Fleet {
        location: danger_sys,
        capital_ships: ShipInstance::make(ds_class, 100, false, 1),
        fighters: vec![],
        characters: vec![],
        is_alliance: false,
        has_death_star: true,
    });
    world.systems.get_mut(danger_sys).unwrap().fleets.push(ds_fleet);

    let movement = open_rebellion::movement::MovementState::new();
    let mut actions = Vec::new();
    let advice = Advice {
        death_star_outgunned: outgunned(&world, AiFaction::Empire),
        ..Advice::none()
    };
    AISystem::evaluate_ds_escort(&world, &movement, AiFaction::Empire, &advice, &mut actions);

    // DS should retreat because enemy strength >> friendly strength.
    let retreat = actions.iter().find(|a| {
        matches!(
            a,
            AIAction::MoveFleet { fleet, to_system, reason: FleetMoveReason::Reinforce, .. }
            if *fleet == ds_fleet && *to_system == safe_sys
        )
    });
    assert!(
        retreat.is_some(),
        "Death Star should retreat when outgunned"
    );
}

// -----------------------------------------------------------------------
// D5: Reconnaissance test
// -----------------------------------------------------------------------

#[test]
fn reconnaissance_targets_explored_enemy_systems() {
    let mut world = empty_world();
    let sector = add_sector(&mut world);
    let config = GameConfig::default();

    // Explored enemy system — a recon target.
    let enemy_sys = world.systems.insert(System {
        dat_id: DatId(0),
        name: "Enemy Base".into(),
        sector,
        x: 100,
        y: 100,
        exploration_status: open_rebellion::dat::ExplorationStatus::Explored,
        popularity_alliance: 0.8f32.to_bits(),
        popularity_empire: 0.1f32.to_bits(),
        is_populated: true,
        total_energy: 0,
        raw_materials: 0,
        espionage_rating: 0,
        fleets: vec![],
        ground_units: vec![],
        special_forces: vec![],
        defense_facilities: vec![],
        manufacturing_facilities: vec![],
        production_facilities: vec![],
        is_headquarters: false,
        is_destroyed: false,
        control: ControlKind::Controlled(open_rebellion::dat::Faction::Alliance),
    });

    // Empire spy for recon.
    let spy = add_spy(&mut world, false, false, 70, 40);

    let state = AIState::new(AiFaction::Empire);
    let mut actions = Vec::new();
    let advice = covert_advice();
    AISystem::evaluate_reconnaissance(
        &state,
        &world,
        AiFaction::Empire,
        &config,
        &advice,
        &mut actions,
    );

    let recon = actions.iter().find(|a| {
        matches!(
            a,
            AIAction::DispatchMission {
                kind: MissionKind::Espionage,
                character,
                target_system,
                ..
            }
            if *character == spy && *target_system == enemy_sys
        )
    });
    assert!(
        recon.is_some(),
        "expected reconnaissance mission on explored enemy system"
    );
}

#[test]
fn assassins_go_for_the_most_skilled_leader() {
    let mut world = empty_world();
    let sector = add_sector(&mut world);
    let base = add_system(&mut world, sector, 0.8, 0.1);
    let lesser = add_spy(&mut world, true, true, 20, 20);
    let greater = add_spy(&mut world, true, true, 20, 21);
    let equal = add_spy(&mut world, true, true, 21, 20);
    let assassins: Vec<CharacterKey> = (0..3)
        .map(|_| add_spy(&mut world, false, false, 80, 90))
        .collect();
    let mut actions = vec![];
    AISystem::evaluate_espionage(
        &AIState::new(AiFaction::Empire),
        &world,
        AiFaction::Empire,
        &GameConfig::default(),
        &covert_advice(),
        &mut actions,
    );
    let targets: Vec<(CharacterKey, Option<CharacterKey>)> = actions
        .iter()
        .map(|action| match action {
            AIAction::DispatchMission {
                kind: MissionKind::Assassination,
                character,
                target_system,
                target_character,
                ..
            } => {
                assert_eq!(*target_system, base);
                (*character, *target_character)
            }
            other => panic!("unexpected {other:?}"),
        })
        .collect();
    assert_eq!(
        targets,
        vec![
            (assassins[0], Some(greater)),
            (assassins[1], Some(equal)),
            (assassins[2], Some(lesser)),
        ]
    );
}

/// What a single officer of the Empire is sent to do.
fn errand(world: &GameWorld) -> Vec<(MissionKind, SystemKey, Option<CharacterKey>)> {
    let mut actions = vec![];
    AISystem::evaluate_officers(
        &AIState::new(AiFaction::Empire),
        world,
        AiFaction::Empire,
        &GameConfig::default(),
        &mut actions,
    );
    actions
        .iter()
        .map(|action| match action {
            AIAction::DispatchMission {
                kind,
                target_system,
                target_character,
                ..
            } => (*kind, *target_system, *target_character),
            other => panic!("unexpected {other:?}"),
        })
        .collect()
}

#[test]
fn a_major_diplomat_recruits_while_there_is_an_officer_to_win_over() {
    let mut world = empty_world();
    let sector = add_sector(&mut world);
    let system = add_system(&mut world, sector, 0.8, 0.1);
    add_character(&mut world, false, true, 100);
    assert_eq!(errand(&world), vec![(MissionKind::InciteUprising, system, None)]);
    let other = add_character(&mut world, true, false, 10);
    assert_eq!(errand(&world), vec![(MissionKind::Recruitment, system, Some(other))]);
}

#[test]
fn any_remaining_major_does_diplomacy() {
    let mut world = empty_world();
    let sector = add_sector(&mut world);
    let system = add_system(&mut world, sector, 0.3, 0.1);
    add_character(&mut world, false, true, 5);
    add_character(&mut world, false, false, 5);
    assert_eq!(errand(&world), vec![(MissionKind::Diplomacy, system, None)]);
}

/// An Alliance system at some distance with a garrison of some strength.
fn add_target(world: &mut GameWorld, sector: SectorKey, x: u16, strength: i32) -> SystemKey {
    let system = add_system(world, sector, 0.8, 0.1);
    let class = world
        .capital_ship_classes
        .insert(CapitalShipClass::default());
    let fleet = world.fleets.insert(Fleet {
        location: system,
        capital_ships: ShipInstance::make(class, strength, true, 1),
        fighters: vec![],
        characters: vec![],
        is_alliance: true,
        has_death_star: false,
    });
    let sys = world.systems.get_mut(system).unwrap();
    sys.x = x;
    sys.fleets.push(fleet);
    sys.control = ControlKind::Controlled(open_rebellion::dat::Faction::Alliance);
    system
}

#[test]
fn the_death_star_seeks_strength_before_nearness() {
    let mut world = empty_world();
    let sector = add_sector(&mut world);
    let home = add_system(&mut world, sector, 0.1, 0.9);
    add_target(&mut world, sector, 10, 10);
    let strong = add_target(&mut world, sector, 200, 20);
    let choose = |world: &GameWorld| {
        let galaxy = AISystem::evaluate_galaxy_state(world, AiFaction::Empire);
        AISystem::select_ds_target(world, &galaxy, home, false)
    };
    assert_eq!(choose(&world), Some(strong));
    let nearer = add_target(&mut world, sector, 199, 20);
    assert_eq!(choose(&world), Some(nearer));
    add_target(&mut world, sector, 60000, 19);
    assert_eq!(choose(&world), Some(nearer));
    let far = add_target(&mut world, sector, 60000, 21);
    assert_eq!(choose(&world), Some(far));
}

#[test]
fn a_lost_fleet_matters_only_to_the_search_for_an_escort() {
    let mut world = empty_world();
    let sector = add_sector(&mut world);
    let home = add_system(&mut world, sector, 0.1, 0.9);
    let nowhere = SystemKey { slot: 99 };
    let class = world
        .capital_ship_classes
        .insert(CapitalShipClass::default());
    let fleet = |location: SystemKey, has_death_star: bool| Fleet {
        location,
        capital_ships: ShipInstance::make(class, 100, false, 1),
        fighters: vec![],
        characters: vec![],
        is_alliance: false,
        has_death_star,
    };
    let station = world.fleets.insert(fleet(home, true));
    let lost = world.fleets.insert(fleet(nowhere, false));
    let mut movement = open_rebellion::movement::MovementState::new();
    let advice = Advice::none();
    let ready = |world: &GameWorld, movement: &open_rebellion::movement::MovementState| {
        AISystem::can_route_escort(world, movement, AiFaction::Empire, &advice)
    };
    let escorts = |world: &GameWorld, movement: &open_rebellion::movement::MovementState| {
        let mut actions = vec![];
        AISystem::evaluate_ds_escort(world, movement, AiFaction::Empire, &advice, &mut actions);
        actions
    };
    // Alone at home, with a fleet at no system that might be sent for.
    assert!(!ready(&world, &movement));
    // That fleet is under way: it is not asked.
    assert!(movement.order(lost, home, home, 5));
    assert!(ready(&world, &movement));
    assert!(escorts(&world, &movement).is_empty());
    // The nearest of the others is sent.
    let other = add_system(&mut world, sector, 0.1, 0.9);
    let friend = world.fleets.insert(fleet(other, false));
    assert!(ready(&world, &movement));
    assert!(matches!(
        escorts(&world, &movement).as_slice(),
        [AIAction::MoveFleet { fleet, to_system, .. }] if *fleet == friend && *to_system == home
    ));
    // An escorted station may itself be at no system.
    world.fleets.get_mut(station).unwrap().location = nowhere;
    world.fleets.get_mut(friend).unwrap().location = nowhere;
    assert!(ready(&world, &movement));
    assert!(escorts(&world, &movement).is_empty());
    world.fleets.get_mut(friend).unwrap().location = home;
    world.fleets.get_mut(lost).unwrap().location = home;
    assert!(!ready(&world, &movement));
    // A station under way asks nothing.
    assert!(movement.order(station, home, home, 5));
    assert!(ready(&world, &movement));
    assert!(escorts(&world, &movement).is_empty());
}

#[test]
fn a_day_without_evaluation_asks_nothing_of_the_world() {
    let mut world = empty_world();
    let class = world
        .capital_ship_classes
        .insert(CapitalShipClass::default());
    world.fleets.insert(Fleet {
        location: SystemKey { slot: 99 },
        capital_ships: ShipInstance::make(class, 100, false, 1),
        fighters: vec![],
        characters: vec![],
        is_alliance: false,
        has_death_star: true,
    });
    let mut state = AIState::new(AiFaction::Empire);
    state.last_eval_tick = 10;
    let actions = AISystem::advance(
        &mut state,
        &world,
        &ManufacturingState::new(),
        &open_rebellion::movement::MovementState::new(),
        &[TickEvent { tick: 11 }],
        &GameConfig::default(),
        &open_rebellion::research::ResearchState::new(),
        &Advice::none(),
    );
    assert!(actions.is_empty());
    assert_eq!(state.last_eval_tick, 10);
}
