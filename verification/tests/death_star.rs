//! Tests of the Death Star.

use open_rebellion::dat::{ExplorationStatus, Faction, SectorGroup};
use open_rebellion::death_star::{
    DeathStarEvent, DeathStarState, DeathStarSystem, DEATH_STAR_CONSTRUCTION_TICKS,
    NEARBY_WARNING_RADIUS,
};
use open_rebellion::ids::{DatId, FleetKey, SystemKey};
use open_rebellion::tick::TickEvent;
use open_rebellion::world::{ControlKind, Fleet, GameWorld, Sector, System};

fn tick(n: u64) -> TickEvent {
    TickEvent { tick: n }
}

fn make_world() -> (GameWorld, SystemKey) {
    let mut world = GameWorld::default();
    let sector = world.sectors.insert(Sector {
        dat_id: DatId::new(0x9200_0000),
        name: "Outer Rim".into(),
        group: SectorGroup::RimOuter,
        x: 0,
        y: 0,
        systems: vec![],
    });
    let sys = world.systems.insert(System {
        dat_id: DatId::new(0x9000_0000),
        name: "Alderaan".into(),
        sector,
        x: 100,
        y: 100,
        exploration_status: ExplorationStatus::Explored,
        popularity_alliance: 0.9f32.to_bits(),
        popularity_empire: 0.1f32.to_bits(),
        is_populated: true,
        total_energy: 0,
        raw_materials: 0,
        espionage_rating: 0,
        fleets: vec![],
        ground_units: vec![],
        special_forces: vec![],
        defense_facilities: vec![],
        manufacturing_facilities: vec![],
        production_facilities: vec![],
        is_headquarters: false,
        is_destroyed: false,
        control: ControlKind::Controlled(Faction::Alliance),
    });
    (world, sys)
}

fn add_ds_fleet(world: &mut GameWorld, sys: SystemKey) -> FleetKey {
    let fk = world.fleets.insert(Fleet {
        location: sys,
        capital_ships: vec![],
        fighters: vec![],
        characters: vec![],
        is_alliance: false,
        has_death_star: true,
    });
    world.systems.get_mut(sys).unwrap().fleets.push(fk);
    fk
}

// ── Construction tests ───────────────────────────────────────────────────

#[test]
fn test_construction_countdown_completes() {
    let (world, sys) = make_world();
    let mut state = DeathStarState::default();
    DeathStarSystem::start_construction(&mut state, sys);

    // Advance almost to completion.
    let almost = DEATH_STAR_CONSTRUCTION_TICKS - 1;
    let ticks: Vec<TickEvent> = (1..=u64::from(almost)).map(tick).collect();
    let events = DeathStarSystem::advance(&mut state, &world, &ticks);
    assert!(events.is_empty(), "should not complete yet");
    assert_eq!(
        state.under_construction.as_ref().unwrap().ticks_remaining,
        1
    );

    // Final tick.
    let events = DeathStarSystem::advance(
        &mut state,
        &world,
        &[tick(u64::from(DEATH_STAR_CONSTRUCTION_TICKS))],
    );
    assert!(
        events
            .iter()
            .any(|e| matches!(e, DeathStarEvent::ConstructionCompleted { .. })),
        "expected ConstructionCompleted"
    );
}

#[test]
fn test_construction_no_double_start() {
    let (_, sys) = make_world();
    let mut state = DeathStarState::default();
    assert!(DeathStarSystem::start_construction(&mut state, sys));
    assert!(
        !DeathStarSystem::start_construction(&mut state, sys),
        "second start_construction must return false"
    );
}

#[test]
fn test_clear_construction() {
    let (_, sys) = make_world();
    let mut state = DeathStarState::default();
    DeathStarSystem::start_construction(&mut state, sys);
    DeathStarSystem::clear_construction(&mut state);
    assert!(state.under_construction.is_none());
}

#[test]
fn test_no_events_without_ticks() {
    let (world, sys) = make_world();
    let mut state = DeathStarState::default();
    DeathStarSystem::start_construction(&mut state, sys);
    let events = DeathStarSystem::advance(&mut state, &world, &[]);
    assert!(events.is_empty());
}

// ── Planet destruction tests ─────────────────────────────────────────────

/// A `DeathStarState` with shield destroyed (can fire).
fn state_shield_down() -> DeathStarState {
    DeathStarState {
        under_construction: None,
        death_star_fleet: None,
        shield_generator_active: false,
    }
}

#[test]
fn test_fire_succeeds_on_valid_target() {
    let (mut world, sys) = make_world();
    add_ds_fleet(&mut world, sys);
    let state = state_shield_down();

    let evt = DeathStarSystem::fire(&state, &world, sys, 42);
    assert!(
        matches!(evt, Some(DeathStarEvent::PlanetDestroyed { system, tick: 42 }) if system == sys),
        "expected PlanetDestroyed"
    );
}

#[test]
fn test_fire_blocked_by_shield() {
    let (mut world, sys) = make_world();
    add_ds_fleet(&mut world, sys);
    let state = DeathStarState::default(); // shield_generator_active = true

    assert!(
        DeathStarSystem::fire(&state, &world, sys, 1).is_none(),
        "Death Star must not fire while shield generator is active"
    );
}

#[test]
fn test_fire_after_shield_destroyed() {
    let (mut world, sys) = make_world();
    add_ds_fleet(&mut world, sys);
    let mut state = DeathStarState::default();
    assert!(DeathStarSystem::fire(&state, &world, sys, 1).is_none());

    state.destroy_shield();
    assert!(
        DeathStarSystem::fire(&state, &world, sys, 1).is_some(),
        "Death Star should fire after shield is destroyed"
    );
}

#[test]
fn test_fire_blocked_already_destroyed() {
    let (mut world, sys) = make_world();
    add_ds_fleet(&mut world, sys);
    let state = state_shield_down();
    world.systems.get_mut(sys).unwrap().is_destroyed = true;

    assert!(DeathStarSystem::fire(&state, &world, sys, 1).is_none());
}

#[test]
fn test_fire_blocked_no_death_star_fleet() {
    let (mut world, sys) = make_world();
    let state = state_shield_down();
    let fk = world.fleets.insert(Fleet {
        location: sys,
        capital_ships: vec![],
        fighters: vec![],
        characters: vec![],
        is_alliance: false,
        has_death_star: false,
    });
    world.systems.get_mut(sys).unwrap().fleets.push(fk);

    assert!(DeathStarSystem::fire(&state, &world, sys, 1).is_none());
}

#[test]
fn test_fire_blocked_empire_controlled() {
    let (mut world, sys) = make_world();
    let state = state_shield_down();
    world.systems.get_mut(sys).unwrap().control = ControlKind::Controlled(Faction::Empire);
    add_ds_fleet(&mut world, sys);

    assert!(
        DeathStarSystem::fire(&state, &world, sys, 1).is_none(),
        "Death Star must not fire on Empire-controlled systems"
    );
}

// ── Nearby-warning tests ─────────────────────────────────────────────────

#[test]
fn test_nearby_warning_emitted_for_close_system() {
    let (mut world, ds_sys) = make_world();
    // Add a second Alliance system within radius.
    let sector = world.systems.get(ds_sys).unwrap().sector;
    let nearby_sys = world.systems.insert(System {
        dat_id: DatId::new(0x9000_0001),
        name: "Tatooine".into(),
        sector,
        x: 100 + NEARBY_WARNING_RADIUS as u16 / 2,
        y: 100,
        exploration_status: ExplorationStatus::Explored,
        popularity_alliance: 0.6f32.to_bits(),
        popularity_empire: 0.4f32.to_bits(),
        is_populated: true,
        total_energy: 0,
        raw_materials: 0,
        espionage_rating: 0,
        fleets: vec![],
        ground_units: vec![],
        special_forces: vec![],
        defense_facilities: vec![],
        manufacturing_facilities: vec![],
        production_facilities: vec![],
        is_headquarters: false,
        is_destroyed: false,
        control: ControlKind::Controlled(Faction::Alliance),
    });
    let _ = nearby_sys;

    let fleet_key = add_ds_fleet(&mut world, ds_sys);
    let mut state = DeathStarState {
        under_construction: None,
        death_star_fleet: Some(fleet_key),
        shield_generator_active: false,
    };

    let events = DeathStarSystem::advance(&mut state, &world, &[tick(1)]);
    assert!(
        events
            .iter()
            .any(|e| matches!(e, DeathStarEvent::NearbyWarning { .. })),
        "expected NearbyWarning for close Alliance system"
    );
}

#[test]
fn test_no_nearby_warning_for_distant_system() {
    let (mut world, ds_sys) = make_world();
    let sector = world.systems.get(ds_sys).unwrap().sector;
    // Place a system far outside the warning radius.
    world.systems.insert(System {
        dat_id: DatId::new(0x9000_0001),
        name: "Distant World".into(),
        sector,
        x: 100 + NEARBY_WARNING_RADIUS as u16 * 2,
        y: 100,
        exploration_status: ExplorationStatus::Explored,
        popularity_alliance: 0.5f32.to_bits(),
        popularity_empire: 0.5f32.to_bits(),
        is_populated: true,
        total_energy: 0,
        raw_materials: 0,
        espionage_rating: 0,
        fleets: vec![],
        ground_units: vec![],
        special_forces: vec![],
        defense_facilities: vec![],
        manufacturing_facilities: vec![],
        production_facilities: vec![],
        is_headquarters: false,
        is_destroyed: false,
        control: ControlKind::Controlled(Faction::Alliance),
    });

    let fleet_key = add_ds_fleet(&mut world, ds_sys);
    let mut state = DeathStarState {
        under_construction: None,
        death_star_fleet: Some(fleet_key),
        shield_generator_active: false,
    };

    let events = DeathStarSystem::advance(&mut state, &world, &[tick(1)]);
    let warning_count = events
        .iter()
        .filter(|e| matches!(e, DeathStarEvent::NearbyWarning { .. }))
        .count();
    assert_eq!(
        warning_count, 0,
        "distant system should not trigger NearbyWarning"
    );
}
