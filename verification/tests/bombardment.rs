//! Tests of orbital bombardment.

use open_rebellion::bombardment::BombardmentSystem;
use open_rebellion::dat::{ExplorationStatus, Faction, SectorGroup};
use open_rebellion::ids::{CapitalShipKey, DatId, FleetKey, SectorKey, SystemKey};
use open_rebellion::world::{
    CapitalShipClass, ControlKind, Fleet, GameWorld, GnprtbEntry, GnprtbParams, Sector,
    ShipInstance, System,
};

fn make_world_with_gnprtb() -> GameWorld {
    let mut world = GameWorld::default();
    // Seed the bombardment divisor: param_id = 0x1400 = 5120, value = 5.
    world.gnprtb = GnprtbParams::new(vec![GnprtbEntry {
        parameter_id: 0x1400,
        development: 5,
        alliance_sp_easy: 5,
        alliance_sp_medium: 5,
        alliance_sp_hard: 5,
        empire_sp_easy: 5,
        empire_sp_medium: 5,
        empire_sp_hard: 5,
        multiplayer: 5,
    }]);
    world
}

fn make_sector(world: &mut GameWorld) -> SectorKey {
    world.sectors.insert(Sector {
        dat_id: DatId::new(0x9200_0001),
        name: "Outer Rim".into(),
        group: SectorGroup::Core,
        x: 0,
        y: 0,
        systems: vec![],
    })
}

fn make_system(
    world: &mut GameWorld,
    sector: SectorKey,
    controlling: Option<Faction>,
) -> SystemKey {
    world.systems.insert(System {
        dat_id: DatId::new(0x9000_0001),
        name: "Hoth".into(),
        sector,
        x: 50,
        y: 50,
        exploration_status: ExplorationStatus::Explored,
        popularity_alliance: 0.5f32.to_bits(),
        popularity_empire: 0.5f32.to_bits(),
        is_populated: true,
        total_energy: 0,
        raw_materials: 0,
        espionage_rating: 0,
        fleets: vec![],
        ground_units: vec![],
        special_forces: vec![],
        defense_facilities: vec![],
        manufacturing_facilities: vec![],
        production_facilities: vec![],
        control: controlling.map_or(ControlKind::Uncontrolled, ControlKind::Controlled),
        is_headquarters: false,
        is_destroyed: false,
    })
}

fn make_capital_ship_class(world: &mut GameWorld, bombardment: u32) -> CapitalShipKey {
    world.capital_ship_classes.insert(CapitalShipClass {
        dat_id: DatId::new(0x3000_0001),
        name: "ISD".into(),
        is_alliance: false,
        is_empire: true,
        hull: 200,
        shield_strength: 10,
        sub_light_engine: 5,
        maneuverability: 3,
        hyperdrive: 2,
        fighter_capacity: 6,
        detection: 5,
        turbolaser_fore: 5,
        shield_recharge_rate: 3,
        damage_control: 1,
        bombardment_modifier: bombardment,
        ..CapitalShipClass::default()
    })
}

fn make_fleet(
    world: &mut GameWorld,
    sys: SystemKey,
    class: CapitalShipKey,
    count: u32,
    is_alliance: bool,
) -> FleetKey {
    let hull = world.capital_ship_classes.get(class).unwrap().hull as i32;
    world.fleets.insert(Fleet {
        location: sys,
        capital_ships: ShipInstance::make(class, hull, is_alliance, count),
        fighters: vec![],
        characters: vec![],
        is_alliance,
        has_death_star: false,
    })
}

#[test]
fn test_bombardment_formula_minimum_one_damage() {
    // Even with zero attack vs zero defense, we get 0 (raw_power=0 guard fires).
    // But with any positive attack > defense, result must be >= 1.
    let mut world = make_world_with_gnprtb();
    let sector = make_sector(&mut world);
    let sys = make_system(&mut world, sector, Some(Faction::Alliance));
    let class = make_capital_ship_class(&mut world, 20); // bombardment=20, def=0
    let fleet = make_fleet(&mut world, sys, class, 3, false); // Empire attacks Alliance

    let result = BombardmentSystem::resolve_bombardment(&world, fleet, sys, 2, 1);
    assert!(
        result.damage >= 1,
        "Bombardment damage should be at least 1, got {}",
        result.damage
    );
}

#[test]
fn test_bombardment_no_self_damage() {
    let mut world = make_world_with_gnprtb();
    let sector = make_sector(&mut world);
    // Empire controls, Empire attacks → self-bombardment → damage = 0.
    let sys = make_system(&mut world, sector, Some(Faction::Empire));
    let class = make_capital_ship_class(&mut world, 100);
    let fleet = make_fleet(&mut world, sys, class, 5, false); // is_alliance=false = Empire

    let result = BombardmentSystem::resolve_bombardment(&world, fleet, sys, 2, 1);
    assert_eq!(result.damage, 0, "Self-bombardment must deal 0 damage");
}

#[test]
fn test_bombardment_scales_with_fleet_strength() {
    let mut world = make_world_with_gnprtb();
    let sector = make_sector(&mut world);
    let sys = make_system(&mut world, sector, Some(Faction::Alliance));

    let class_small = make_capital_ship_class(&mut world, 5);
    let fleet_small = make_fleet(&mut world, sys, class_small, 1, false);
    let result_small = BombardmentSystem::resolve_bombardment(&world, fleet_small, sys, 2, 1);

    let class_large = make_capital_ship_class(&mut world, 50);
    let fleet_large = make_fleet(&mut world, sys, class_large, 5, false);
    let result_large = BombardmentSystem::resolve_bombardment(&world, fleet_large, sys, 2, 1);

    assert!(
        result_large.damage >= result_small.damage,
        "Larger fleet should deal >= damage: large={} small={}",
        result_large.damage,
        result_small.damage
    );
}

#[test]
fn test_bombardment_euclidean_formula_exact() {
    // Manual calculation: atk=(30, 3*1=3), def=(0, 0), divisor=5.
    // raw_power = sqrt(30² + 3²) = sqrt(900 + 9) = sqrt(909) ≈ 30.15
    // damage = floor(30.15 / 5) = floor(6.03) = 6
    let mut world = make_world_with_gnprtb();
    let sector = make_sector(&mut world);
    let sys = make_system(&mut world, sector, Some(Faction::Alliance));
    let class = make_capital_ship_class(&mut world, 30); // bombardment=30, maneuver=3
    let fleet = make_fleet(&mut world, sys, class, 1, false);

    let result = BombardmentSystem::resolve_bombardment(&world, fleet, sys, 2, 1);
    assert_eq!(result.damage, 6);
}
