//! Tests of space and ground combat.

use open_rebellion::combat::{
    extract_difficulty, CombatEntityKind, CombatSide, CombatSystem, GroundCombatResult,
    ShipDamageEvent, SpaceCombatResult,
};
use open_rebellion::dat::{ExplorationStatus, SectorGroup};
use open_rebellion::ground::Exchange;
use open_rebellion::ids::{
    CapitalShipKey, DatId, FighterKey, FleetKey, SectorKey, SystemKey, TroopKey,
};
use open_rebellion::space::{find_emperor, spur, ShipSnap};
use open_rebellion::space_battle::SpaceDice;
use open_rebellion::world::{
    CapitalShipClass, Character, ControlKind, DefenseFacilityClassDef, DefenseFacilityInstance,
    FighterClass, FighterEntry, Fleet, GameWorld, GnprtbEntry, GnprtbParams, Sector, ShipInstance,
    SkillPair, System, TroopClassDef, TroopUnit,
};

// ---------------------------------------------------------------------------
// What the caller works out in floating point
// ---------------------------------------------------------------------------

type Rolls<'a> = std::iter::Copied<std::slice::Iter<'a, f64>>;

fn spread(share: Option<i64>, targets: &[ShipSnap], rolls: &mut Rolls) -> Vec<i64> {
    let Some(share) = share else {
        return vec![];
    };
    let alive = targets.iter().filter(|ship| ship.alive).count();
    (0..alive)
        .map(|_| (share as f64 * 0.2 * (rolls.next().unwrap_or(0.5) * 2.0 - 1.0)) as i64)
        .collect()
}

fn fire(
    world: &GameWorld,
    fleet: FleetKey,
    firing: &Vec<ShipSnap>,
    targets: &mut Vec<ShipSnap>,
    rolls: &mut Rolls,
) -> Vec<i64> {
    let (fire, ion) = CombatSystem::fire_power(world, fleet, firing);
    let spread = spread(CombatSystem::fire_share(fire, ion, targets), targets, rolls);
    CombatSystem::phase_weapon_fire(world, fleet, firing, targets, &spread);
    spread
}

fn blows(ships: &[ShipSnap], modifier: f64) -> Vec<i32> {
    ships
        .iter()
        .map(|ship| (f64::from(ship.pending_damage) * modifier) as i32)
        .collect()
}

fn hull_damage(ships: &mut Vec<ShipSnap>, modifier: f64, generator_runs: bool) -> Vec<i32> {
    let blows = blows(ships, modifier);
    CombatSystem::phase_hull_damage(ships, &blows, generator_runs);
    blows
}

fn picks(
    world: &GameWorld,
    fleet: &Fleet,
    squadrons: &Vec<u32>,
    targets: &mut Vec<ShipSnap>,
    rolls: &mut Rolls,
    generator_runs: bool,
) -> Vec<usize> {
    let alive = targets.iter().filter(|ship| ship.alive).count();
    if alive == 0 {
        return vec![];
    }
    let picks = (0..CombatSystem::attack_runs(world, fleet, squadrons))
        .map(|_| (rolls.next().unwrap_or(0.5) * alive as f64) as usize)
        .collect();
    CombatSystem::fighters_attack_ships(squadrons, fleet, targets, world, &picks, generator_runs);
    picks
}

fn screen(
    world: &GameWorld,
    fleet: FleetKey,
    ships: &Vec<ShipSnap>,
    enemies: &mut Vec<u32>,
    rolls: &mut Rolls,
) -> bool {
    let power = CombatSystem::screen_power(world, fleet, ships);
    if power == 0 || enemies.iter().all(|&count| count == 0) {
        return false;
    }
    let roll = rolls.next().unwrap_or(0.5).clamp(0.0, 1.0);
    let extra = roll * 100.0 < (power % 100) as f64;
    CombatSystem::capital_ships_attack_fighters(world, fleet, ships, enemies, extra);
    extra
}

fn wing_power(world: &GameWorld, fleet: &Fleet, wing: &[u32]) -> f64 {
    wing.iter()
        .enumerate()
        .filter(|(_, &count)| count > 0)
        .map(|(i, &count)| {
            let (attack, agility) = fleet.fighters.get(i).map_or((1.0, 0.0), |entry| {
                let class = world.fighter_classes.get(entry.class).unwrap();
                (
                    f64::from(class.overall_attack_strength),
                    f64::from(class.maneuverability),
                )
            });
            f64::from(count) * (attack + agility / 2.0)
        })
        .sum()
}

fn space_dice(
    world: &GameWorld,
    attacker: FleetKey,
    defender: FleetKey,
    difficulty: u8,
    rolls: &[f64],
    generator_runs: bool,
) -> SpaceDice {
    let mut rolls = rolls.iter().copied();
    let modifier = f64::from(CombatSystem::damage_percent(world, difficulty)) / 100.0;
    let (mut atk, atk_wing) = CombatSystem::snapshot_fleet(world, attacker);
    let (mut def, def_wing) = CombatSystem::snapshot_fleet(world, defender);
    let mut dice = SpaceDice {
        fire_on_defender: vec![],
        fire_on_attacker: vec![],
        attacker_blows: vec![],
        defender_blows: vec![],
        attacker_picks: vec![],
        defender_picks: vec![],
        attacker_screen: false,
        defender_screen: false,
        attacker_losses: 0,
        defender_losses: 0,
    };
    if atk.iter().chain(&def).any(|ship| ship.alive && ship.weapon_nibble > 0) {
        dice.fire_on_defender = fire(world, attacker, &atk, &mut def, &mut rolls);
        dice.fire_on_attacker = fire(world, defender, &def, &mut atk, &mut rolls);
    }
    let atk_fleet = world.fleets.get(attacker).unwrap();
    let def_fleet = world.fleets.get(defender).unwrap();
    if find_emperor(world, atk_fleet) {
        spur(&mut def);
    }
    if find_emperor(world, def_fleet) {
        spur(&mut atk);
    }
    CombatSystem::phase_shield_absorb(&mut atk);
    CombatSystem::phase_shield_absorb(&mut def);
    dice.attacker_blows = hull_damage(&mut atk, modifier, generator_runs);
    dice.defender_blows = hull_damage(&mut def, modifier, generator_runs);

    let atk_room =
        CombatSystem::compute_carrier_capacity(world, attacker, &atk, atk.is_empty());
    let def_room =
        CombatSystem::compute_carrier_capacity(world, defender, &def, def.is_empty());
    let mut atk_up = CombatSystem::launch_fighters(&atk_wing, atk_room);
    let mut def_up = CombatSystem::launch_fighters(&def_wing, def_room);
    dice.attacker_picks =
        picks(world, atk_fleet, &atk_up, &mut def, &mut rolls, generator_runs);
    dice.defender_picks =
        picks(world, def_fleet, &def_up, &mut atk, &mut rolls, generator_runs);
    dice.attacker_screen = screen(world, attacker, &atk, &mut def_up, &mut rolls);
    dice.defender_screen = screen(world, defender, &def, &mut atk_up, &mut rolls);
    if CombatSystem::wings_engage(world, atk_fleet, &atk_up, def_fleet, &def_up) {
        let atk_total: u32 = atk_up.iter().sum();
        let def_total: u32 = def_up.iter().sum();
        let atk_power = wing_power(world, atk_fleet, &atk_up);
        let def_power = wing_power(world, def_fleet, &def_up);
        let all = atk_power + def_power;
        let atk_roll = rolls.next().unwrap_or(0.5);
        let def_roll = rolls.next().unwrap_or(0.5);
        dice.attacker_losses =
            (f64::from(atk_total) * (def_power / all) * 0.4 * atk_roll) as u32;
        dice.defender_losses =
            (f64::from(def_total) * (atk_power / all) * 0.4 * def_roll) as u32;
    }
    dice
}

fn fight_space(
    world: &GameWorld,
    attacker: FleetKey,
    defender: FleetKey,
    system: SystemKey,
    difficulty: u8,
    rolls: &[f64],
    tick: u64,
    generator_runs: bool,
) -> SpaceCombatResult {
    let dice = space_dice(world, attacker, defender, difficulty, rolls, generator_runs);
    CombatSystem::resolve_space(world, attacker, defender, system, &dice, tick, generator_runs)
}

fn exchanges(
    world: &GameWorld,
    system: SystemKey,
    attacker_is_alliance: bool,
    difficulty: u8,
    rolls: &[f64],
) -> Vec<Exchange> {
    let modifier = f64::from(CombatSystem::damage_percent(world, difficulty)) / 100.0;
    let attackers = CombatSystem::active_troops(world, system, attacker_is_alliance);
    let defenders = CombatSystem::active_troops(world, system, !attacker_is_alliance);
    let forts = CombatSystem::facility_defense(world, system, !attacker_is_alliance) as f64;
    let per_unit = if defenders.is_empty() {
        0.0
    } else {
        forts / defenders.len() as f64
    };
    let staff = CombatSystem::officer_rating(world, system, attacker_is_alliance) as f64;
    let officers = 1.0 + staff / 200.0;
    let mut rolls = rolls.iter().copied();
    let mut events = vec![];
    let mut list = vec![];
    for &atk in &attackers {
        for &def in &defenders {
            let roll = rolls.next().unwrap_or(0.5);
            let a = f64::from(CombatSystem::current_strength(world, &events, atk)) / 100.0;
            let d = f64::from(CombatSystem::current_strength(world, &events, def)) / 100.0;
            let ours = CombatSystem::troop_ratings(world, atk);
            let theirs = CombatSystem::troop_ratings(world, def);
            let attack = f64::from(ours.attack_strength) * a;
            let defense = f64::from(theirs.defense_strength) * d + per_unit;
            let exchange = if attack + defense <= 0.0 {
                Exchange::Void
            } else if roll < attack / (attack + defense) {
                Exchange::Hit((attack * modifier * officers).max(1.0) as i16)
            } else {
                Exchange::Counter((f64::from(theirs.attack_strength) * d * modifier).max(1.0) as i16)
            };
            CombatSystem::ground_exchange(world, &mut events, atk, def, exchange);
            list.push(exchange);
        }
    }
    list
}

fn fight_ground(
    world: &GameWorld,
    system: SystemKey,
    attacker_is_alliance: bool,
    difficulty: u8,
    rolls: &[f64],
    tick: u64,
) -> GroundCombatResult {
    let list = exchanges(world, system, attacker_is_alliance, difficulty, rolls);
    CombatSystem::resolve_ground(world, system, attacker_is_alliance, &list, tick)
}

// ---------------------------------------------------------------------------
// World builder helpers
// ---------------------------------------------------------------------------

fn add_troop_class(world: &mut GameWorld, id: DatId, class: TroopClassDef) {
    world.troop_classes.push((id, class));
}

fn add_facility_class(world: &mut GameWorld, id: DatId, class: DefenseFacilityClassDef) {
    world.defense_facility_classes.push((id, class));
}

fn make_sector(world: &mut GameWorld) -> SectorKey {
    world.sectors.insert(Sector {
        dat_id: DatId::new(0x9200_0001),
        name: "Test Sector".into(),
        group: SectorGroup::Core,
        x: 0,
        y: 0,
        systems: vec![],
    })
}

fn make_system(world: &mut GameWorld, sector: SectorKey) -> SystemKey {
    world.systems.insert(System {
        dat_id: DatId::new(0x9000_0001),
        name: "Coruscant".into(),
        sector,
        x: 100,
        y: 100,
        exploration_status: ExplorationStatus::Explored,
        popularity_alliance: 0.5f32.to_bits(),
        popularity_empire: 0.5f32.to_bits(),
        is_populated: true,
        total_energy: 0,
        raw_materials: 0,
        espionage_rating: 0,
        fleets: vec![],
        ground_units: vec![],
        special_forces: vec![],
        defense_facilities: vec![],
        manufacturing_facilities: vec![],
        production_facilities: vec![],
        control: ControlKind::Uncontrolled,
        is_headquarters: false,
        is_destroyed: false,
    })
}

fn make_class(world: &mut GameWorld, hull: u32, turbolaser: u32) -> CapitalShipKey {
    world.capital_ship_classes.insert(CapitalShipClass {
        dat_id: DatId::new(0x3000_0001),
        name: "Star Destroyer".into(),
        is_alliance: false,
        is_empire: true,
        hull,
        shield_strength: 10,
        sub_light_engine: 5,
        maneuverability: 3,
        hyperdrive: 2,
        fighter_capacity: 6,
        detection: 5,
        turbolaser_fore: turbolaser,
        shield_recharge_rate: 3,
        damage_control: 1,
        bombardment_modifier: 10,
        ..CapitalShipClass::default()
    })
}

fn make_fleet(
    world: &mut GameWorld,
    sys: SystemKey,
    class: CapitalShipKey,
    count: u32,
    is_alliance: bool,
) -> FleetKey {
    let hull = world.capital_ship_classes.get(class).unwrap().hull as i32;
    let key = world.fleets.insert(Fleet {
        location: sys,
        capital_ships: ShipInstance::make(class, hull, is_alliance, count),
        fighters: vec![],
        characters: vec![],
        is_alliance,
        has_death_star: false,
    });
    world.systems.get_mut(sys).unwrap().fleets.push(key);
    key
}

#[test]
fn test_entity_kind_classification() {
    assert_eq!(
        CombatEntityKind::from_family_byte(0x30),
        CombatEntityKind::CapitalShip
    );
    assert_eq!(
        CombatEntityKind::from_family_byte(0x34),
        CombatEntityKind::DeathStar
    );
    assert_eq!(
        CombatEntityKind::from_family_byte(0x14),
        CombatEntityKind::Troop
    );
    assert_eq!(
        CombatEntityKind::from_family_byte(0x08),
        CombatEntityKind::Character
    );
    assert_eq!(
        CombatEntityKind::from_family_byte(0x71),
        CombatEntityKind::FighterSquadron
    );
}

#[test]
fn test_extract_difficulty() {
    // difficulty bits 4-5: value 2 = hard → packed = 0x20
    assert_eq!(extract_difficulty(0x20), 2);
    assert_eq!(extract_difficulty(0x00), 0);
    assert_eq!(extract_difficulty(0x10), 1);
    assert_eq!(extract_difficulty(0x30), 3);
}

#[test]
fn test_space_combat_attacker_wins_overwhelming_force() {
    let mut world = GameWorld::default();
    let sector = make_sector(&mut world);
    let sys = make_system(&mut world, sector);
    // Attacker: 5 large ships, defender: 1 small ship.
    let atk_class = make_class(&mut world, 1000, 200);
    let def_class = make_class(&mut world, 50, 5);
    let atk = make_fleet(&mut world, sys, atk_class, 5, true);
    let def = make_fleet(&mut world, sys, def_class, 1, false);

    // Provide ample RNG rolls.
    let rolls: Vec<f64> = vec![0.5; 200];
    let result = fight_space(&world, atk, def, sys, 1, &rolls, 1, false);
    assert_eq!(result.winner, CombatSide::Attacker);
}

#[test]
fn test_space_combat_returns_damage_events() {
    let mut world = GameWorld::default();
    let sector = make_sector(&mut world);
    let sys = make_system(&mut world, sector);
    let atk_class = make_class(&mut world, 100, 50);
    let def_class = make_class(&mut world, 100, 5);
    let atk = make_fleet(&mut world, sys, atk_class, 3, true);
    let def = make_fleet(&mut world, sys, def_class, 1, false);

    let rolls: Vec<f64> = vec![0.5; 200];
    let result = fight_space(&world, atk, def, sys, 1, &rolls, 1, false);
    // Damage events should exist since combat occurred.
    assert!(!result.ship_damage.is_empty() || result.winner != CombatSide::Draw);
}

#[test]
fn test_space_combat_draw_equal_forces() {
    let mut world = GameWorld::default();
    let sector = make_sector(&mut world);
    let sys = make_system(&mut world, sector);
    let class = make_class(&mut world, 100, 50);
    // Both sides: same class, same count, all rolls at exactly 0.5.
    let atk = make_fleet(&mut world, sys, class, 2, true);
    let def = make_fleet(&mut world, sys, class, 2, false);

    let rolls: Vec<f64> = vec![0.5; 200];
    let result = fight_space(&world, atk, def, sys, 1, &rolls, 1, false);
    // Equal forces with median rolls → at minimum both sides survive (draw) or one wins.
    // Just verify it returns a valid CombatSide.
    assert!(matches!(
        result.winner,
        CombatSide::Attacker | CombatSide::Defender | CombatSide::Draw
    ));
}

#[test]
fn test_ground_combat_attacker_wins() {
    let mut world = GameWorld::default();
    let sector = make_sector(&mut world);
    let sys = make_system(&mut world, sector);

    // Attacker: 5 strong alliance troops. Defender: 1 weak empire troop.
    for _ in 0..5 {
        let key = world.troops.insert(TroopUnit {
            class_dat_id: DatId::new(0x1400_0001),
            is_alliance: true,
            regiment_strength: 100,
        });
        world.systems.get_mut(sys).unwrap().ground_units.push(key);
    }
    let def_key = world.troops.insert(TroopUnit {
        class_dat_id: DatId::new(0x1400_0002),
        is_alliance: false,
        regiment_strength: 4, // 5 attackers each deal 1 damage: 4→3→2→1→0 (dead)
    });
    world.systems.get_mut(sys).unwrap().ground_units.push(def_key);

    let rolls: Vec<f64> = vec![0.1; 100]; // low rolls → attacker almost always hits
    let result = fight_ground(&world, sys, true, 2, &rolls, 1);
    assert_eq!(result.winner, CombatSide::Attacker);
}

#[test]
fn test_ground_combat_no_troops_is_draw() {
    let mut world = GameWorld::default();
    let sector = make_sector(&mut world);
    let sys = make_system(&mut world, sector);

    let rolls: Vec<f64> = vec![];
    let result = fight_ground(&world, sys, true, 2, &rolls, 1);
    assert_eq!(result.winner, CombatSide::Draw);
    assert!(result.troop_damage.is_empty());
}

#[test]
fn test_ground_combat_zero_strength_troops_skip() {
    let mut world = GameWorld::default();
    let sector = make_sector(&mut world);
    let sys = make_system(&mut world, sector);

    // Both troops have strength 0 — both filtered out, should be a draw.
    let k1 = world.troops.insert(TroopUnit {
        class_dat_id: DatId::new(0x1400_0001),
        is_alliance: true,
        regiment_strength: 0,
    });
    let k2 = world.troops.insert(TroopUnit {
        class_dat_id: DatId::new(0x1400_0002),
        is_alliance: false,
        regiment_strength: 0,
    });
    world.systems.get_mut(sys).unwrap().ground_units.extend([k1, k2]);

    let rolls: Vec<f64> = vec![0.5; 10];
    let result = fight_ground(&world, sys, true, 2, &rolls, 1);
    assert_eq!(result.winner, CombatSide::Draw);
}

// -----------------------------------------------------------------------
// Ground combat formula + difficulty modifier tests
// -----------------------------------------------------------------------

#[test]
fn test_ground_combat_uses_class_attack_defense_stats() {
    let mut world = GameWorld::default();
    let sector = make_sector(&mut world);
    let sys = make_system(&mut world, sector);

    // Register troop classes with asymmetric stats.
    let strong_class = DatId::new(0x1400_0001);
    let weak_class = DatId::new(0x1400_0002);
    add_troop_class(
        &mut world,
        strong_class,
        TroopClassDef {
            attack_strength: 50,
            defense_strength: 20,
        },
    );
    add_troop_class(
        &mut world,
        weak_class,
        TroopClassDef {
            attack_strength: 5,
            defense_strength: 5,
        },
    );

    // 3 strong attackers vs 1 weak defender.
    for _ in 0..3 {
        let key = world.troops.insert(TroopUnit {
            class_dat_id: strong_class,
            is_alliance: true,
            regiment_strength: 100,
        });
        world.systems.get_mut(sys).unwrap().ground_units.push(key);
    }
    let def_key = world.troops.insert(TroopUnit {
        class_dat_id: weak_class,
        is_alliance: false,
        regiment_strength: 100,
    });
    world.systems.get_mut(sys).unwrap().ground_units.push(def_key);

    let rolls: Vec<f64> = vec![0.1; 100]; // low rolls → attacker hits
    let result = fight_ground(&world, sys, true, 2, &rolls, 1);
    assert_eq!(result.winner, CombatSide::Attacker);
    // Verify damage events reference the defender troop.
    assert!(result.troop_damage.iter().any(|e| e.troop == def_key));
}

#[test]
fn test_ground_combat_defense_facility_helps_defender() {
    let mut world = GameWorld::default();
    let sector = make_sector(&mut world);
    let sys = make_system(&mut world, sector);

    let class_id = DatId::new(0x1400_0001);
    add_troop_class(
        &mut world,
        class_id,
        TroopClassDef {
            attack_strength: 20,
            defense_strength: 20,
        },
    );

    // Equal forces: 2 attackers vs 2 defenders.
    for _ in 0..2 {
        let key = world.troops.insert(TroopUnit {
            class_dat_id: class_id,
            is_alliance: true,
            regiment_strength: 100,
        });
        world.systems.get_mut(sys).unwrap().ground_units.push(key);
    }
    for _ in 0..2 {
        let key = world.troops.insert(TroopUnit {
            class_dat_id: class_id,
            is_alliance: false,
            regiment_strength: 100,
        });
        world.systems.get_mut(sys).unwrap().ground_units.push(key);
    }

    // Add a strong defense facility for the Empire (defender).
    let fac_class_id = DatId::new(0x1c00_0001);
    add_facility_class(
        &mut world,
        fac_class_id,
        DefenseFacilityClassDef {
            bombardment_defense: 200,
        },
    );
    let fac_key = world.defense_facilities.insert(DefenseFacilityInstance {
        class_dat_id: fac_class_id,
        is_alliance: false, // empire facility
    });
    world.systems.get_mut(sys).unwrap().defense_facilities.push(fac_key);

    // With massive facility bonus, defender should win or draw with equal forces.
    let rolls: Vec<f64> = vec![0.5; 100];
    let result = fight_ground(&world, sys, true, 2, &rolls, 1);
    // The facility bonus shifts hit probability toward the defender.
    assert!(
        result.winner == CombatSide::Defender || result.winner == CombatSide::Draw,
        "Defense facilities should help the defender, got {:?}",
        result.winner
    );
}

#[test]
fn test_ground_combat_difficulty_scales_damage() {
    let mut world = GameWorld::default();
    let sector = make_sector(&mut world);
    let sys = make_system(&mut world, sector);

    let class_id = DatId::new(0x1400_0001);
    add_troop_class(
        &mut world,
        class_id,
        TroopClassDef {
            attack_strength: 20,
            defense_strength: 10,
        },
    );

    // Set up GNPRTB with difficulty-varying modifier.
    // Param 0x1400: easy=50 (0.5x damage), hard=200 (2x damage).
    world.gnprtb = GnprtbParams::new(vec![GnprtbEntry {
        parameter_id: 0x1400,
        development: 100,
        alliance_sp_easy: 50,    // difficulty=1 → 0.5x damage
        alliance_sp_medium: 100, // difficulty=2 → 1.0x
        alliance_sp_hard: 200,   // difficulty=3 → 2.0x
        empire_sp_easy: 100,
        empire_sp_medium: 100,
        empire_sp_hard: 100,
        multiplayer: 100,
    }]);

    // 1 attacker vs 1 defender at easy difficulty.
    let atk = world.troops.insert(TroopUnit {
        class_dat_id: class_id,
        is_alliance: true,
        regiment_strength: 100,
    });
    let def = world.troops.insert(TroopUnit {
        class_dat_id: class_id,
        is_alliance: false,
        regiment_strength: 100,
    });
    world.systems.get_mut(sys).unwrap().ground_units.extend([atk, def]);

    let rolls: Vec<f64> = vec![0.1]; // attacker hits
    let easy_result = fight_ground(&world, sys, true, 1, &rolls, 1);
    let easy_damage: i16 = easy_result
        .troop_damage
        .iter()
        .filter(|e| e.troop == def)
        .map(|e| e.strength_before - e.strength_after)
        .sum();

    // Reset strengths for hard difficulty test.
    world.troops.get_mut(atk).unwrap().regiment_strength = 100;
    world.troops.get_mut(def).unwrap().regiment_strength = 100;

    let rolls: Vec<f64> = vec![0.1];
    let hard_result = fight_ground(&world, sys, true, 3, &rolls, 1);
    let hard_damage: i16 = hard_result
        .troop_damage
        .iter()
        .filter(|e| e.troop == def)
        .map(|e| e.strength_before - e.strength_after)
        .sum();

    // Hard (2.0x) should deal more damage than easy (0.5x).
    assert!(
        hard_damage > easy_damage,
        "Hard difficulty damage ({hard_damage}) should exceed easy ({easy_damage})"
    );
}

#[test]
fn test_ground_combat_no_class_data_uses_fallback() {
    let mut world = GameWorld::default();
    let sector = make_sector(&mut world);
    let sys = make_system(&mut world, sector);

    // Do NOT register any troop classes — should use fallback (10/10).
    let atk = world.troops.insert(TroopUnit {
        class_dat_id: DatId::new(0x1400_0099), // unknown class
        is_alliance: true,
        regiment_strength: 100,
    });
    let def = world.troops.insert(TroopUnit {
        class_dat_id: DatId::new(0x1400_0099),
        is_alliance: false,
        regiment_strength: 50,
    });
    world.systems.get_mut(sys).unwrap().ground_units.extend([atk, def]);

    let rolls: Vec<f64> = vec![0.1; 10]; // attacker hits
    let result = fight_ground(&world, sys, true, 2, &rolls, 1);
    // Should produce damage events using fallback stats, not panic.
    assert!(!result.troop_damage.is_empty());
}

#[test]
fn test_space_combat_difficulty_scales_hull_damage() {
    let mut world = GameWorld::default();
    let sector = make_sector(&mut world);
    let sys = make_system(&mut world, sector);

    // Set up GNPRTB with difficulty-varying modifier.
    world.gnprtb = GnprtbParams::new(vec![GnprtbEntry {
        parameter_id: 0x1400,
        development: 100,
        alliance_sp_easy: 50,
        alliance_sp_medium: 100,
        alliance_sp_hard: 200,
        empire_sp_easy: 100,
        empire_sp_medium: 100,
        empire_sp_hard: 100,
        multiplayer: 100,
    }]);

    let atk_class = make_class(&mut world, 500, 100);
    let def_class = make_class(&mut world, 500, 100);
    let atk = make_fleet(&mut world, sys, atk_class, 2, true);
    let def = make_fleet(&mut world, sys, def_class, 2, false);

    // Run at easy difficulty (0.5x damage).
    let rolls: Vec<f64> = vec![0.5; 200];
    let easy_result = fight_space(&world, atk, def, sys, 1, &rolls, 1, false);
    let easy_total_damage: i32 = easy_result
        .ship_damage
        .iter()
        .map(|e| e.hull_before - e.hull_after)
        .sum();

    // Run at hard difficulty (2.0x damage) with same rolls.
    let hard_result = fight_space(&world, atk, def, sys, 3, &rolls, 1, false);
    let hard_total_damage: i32 = hard_result
        .ship_damage
        .iter()
        .map(|e| e.hull_before - e.hull_after)
        .sum();

    // Hard should deal more total damage than easy.
    assert!(
        hard_total_damage > easy_total_damage,
        "Hard difficulty damage ({hard_total_damage}) should exceed easy ({easy_total_damage})"
    );
}

#[test]
fn test_ground_combat_large_asymmetric_battle() {
    let mut world = GameWorld::default();
    let sector = make_sector(&mut world);
    let sys = make_system(&mut world, sector);

    let elite_class = DatId::new(0x1400_0001);
    let militia_class = DatId::new(0x1400_0002);
    add_troop_class(
        &mut world,
        elite_class,
        TroopClassDef {
            attack_strength: 80,
            defense_strength: 60,
        },
    );
    add_troop_class(
        &mut world,
        militia_class,
        TroopClassDef {
            attack_strength: 10,
            defense_strength: 5,
        },
    );

    // 2 elite attackers vs 6 militia defenders.
    for _ in 0..2 {
        let key = world.troops.insert(TroopUnit {
            class_dat_id: elite_class,
            is_alliance: true,
            regiment_strength: 100,
        });
        world.systems.get_mut(sys).unwrap().ground_units.push(key);
    }
    for _ in 0..6 {
        let key = world.troops.insert(TroopUnit {
            class_dat_id: militia_class,
            is_alliance: false,
            regiment_strength: 100,
        });
        world.systems.get_mut(sys).unwrap().ground_units.push(key);
    }

    // With median rolls the elite troops should inflict heavy casualties.
    let rolls: Vec<f64> = vec![0.3; 200];
    let result = fight_ground(&world, sys, true, 2, &rolls, 1);
    // Elite attackers should win against weak militia despite being outnumbered.
    assert_eq!(
        result.winner,
        CombatSide::Attacker,
        "Elite troops should overcome militia numbers"
    );
    // Should have generated substantial damage events.
    assert!(
        result.troop_damage.len() >= 6,
        "Expected at least 6 damage events, got {}",
        result.troop_damage.len()
    );
}

// -----------------------------------------------------------------------
// Fighter combat subsystem tests
// -----------------------------------------------------------------------

fn make_fighter_class(
    world: &mut GameWorld,
    attack_strength: u32,
    maneuverability: u32,
    is_alliance: bool,
) -> FighterKey {
    world.fighter_classes.insert(FighterClass {
        dat_id: DatId::new(0x7100_0001),
        name: "Test Fighter".into(),
        is_alliance,
        is_empire: !is_alliance,
        overall_attack_strength: attack_strength,
        maneuverability,
        ..FighterClass::default()
    })
}

fn make_fleet_with_fighters(
    world: &mut GameWorld,
    sys: SystemKey,
    ship_class: CapitalShipKey,
    ship_count: u32,
    fighter_class: FighterKey,
    fighter_squads: u32,
    is_alliance: bool,
) -> FleetKey {
    let hull = world.capital_ship_classes.get(ship_class).unwrap().hull as i32;
    let key = world.fleets.insert(Fleet {
        location: sys,
        capital_ships: ShipInstance::make(ship_class, hull, is_alliance, ship_count),
        fighters: vec![FighterEntry {
            class: fighter_class,
            count: fighter_squads,
        }],
        characters: vec![],
        is_alliance,
        has_death_star: false,
    });
    world.systems.get_mut(sys).unwrap().fleets.push(key);
    key
}

#[test]
fn test_fighter_dogfight_maneuverability_advantage() {
    // Side A: high maneuverability (10 attack, 20 maneuverability).
    // Side B: low maneuverability (10 attack, 2 maneuverability).
    // Same squad count — side A should take fewer losses.
    let mut world = GameWorld::default();
    let sector = make_sector(&mut world);
    let sys = make_system(&mut world, sector);
    let ship_class = make_class(&mut world, 500, 50);
    let fc_nimble = make_fighter_class(&mut world, 10, 20, true);
    let fc_clumsy = make_fighter_class(&mut world, 10, 2, false);

    let atk = make_fleet_with_fighters(&mut world, sys, ship_class, 2, fc_nimble, 10, true);
    let def = make_fleet_with_fighters(&mut world, sys, ship_class, 2, fc_clumsy, 10, false);

    let rolls: Vec<f64> = vec![0.8; 200];
    let result = fight_space(&world, atk, def, sys, 1, &rolls, 1, false);

    // Nimble side should lose fewer fighters.
    let atk_losses: u32 = result
        .fighter_losses
        .iter()
        .filter(|e| e.fleet == atk)
        .map(|e| e.squads_before - e.squads_after)
        .sum();
    let def_losses: u32 = result
        .fighter_losses
        .iter()
        .filter(|e| e.fleet == def)
        .map(|e| e.squads_before - e.squads_after)
        .sum();
    assert!(atk_losses <= def_losses,
        "nimble fighters (losses={atk_losses}) should not lose more than clumsy (losses={def_losses})");
}

#[test]
fn test_fighter_vs_capital_uses_attack_strength() {
    // Fighters with high attack_strength should deal significant damage.
    let mut world = GameWorld::default();
    let sector = make_sector(&mut world);
    let sys = make_system(&mut world, sector);

    // Defender: 1 ship with hull 200, no weapons (won't fire back much).
    let def_class = make_class(&mut world, 200, 0);
    // Attacker: 1 ship (carrier) + strong fighters.
    let atk_class = make_class(&mut world, 100, 10);
    let fc_strong = make_fighter_class(&mut world, 50, 5, true);

    let atk = make_fleet_with_fighters(&mut world, sys, atk_class, 1, fc_strong, 8, true);
    let def = make_fleet(&mut world, sys, def_class, 1, false);

    let rolls: Vec<f64> = vec![0.5; 200];
    let result = fight_space(&world, atk, def, sys, 1, &rolls, 1, false);

    // Defenders should have taken hull damage from fighters.
    let def_damage: Vec<&ShipDamageEvent> = result
        .ship_damage
        .iter()
        .filter(|e| e.fleet == def)
        .collect();
    assert!(
        !def_damage.is_empty(),
        "fighters with attack_strength=50 should damage capital ships"
    );
}

#[test]
fn test_system_based_fighter_wing_can_engage_without_carrier() {
    let mut world = GameWorld::default();
    let sector = make_sector(&mut world);
    let sys = make_system(&mut world, sector);
    let unused_ship_class = make_class(&mut world, 100, 0);
    let defender_class = make_class(&mut world, 200, 0);
    let fighter_class = make_fighter_class(&mut world, 50, 5, true);

    let attacker = make_fleet_with_fighters(
        &mut world,
        sys,
        unused_ship_class,
        0,
        fighter_class,
        8,
        true,
    );
    let defender = make_fleet(&mut world, sys, defender_class, 1, false);

    let result = fight_space(
        &world,
        attacker,
        defender,
        sys,
        1,
        &vec![0.5; 200],
        1,
        false,
    );

    assert!(result
        .ship_damage
        .iter()
        .any(|event| event.fleet == defender && event.hull_after < event.hull_before));
}

#[test]
fn test_capital_ship_laser_cannons_screen_enemy_fighters() {
    let mut world = GameWorld::default();
    let sector = make_sector(&mut world);
    let sys = make_system(&mut world, sector);
    let unused_ship_class = make_class(&mut world, 100, 0);
    let fighter_class = make_fighter_class(&mut world, 5, 5, true);
    let screen_class = world.capital_ship_classes.insert(CapitalShipClass {
        dat_id: DatId::new(0x3000_0041),
        name: "Escort".into(),
        hull: 1000,
        laser_cannon_fore: 100,
        laser_cannon_attack_strength: 100,
        ..CapitalShipClass::default()
    });
    let fighter_wing = make_fleet_with_fighters(
        &mut world,
        sys,
        unused_ship_class,
        0,
        fighter_class,
        1,
        true,
    );
    let screen = make_fleet(&mut world, sys, screen_class, 1, false);

    let result = fight_space(
        &world,
        fighter_wing,
        screen,
        sys,
        1,
        &[0.5; 200],
        1,
        false,
    );

    assert!(result.fighter_losses.iter().any(|event| {
        event.fleet == fighter_wing && event.squads_before == 1 && event.squads_after == 0
    }));
    assert_eq!(result.winner, CombatSide::Defender);
}

#[test]
fn test_outnumbered_system_fighter_wing_takes_integer_attrition() {
    let mut world = GameWorld::default();
    let sector = make_sector(&mut world);
    let sys = make_system(&mut world, sector);
    let unused_ship_class = make_class(&mut world, 100, 0);
    let alliance_fighter = make_fighter_class(&mut world, 5, 5, true);
    let empire_fighter = make_fighter_class(&mut world, 8, 5, false);
    let attacker = make_fleet_with_fighters(
        &mut world,
        sys,
        unused_ship_class,
        0,
        alliance_fighter,
        1,
        true,
    );
    let defender = make_fleet_with_fighters(
        &mut world,
        sys,
        unused_ship_class,
        0,
        empire_fighter,
        6,
        false,
    );

    let result =
        fight_space(&world, attacker, defender, sys, 1, &[0.5; 200], 1, false);

    assert_eq!(result.winner, CombatSide::Defender);
    assert!(result.fighter_losses.iter().any(|event| {
        event.fleet == attacker && event.squads_before == 1 && event.squads_after == 0
    }));
    assert!(result.fighter_losses.iter().any(|event| {
        event.fleet == defender && event.squads_before == 6 && event.squads_after == 5
    }));
}

#[test]
fn test_carrier_capacity_limits_fighter_launch() {
    // Carrier with fighter_capacity=2, but fleet has 10 fighter squads.
    // Only 2 should launch.
    let mut world = GameWorld::default();
    let sector = make_sector(&mut world);
    let sys = make_system(&mut world, sector);

    // Carrier: fighter_capacity=2 (from make_class, which sets 6 — make a custom one).
    let small_carrier = world.capital_ship_classes.insert(CapitalShipClass {
        dat_id: DatId::new(0x3000_0002),
        name: "Small Carrier".into(),
        is_alliance: true,
        is_empire: false,
        hull: 500,
        shield_strength: 10,
        fighter_capacity: 2,
        turbolaser_fore: 10,
        shield_recharge_rate: 3,
        ..CapitalShipClass::default()
    });

    let fc = make_fighter_class(&mut world, 100, 10, true);
    let def_class = make_class(&mut world, 100, 10);

    // Attacker: 1 small carrier with capacity 2, but 10 fighter squads.
    let atk = make_fleet_with_fighters(&mut world, sys, small_carrier, 1, fc, 10, true);
    // Defender: no fighters, just 1 weak ship.
    let def = make_fleet(&mut world, sys, def_class, 1, false);

    let rolls: Vec<f64> = vec![0.5; 300];
    let result = fight_space(&world, atk, def, sys, 1, &rolls, 1, false);

    // After recall, attacker should have at most 2 surviving fighters (carrier cap).
    let total_original: u32 = world.fleets.get(atk).unwrap().fighters.iter().map(|e| e.count).sum();
    // Surviving = original - losses
    let total_lost: u32 = result
        .fighter_losses
        .iter()
        .filter(|e| e.fleet == atk)
        .map(|e| e.squads_before - e.squads_after)
        .sum();
    let total_surviving = total_original - total_lost;
    assert!(
        total_surviving <= 2,
        "carrier capacity is 2 but {total_surviving} fighters survived"
    );
}

#[test]
fn test_fighter_recall_after_carrier_destruction() {
    // If all carriers are destroyed, no fighters can be recalled.
    let mut world = GameWorld::default();
    let sector = make_sector(&mut world);
    let sys = make_system(&mut world, sector);

    // Attacker: 1 very weak carrier (hull=1) + fighters.
    let weak_carrier = world.capital_ship_classes.insert(CapitalShipClass {
        dat_id: DatId::new(0x3000_0003),
        name: "Weak Carrier".into(),
        is_alliance: true,
        is_empire: false,
        hull: 1, // will be destroyed by defender
        shield_strength: 0,
        fighter_capacity: 10,
        turbolaser_fore: 5,
        shield_recharge_rate: 0,
        ..CapitalShipClass::default()
    });
    let fc = make_fighter_class(&mut world, 10, 5, true);
    let atk = make_fleet_with_fighters(&mut world, sys, weak_carrier, 1, fc, 5, true);

    // Defender: strong ship that will destroy the carrier.
    let strong_class = make_class(&mut world, 1000, 200);
    let def = make_fleet(&mut world, sys, strong_class, 3, false);

    let rolls: Vec<f64> = vec![0.5; 300];
    let result = fight_space(&world, atk, def, sys, 1, &rolls, 1, false);

    // Attacker carrier should be destroyed — all surviving fighters lost during recall.
    let atk_ship_destroyed = result
        .ship_damage
        .iter()
        .any(|e| e.fleet == atk && e.hull_after == 0);
    if atk_ship_destroyed {
        // All fighter squads should show as lost (squads_after = 0 in loss events).
        let surviving: u32 = result
            .fighter_losses
            .iter()
            .filter(|e| e.fleet == atk)
            .map(|e| e.squads_after)
            .sum();
        assert_eq!(
            surviving, 0,
            "all fighters should be lost when carrier is destroyed, but {surviving} survived"
        );
    }
    // If carrier survived, test is inconclusive — that's OK.
}

#[test]
fn test_no_fighters_skips_fighter_phase() {
    // Two fleets with no fighters — fighter loss events should be empty.
    let mut world = GameWorld::default();
    let sector = make_sector(&mut world);
    let sys = make_system(&mut world, sector);
    let class = make_class(&mut world, 100, 50);
    let atk = make_fleet(&mut world, sys, class, 2, true);
    let def = make_fleet(&mut world, sys, class, 2, false);

    let rolls: Vec<f64> = vec![0.5; 200];
    let result = fight_space(&world, atk, def, sys, 1, &rolls, 1, false);
    assert!(
        result.fighter_losses.is_empty(),
        "no fighter losses expected when neither fleet has fighters"
    );
}

#[test]
fn test_asymmetric_fighter_engagement() {
    // Only attacker has fighters; defender has none.
    // Attacker fighters should damage defender ships without dogfight losses.
    let mut world = GameWorld::default();
    let sector = make_sector(&mut world);
    let sys = make_system(&mut world, sector);
    let ship_class = make_class(&mut world, 200, 20);
    let fc = make_fighter_class(&mut world, 30, 10, true);

    let atk = make_fleet_with_fighters(&mut world, sys, ship_class, 2, fc, 6, true);
    let def = make_fleet(&mut world, sys, ship_class, 2, false);

    let rolls: Vec<f64> = vec![0.5; 300];
    let result = fight_space(&world, atk, def, sys, 1, &rolls, 1, false);

    // Attacker should not lose fighters in dogfight (no enemy fighters).
    let atk_fighter_losses: u32 = result
        .fighter_losses
        .iter()
        .filter(|e| e.fleet == atk)
        .map(|e| e.squads_before - e.squads_after)
        .sum();
    assert_eq!(atk_fighter_losses, 0,
        "attacker should lose no fighters in dogfight when defender has none, but lost {atk_fighter_losses}");

    // Defender should have taken ship damage (from fighters + capital weapons).
    let def_damage_count = result.ship_damage.iter().filter(|e| e.fleet == def).count();
    assert!(
        def_damage_count > 0,
        "defender ships should be damaged by attacker fighters"
    );
}

// -----------------------------------------------------------------------
// Shield absorption tests (Phase 4)
// -----------------------------------------------------------------------

/// Helper: create a ship class with explicit shield, hull, and weapon config.
fn make_shield_class(
    world: &mut GameWorld,
    hull: u32,
    shield: u32,
    shield_recharge: u32,
    turbolaser: u32,
    ion_cannon: u32,
) -> CapitalShipKey {
    world.capital_ship_classes.insert(CapitalShipClass {
        dat_id: DatId::new(0x3000_0001),
        name: "Shielded Ship".into(),
        is_alliance: false,
        is_empire: true,
        hull,
        shield_strength: shield,
        shield_recharge_rate: shield_recharge,
        turbolaser_fore: turbolaser,
        ion_cannon_fore: ion_cannon,
        ..CapitalShipClass::default()
    })
}

#[test]
fn test_shield_absorbs_damage_before_hull() {
    let mut ships = vec![ShipSnap {
        hull_current: 100,
        hull_max: 100,
        shield_current: 100,
        shield_max: 100,
        pending_damage: 50,
        pending_ion_damage: 0,
        shield_nibble: 0,
        weapon_nibble: 15,
        alive: true,
        is_death_star: false,
    }];
    CombatSystem::phase_shield_absorb(&mut ships);
    hull_damage(&mut ships, 1.0, false);
    assert_eq!(ships[0].shield_current, 50);
    assert_eq!(ships[0].hull_current, 100);
    assert!(ships[0].alive);
}

#[test]
fn test_shield_overflow_damages_hull() {
    let mut ships = vec![ShipSnap {
        hull_current: 100,
        hull_max: 100,
        shield_current: 30,
        shield_max: 100,
        pending_damage: 80,
        pending_ion_damage: 0,
        shield_nibble: 0,
        weapon_nibble: 15,
        alive: true,
        is_death_star: false,
    }];
    CombatSystem::phase_shield_absorb(&mut ships);
    assert_eq!(ships[0].shield_current, 0);
    assert!(ships[0].pending_damage > 0);
    hull_damage(&mut ships, 1.0, false);
    assert!(ships[0].hull_current < 100);
    assert!(ships[0].hull_current > 0);
}

#[test]
fn test_ion_cannon_2x_shield_damage() {
    let mut ion_vec = vec![ShipSnap {
        hull_current: 200,
        hull_max: 200,
        shield_current: 100,
        shield_max: 100,
        pending_damage: 40,
        pending_ion_damage: 40,
        shield_nibble: 0,
        weapon_nibble: 15,
        alive: true,
        is_death_star: false,
    }];
    let mut turbo_vec = vec![ShipSnap {
        hull_current: 200,
        hull_max: 200,
        shield_current: 100,
        shield_max: 100,
        pending_damage: 40,
        pending_ion_damage: 0,
        shield_nibble: 0,
        weapon_nibble: 15,
        alive: true,
        is_death_star: false,
    }];
    CombatSystem::phase_shield_absorb(&mut ion_vec);
    CombatSystem::phase_shield_absorb(&mut turbo_vec);
    assert!(
        ion_vec[0].shield_current < turbo_vec[0].shield_current,
        "Ion shields {} should be less than turbo shields {}",
        ion_vec[0].shield_current,
        turbo_vec[0].shield_current
    );
}

#[test]
fn test_shield_recharge_per_tick() {
    let mut ships = vec![ShipSnap {
        hull_current: 100,
        hull_max: 100,
        shield_current: 0,
        shield_max: 150,
        pending_damage: 5,
        pending_ion_damage: 0,
        shield_nibble: 15,
        weapon_nibble: 15,
        alive: true,
        is_death_star: false,
    }];
    CombatSystem::phase_shield_absorb(&mut ships);
    assert_eq!(ships[0].shield_current, 145);
    hull_damage(&mut ships, 1.0, false);
    assert_eq!(ships[0].hull_current, 100);
}

#[test]
fn test_zero_shield_passes_all_damage_to_hull() {
    let mut ships = vec![ShipSnap {
        hull_current: 100,
        hull_max: 100,
        shield_current: 0,
        shield_max: 0,
        pending_damage: 60,
        pending_ion_damage: 0,
        shield_nibble: 0,
        weapon_nibble: 15,
        alive: true,
        is_death_star: false,
    }];
    CombatSystem::phase_shield_absorb(&mut ships);
    assert_eq!(ships[0].pending_damage, 60);
    hull_damage(&mut ships, 1.0, false);
    assert_eq!(ships[0].hull_current, 40);
}

#[test]
fn test_shield_prevents_death() {
    let mut ships = vec![ShipSnap {
        hull_current: 50,
        hull_max: 50,
        shield_current: 200,
        shield_max: 200,
        pending_damage: 100,
        pending_ion_damage: 0,
        shield_nibble: 0,
        weapon_nibble: 15,
        alive: true,
        is_death_star: false,
    }];
    CombatSystem::phase_shield_absorb(&mut ships);
    hull_damage(&mut ships, 1.0, false);
    assert!(ships[0].alive);
    assert_eq!(ships[0].hull_current, 50);
    assert_eq!(ships[0].shield_current, 100);
}

#[test]
fn test_shield_integration_full_combat() {
    let mut world = GameWorld::default();
    let sector = make_sector(&mut world);
    let sys = make_system(&mut world, sector);
    let atk_class = make_shield_class(&mut world, 200, 0, 0, 50, 0);
    let def_class = make_shield_class(&mut world, 200, 500, 10, 50, 0);
    let atk = make_fleet(&mut world, sys, atk_class, 1, true);
    let def = make_fleet(&mut world, sys, def_class, 1, false);

    let rolls: Vec<f64> = vec![0.5; 200];
    let result = fight_space(&world, atk, def, sys, 1, &rolls, 1, false);

    let atk_damage: i32 = result
        .ship_damage
        .iter()
        .filter(|d| d.fleet == atk)
        .map(|d| d.hull_before - d.hull_after)
        .sum();
    let def_damage: i32 = result
        .ship_damage
        .iter()
        .filter(|d| d.fleet == def)
        .map(|d| d.hull_before - d.hull_after)
        .sum();
    assert!(
        def_damage < atk_damage,
        "Shielded defender hull damage {def_damage} should be less than unshielded attacker {atk_damage}"
    );
}

#[test]
fn test_ion_cannon_integration() {
    let mut world = GameWorld::default();
    let sector = make_sector(&mut world);
    let sys = make_system(&mut world, sector);
    let target_class = make_shield_class(&mut world, 200, 100, 0, 10, 0);
    let ion_atk_class = make_shield_class(&mut world, 200, 0, 0, 0, 50);
    let ion_atk = make_fleet(&mut world, sys, ion_atk_class, 1, true);
    let target1 = make_fleet(&mut world, sys, target_class, 1, false);

    let rolls: Vec<f64> = vec![0.5; 200];
    let result_ion =
        fight_space(&world, ion_atk, target1, sys, 1, &rolls, 1, false);

    let mut world2 = GameWorld::default();
    let sector2 = make_sector(&mut world2);
    let sys2 = make_system(&mut world2, sector2);
    let target_class2 = make_shield_class(&mut world2, 200, 100, 0, 10, 0);
    let turbo_atk_class = make_shield_class(&mut world2, 200, 0, 0, 50, 0);
    let turbo_atk = make_fleet(&mut world2, sys2, turbo_atk_class, 1, true);
    let target2 = make_fleet(&mut world2, sys2, target_class2, 1, false);

    let result_turbo =
        fight_space(&world2, turbo_atk, target2, sys2, 1, &rolls, 1, false);

    let ion_hull_damage: i32 = result_ion
        .ship_damage
        .iter()
        .filter(|d| d.fleet == target1)
        .map(|d| d.hull_before - d.hull_after)
        .sum();
    let turbo_hull_damage: i32 = result_turbo
        .ship_damage
        .iter()
        .filter(|d| d.fleet == target2)
        .map(|d| d.hull_before - d.hull_after)
        .sum();
    assert!(
        ion_hull_damage >= turbo_hull_damage,
        "Ion hull damage {ion_hull_damage} should be >= turbo hull damage {turbo_hull_damage} against shielded target"
    );
}

// -----------------------------------------------------------------------
// Phase 2 pending tests: DS shield hull-damage path
// -----------------------------------------------------------------------

/// Make a Death Star class with family byte 0x34 (required for `is_death_star` detection)
fn make_ds_class(world: &mut GameWorld, hull: u32) -> CapitalShipKey {
    world.capital_ship_classes.insert(CapitalShipClass {
        dat_id: DatId::new(0x3400_0001), // family 0x34 = DeathStar
        name: "Death Star".into(),
        is_alliance: false,
        is_empire: true,
        hull,
        shield_strength: 100,
        sub_light_engine: 1,
        maneuverability: 1,
        hyperdrive: 1,
        fighter_capacity: 20,
        detection: 10,
        turbolaser_fore: 50,
        shield_recharge_rate: 5,
        damage_control: 5,
        bombardment_modifier: 100,
        ..CapitalShipClass::default()
    })
}

#[test]
fn ds_shield_blocks_hull_damage() {
    let mut world = GameWorld::default();
    let sector = make_sector(&mut world);
    let sys = make_system(&mut world, sector);

    // Attacker with big guns
    let atk_class = make_class(&mut world, 500, 200);
    let atk = make_fleet(&mut world, sys, atk_class, 3, true);

    // Defender: Death Star with shield active (family 0x34)
    let ds_class = make_ds_class(&mut world, 5000);
    let ds_fleet = world.fleets.insert(Fleet {
        location: sys,
        capital_ships: vec![ShipInstance::new(
            ds_class,
            world.capital_ship_classes.get(ds_class).unwrap().hull as i32,
            false,
        )],
        fighters: vec![],
        characters: vec![],
        is_alliance: false,
        has_death_star: true,
    });
    world.systems.get_mut(sys).unwrap().fleets.push(ds_fleet);

    let rolls: Vec<f64> = vec![0.5; 200];
    let result = fight_space(&world, atk, ds_fleet, sys, 1, &rolls, 1, true);

    // DS should take no hull damage because shield is active
    let ds_damage: i32 = result
        .ship_damage
        .iter()
        .filter(|d| d.fleet == ds_fleet)
        .map(|d| d.hull_before - d.hull_after)
        .sum();
    assert_eq!(ds_damage, 0, "DS shield should block all hull damage");

    // Verify combat actually occurred — attacker should have taken damage from DS turbolasers
    let atk_damage: i32 = result
        .ship_damage
        .iter()
        .filter(|d| d.fleet == atk)
        .map(|d| d.hull_before - d.hull_after)
        .sum();
    assert!(
        atk_damage > 0,
        "Attacker should take damage, confirming combat occurred"
    );
}

#[test]
fn ds_shield_destroyed_allows_hull_damage() {
    let mut world = GameWorld::default();
    let sector = make_sector(&mut world);
    let sys = make_system(&mut world, sector);

    let atk_class = make_class(&mut world, 500, 200);
    let atk = make_fleet(&mut world, sys, atk_class, 5, true);

    let ds_class = make_ds_class(&mut world, 5000);
    let ds_fleet = world.fleets.insert(Fleet {
        location: sys,
        capital_ships: vec![ShipInstance::new(
            ds_class,
            world.capital_ship_classes.get(ds_class).unwrap().hull as i32,
            false,
        )],
        fighters: vec![],
        characters: vec![],
        is_alliance: false,
        has_death_star: true,
    });
    world.systems.get_mut(sys).unwrap().fleets.push(ds_fleet);

    let rolls: Vec<f64> = vec![0.5; 200];
    // Shield NOT active — DS should be vulnerable
    let result = fight_space(&world, atk, ds_fleet, sys, 1, &rolls, 1, false);

    let ds_damage: i32 = result
        .ship_damage
        .iter()
        .filter(|d| d.fleet == ds_fleet)
        .map(|d| d.hull_before - d.hull_after)
        .sum();
    assert!(
        ds_damage > 0,
        "DS should take damage when shield is down, got {ds_damage}"
    );
}

#[test]
fn ds_normal_ships_unaffected_by_shield() {
    let mut world = GameWorld::default();
    let sector = make_sector(&mut world);
    let sys = make_system(&mut world, sector);

    let atk_class = make_class(&mut world, 500, 200);
    let atk = make_fleet(&mut world, sys, atk_class, 3, true);

    // Defender: normal fleet (not DS), shield param = true
    let def_class = make_class(&mut world, 200, 30);
    let def = make_fleet(&mut world, sys, def_class, 2, false);

    let rolls: Vec<f64> = vec![0.5; 200];
    // Even with shield=true, non-DS ships should still take damage
    let result = fight_space(&world, atk, def, sys, 1, &rolls, 1, true);

    let def_damage: i32 = result
        .ship_damage
        .iter()
        .filter(|d| d.fleet == def)
        .map(|d| d.hull_before - d.hull_after)
        .sum();
    assert!(
        def_damage > 0,
        "Non-DS ships should still take damage even with shield flag"
    );
}

#[test]
fn ds_shield_blocks_vs_unshielded_comparison() {
    let mut world = GameWorld::default();
    let sector = make_sector(&mut world);
    let sys = make_system(&mut world, sector);

    let atk_class = make_class(&mut world, 500, 200);
    let atk = make_fleet(&mut world, sys, atk_class, 5, true);

    let ds_class = make_ds_class(&mut world, 5000);
    let ds_fleet = world.fleets.insert(Fleet {
        location: sys,
        capital_ships: vec![ShipInstance::new(
            ds_class,
            world.capital_ship_classes.get(ds_class).unwrap().hull as i32,
            false,
        )],
        fighters: vec![],
        characters: vec![],
        is_alliance: false,
        has_death_star: true,
    });
    world.systems.get_mut(sys).unwrap().fleets.push(ds_fleet);

    let rolls: Vec<f64> = vec![0.5; 200];

    // With shield
    let result_shielded =
        fight_space(&world, atk, ds_fleet, sys, 1, &rolls, 1, true);
    let shielded_damage: i32 = result_shielded
        .ship_damage
        .iter()
        .filter(|d| d.fleet == ds_fleet)
        .map(|d| d.hull_before - d.hull_after)
        .sum();

    // Without shield (need fresh world since combat may kill ships)
    let mut world2 = GameWorld::default();
    let sector2 = make_sector(&mut world2);
    let sys2 = make_system(&mut world2, sector2);
    let atk_class2 = make_class(&mut world2, 500, 200);
    let atk2 = make_fleet(&mut world2, sys2, atk_class2, 5, true);
    let ds_class2 = make_ds_class(&mut world2, 5000);
    let ds_fleet2 = world2.fleets.insert(Fleet {
        location: sys2,
        capital_ships: vec![ShipInstance::new(
            ds_class2,
            world2.capital_ship_classes.get(ds_class2).unwrap().hull as i32,
            false,
        )],
        fighters: vec![],
        characters: vec![],
        is_alliance: false,
        has_death_star: true,
    });
    world2.systems.get_mut(sys2).unwrap().fleets.push(ds_fleet2);

    let result_unshielded =
        fight_space(&world2, atk2, ds_fleet2, sys2, 1, &rolls, 1, false);
    let unshielded_damage: i32 = result_unshielded
        .ship_damage
        .iter()
        .filter(|d| d.fleet == ds_fleet2)
        .map(|d| d.hull_before - d.hull_after)
        .sum();

    assert!(
        shielded_damage < unshielded_damage,
        "Shielded DS damage ({shielded_damage}) should be less than unshielded ({unshielded_damage})"
    );
}

// -----------------------------------------------------------------------
// Phase 2 pending tests: Officer combat rating in ground combat
// -----------------------------------------------------------------------

fn make_troop(world: &mut GameWorld, sys: SystemKey, is_alliance: bool) -> TroopKey {
    let key = world.troops.insert(TroopUnit {
        class_dat_id: DatId::new(0x1400_0100),
        is_alliance,
        regiment_strength: 100,
    });
    world.systems.get_mut(sys).unwrap().ground_units.push(key);
    key
}

#[test]
fn officer_combat_bonus_increases_ground_damage() {
    let mut world = GameWorld::default();
    let sector = make_sector(&mut world);
    let sys = make_system(&mut world, sector);

    // Add troop classes so combat works
    add_troop_class(
        &mut world,
        DatId::new(0x1400_0100),
        TroopClassDef {
            attack_strength: 30,
            defense_strength: 20,
        },
    );

    // Add troops: 2 attacker, 2 defender
    let _atk1 = make_troop(&mut world, sys, true);
    let _atk2 = make_troop(&mut world, sys, true);
    let def1 = make_troop(&mut world, sys, false);
    let def2 = make_troop(&mut world, sys, false);

    // Run ground combat WITHOUT officer
    let rolls: Vec<f64> = vec![0.3; 100];
    let result_no_officer = fight_ground(&world, sys, true, 1, &rolls, 1);

    // Sum damage to defender troops
    let no_officer_damage: i16 = result_no_officer
        .troop_damage
        .iter()
        .filter(|d| d.troop == def1 || d.troop == def2)
        .map(|d| d.strength_before - d.strength_after)
        .sum();

    // Now set up a fresh world with an officer
    let mut world2 = GameWorld::default();
    let sector2 = make_sector(&mut world2);
    let sys2 = make_system(&mut world2, sector2);
    add_troop_class(
        &mut world2,
        DatId::new(0x1400_0100),
        TroopClassDef {
            attack_strength: 30,
            defense_strength: 20,
        },
    );

    let _atk2_1 = make_troop(&mut world2, sys2, true);
    let _atk2_2 = make_troop(&mut world2, sys2, true);
    let def2_1 = make_troop(&mut world2, sys2, false);
    let def2_2 = make_troop(&mut world2, sys2, false);

    // Add a fleet with an officer (combat.base = 80)
    let officer = world2.characters.insert(Character {
        dat_id: DatId::new(0x0800_0001),
        name: "Admiral Ackbar".into(),
        is_alliance: true,
        is_major: true,
        combat: SkillPair {
            base: 80,
            variance: 0,
        },
        can_be_admiral: true,
        ..Default::default()
    });
    let atk_class = make_class(&mut world2, 100, 10);
    let fleet = world2.fleets.insert(Fleet {
        location: sys2,
        capital_ships: vec![ShipInstance::new(
            atk_class,
            world2.capital_ship_classes.get(atk_class).unwrap().hull as i32,
            true,
        )],
        fighters: vec![],
        characters: vec![officer],
        is_alliance: true,
        has_death_star: false,
    });
    world2.systems.get_mut(sys2).unwrap().fleets.push(fleet);

    let result_with_officer = fight_ground(&world2, sys2, true, 1, &rolls, 1);

    // Officer with combat=80 gives 1.0 + (80/200) = 1.4x multiplier
    let with_officer_damage: i16 = result_with_officer
        .troop_damage
        .iter()
        .filter(|d| d.troop == def2_1 || d.troop == def2_2)
        .map(|d| d.strength_before - d.strength_after)
        .sum();

    assert!(with_officer_damage > no_officer_damage,
        "Officer (combat=80, 1.4x multiplier) should strictly increase damage: with={with_officer_damage}, without={no_officer_damage}");
}

fn make_weapon_snap(weapon_nibble: u8) -> ShipSnap {
    ShipSnap {
        hull_current: 100,
        hull_max: 100,
        shield_current: 0,
        shield_max: 0,
        pending_damage: 0,
        pending_ion_damage: 0,
        shield_nibble: 0,
        weapon_nibble,
        alive: true,
        is_death_star: false,
    }
}

fn make_target_snap() -> ShipSnap {
    ShipSnap {
        hull_current: 200,
        hull_max: 200,
        shield_current: 0,
        shield_max: 0,
        pending_damage: 0,
        pending_ion_damage: 0,
        shield_nibble: 0,
        weapon_nibble: 15,
        alive: true,
        is_death_star: false,
    }
}

#[test]
fn per_weapon_type_attack_strength_amplifies_damage() {
    let mut world = GameWorld::default();
    let sector = make_sector(&mut world);
    let sys = make_system(&mut world, sector);

    let strong_class = world.capital_ship_classes.insert(CapitalShipClass {
        dat_id: DatId::new(0x3000_0010),
        name: "Heavy ISD".into(),
        hull: 100,
        turbolaser_fore: 4,
        turbolaser_aft: 2,
        turbolaser_attack_strength: 10,
        ..CapitalShipClass::default()
    });
    let weak_class = world.capital_ship_classes.insert(CapitalShipClass {
        dat_id: DatId::new(0x3000_0011),
        name: "Light Frigate".into(),
        hull: 100,
        turbolaser_fore: 4,
        turbolaser_aft: 2,
        turbolaser_attack_strength: 1,
        ..CapitalShipClass::default()
    });

    let _target_class = make_class(&mut world, 200, 1);

    // Strong attacker
    let strong_fleet = make_fleet(&mut world, sys, strong_class, 1, false);
    let strong_snap = vec![make_weapon_snap(15)];
    let mut target_snap_a = vec![make_target_snap()];
    let rolls_a: Vec<f64> = vec![0.5; 10];
    fire(
        &world,
        strong_fleet,
        &strong_snap,
        &mut target_snap_a,
        &mut rolls_a.iter().copied(),
    );
    let strong_dmg = target_snap_a[0].pending_damage;

    // Weak attacker (same arc count, lower attack_strength)
    let weak_fleet = make_fleet(&mut world, sys, weak_class, 1, false);
    let weak_snap = vec![make_weapon_snap(15)];
    let mut target_snap_b = vec![make_target_snap()];
    let rolls_b: Vec<f64> = vec![0.5; 10];
    fire(
        &world,
        weak_fleet,
        &weak_snap,
        &mut target_snap_b,
        &mut rolls_b.iter().copied(),
    );
    let weak_dmg = target_snap_b[0].pending_damage;

    assert!(
        strong_dmg > weak_dmg,
        "attack_strength=10 ({strong_dmg}) should deal more than =1 ({weak_dmg})"
    );
}

#[test]
fn mixed_weapon_types_use_respective_strengths() {
    let mut world = GameWorld::default();
    let sector = make_sector(&mut world);
    let sys = make_system(&mut world, sector);

    let mixed_class = world.capital_ship_classes.insert(CapitalShipClass {
        dat_id: DatId::new(0x3000_0020),
        name: "Mixed Cruiser".into(),
        hull: 100,
        turbolaser_fore: 3,
        ion_cannon_fore: 3,
        laser_cannon_fore: 3,
        turbolaser_attack_strength: 5,
        ion_cannon_attack_strength: 8,
        laser_cannon_attack_strength: 2,
        ..CapitalShipClass::default()
    });

    let target_class = make_class(&mut world, 200, 1);
    let _target = make_fleet(&mut world, sys, target_class, 1, true);
    let attacker = make_fleet(&mut world, sys, mixed_class, 1, false);

    let snap = vec![make_weapon_snap(15)];
    let mut target_snap = vec![make_target_snap()];
    let rolls: Vec<f64> = vec![0.5; 10];
    fire(
        &world,
        attacker,
        &snap,
        &mut target_snap,
        &mut rolls.iter().copied(),
    );

    assert!(
        target_snap[0].pending_damage > 0,
        "Mixed weapons should deal damage"
    );
    assert!(
        target_snap[0].pending_ion_damage > 0,
        "Ion cannons should contribute ion damage"
    );
    // Ion fraction: 3*8=24 ion vs 3*5+3*2=21 non-ion. Ion > 50%.
    assert!(
        target_snap[0].pending_ion_damage > target_snap[0].pending_damage / 3,
        "Ion damage should be substantial with high ion_cannon_attack_strength"
    );
}

#[test]
fn zero_attack_strength_uses_raw_weapon_count() {
    let mut world = GameWorld::default();
    let sector = make_sector(&mut world);
    let sys = make_system(&mut world, sector);

    let zero_class = world.capital_ship_classes.insert(CapitalShipClass {
        dat_id: DatId::new(0x3000_0030),
        name: "Legacy Ship".into(),
        hull: 100,
        turbolaser_fore: 4,
        turbolaser_attack_strength: 0, // unpopulated DAT — should fallback to 1
        ..CapitalShipClass::default()
    });

    let target_class = make_class(&mut world, 200, 1);
    let _target = make_fleet(&mut world, sys, target_class, 1, true);
    let attacker = make_fleet(&mut world, sys, zero_class, 1, false);

    let snap = vec![make_weapon_snap(15)];
    let mut target_snap = vec![make_target_snap()];
    let rolls: Vec<f64> = vec![0.5; 10];
    fire(
        &world,
        attacker,
        &snap,
        &mut target_snap,
        &mut rolls.iter().copied(),
    );

    assert!(
        target_snap[0].pending_damage > 0,
        "Ships with attack_strength=0 should still deal damage (fallback to raw arcs)"
    );
}

#[test]
fn no_officer_gives_1x_multiplier() {
    let mut world = GameWorld::default();
    let sector = make_sector(&mut world);
    let sys = make_system(&mut world, sector);

    add_troop_class(
        &mut world,
        DatId::new(0x1400_0100),
        TroopClassDef {
            attack_strength: 30,
            defense_strength: 20,
        },
    );

    make_troop(&mut world, sys, true);
    make_troop(&mut world, sys, false);

    // No officer fleet — bonus should be 1.0
    let rolls: Vec<f64> = vec![0.3; 50];
    let result = fight_ground(&world, sys, true, 1, &rolls, 1);

    // Combat should still work (no officer = 1.0x, not a crash)
    assert!(
        !result.troop_damage.is_empty(),
        "Ground combat should produce damage events even without officers"
    );
}

#[test]
fn a_whole_battle_only_wears_both_sides_down() {
    let mut world = GameWorld::default();
    let sector = make_sector(&mut world);
    let sys = make_system(&mut world, sector);
    let class = make_class(&mut world, 300, 40);
    let wing = make_fighter_class(&mut world, 20, 5, true);
    let atk = make_fleet_with_fighters(&mut world, sys, class, 2, wing, 9, true);
    let def = make_fleet_with_fighters(&mut world, sys, class, 3, wing, 7, false);
    for roll in [0.0, 0.25, 0.5, 0.99] {
        let result = fight_space(&world, atk, def, sys, 1, &[roll; 64], 1, false);
        assert!(!result.ship_damage.is_empty());
        for event in &result.ship_damage {
            assert!(0 <= event.hull_after && event.hull_after < event.hull_before);
        }
        for event in &result.fighter_losses {
            assert!(event.squads_after < event.squads_before);
        }
    }
}

#[test]
fn the_emperor_spurs_his_fleet_on() {
    let mut world = GameWorld::default();
    let sector = make_sector(&mut world);
    let sys = make_system(&mut world, sector);
    let class = make_shield_class(&mut world, 500, 0, 0, 40, 0);
    let atk = make_fleet(&mut world, sys, class, 1, false);
    let def = make_fleet(&mut world, sys, class, 1, true);
    let hurt = |world: &GameWorld| {
        fight_space(world, atk, def, sys, 1, &[0.5; 64], 1, false)
            .ship_damage
            .iter()
            .find(|event| event.fleet == def)
            .map_or(0, |event| event.hull_before - event.hull_after)
    };
    assert_eq!(hurt(&world), 40);
    let emperor = world.characters.insert(Character {
        name: "Emperor Palpatine".into(),
        is_empire: true,
        ..Default::default()
    });
    world.fleets.get_mut(atk).unwrap().characters.push(emperor);
    assert_eq!(hurt(&world), 60);
}

#[test]
fn the_generator_guards_a_death_star_from_fighters() {
    let mut world = GameWorld::default();
    let sector = make_sector(&mut world);
    let sys = make_system(&mut world, sector);
    let carrier = make_class(&mut world, 500, 0);
    let wing = make_fighter_class(&mut world, 50, 5, true);
    let atk = make_fleet_with_fighters(&mut world, sys, carrier, 1, wing, 8, true);
    let ds_class = make_ds_class(&mut world, 5000);
    let ds = make_fleet(&mut world, sys, ds_class, 1, false);
    world.fleets.get_mut(ds).unwrap().has_death_star = true;
    let hurt = |first: FleetKey, second: FleetKey, generator_runs: bool| {
        let rolls: Vec<f64> = vec![0.5; 200];
        fight_space(&world, first, second, sys, 1, &rolls, 1, generator_runs)
            .ship_damage
            .iter()
            .any(|event| event.fleet == ds)
    };
    assert!(!hurt(atk, ds, true));
    assert!(!hurt(ds, atk, true));
    assert!(hurt(atk, ds, false));
    assert!(hurt(ds, atk, false));
}

#[test]
fn fighters_wear_the_shields_of_a_guarded_death_star() {
    let mut world = GameWorld::default();
    let sector = make_sector(&mut world);
    let sys = make_system(&mut world, sector);
    let carrier = make_class(&mut world, 500, 0);
    let wing = make_fighter_class(&mut world, 50, 5, true);
    let key = make_fleet_with_fighters(&mut world, sys, carrier, 1, wing, 8, true);
    let fleet = world.fleets.get(key).unwrap();
    let star = ShipSnap {
        is_death_star: true,
        hull_current: 100,
        shield_current: 150,
        ..make_target_snap()
    };
    let mut guarded = vec![star];
    CombatSystem::fighters_attack_ships(&vec![8], fleet, &mut guarded, &world, &vec![], true);
    assert_eq!(guarded[0].shield_current, 0);
    assert_eq!(guarded[0].hull_current, 100);
    assert!(guarded[0].alive);
    let mut bare = vec![star];
    CombatSystem::fighters_attack_ships(&vec![8], fleet, &mut bare, &world, &vec![], false);
    assert_eq!(bare[0].shield_current, 0);
    assert_eq!(bare[0].hull_current, 0);
    assert!(!bare[0].alive);
}

#[test]
fn reports_name_the_place_among_all_ships() {
    let mut world = GameWorld::default();
    let sector = make_sector(&mut world);
    let sys = make_system(&mut world, sector);
    let guns = make_class(&mut world, 500, 50);
    let target = make_class(&mut world, 300, 0);
    let atk = make_fleet(&mut world, sys, guns, 1, true);
    let def = make_fleet(&mut world, sys, target, 3, false);
    let ships = &mut world.fleets.get_mut(def).unwrap().capital_ships;
    for wreck in [0, 1] {
        ships[wreck].alive = false;
        ships[wreck].hull_current = 0;
    }
    ships[2].hull_current = 250;
    let result = fight_space(&world, atk, def, sys, 1, &[0.5; 50], 1, false);
    let events: Vec<&ShipDamageEvent> = result
        .ship_damage
        .iter()
        .filter(|event| event.fleet == def)
        .collect();
    assert_eq!(events.len(), 1);
    assert_eq!(events[0].ship_index, 2);
    assert_eq!(events[0].hull_before, 250);
}
