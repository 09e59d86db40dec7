//! Tests of rules on concrete values.

use std::collections::HashSet;

use open_rebellion::ai::{AIAction, AIState, AISystem, Advice, AiFaction, FleetMoveReason};
use open_rebellion::ai_orders::{apply_ai_actions, AiTask, MissionLength};
use open_rebellion::arena::Arena;
use open_rebellion::assets::{
    bitmap_name, bitmap_path, data_path, loading_text, optional_name, shows_progress,
    tells_failure, OPTIONAL_FILES,
};
use open_rebellion::blockade::BlockadeState;
use open_rebellion::bombardment::BombardmentSystem;
use open_rebellion::combat::{
    CombatPhaseFlags, CombatSide, CombatSystem, GroundCombatResult, TroopDamageEvent,
};
use open_rebellion::dat::{ExplorationStatus, Faction, SectorGroup};
use open_rebellion::death_star::{
    cleanup_destroyed_system, DeathStarConstruction, DeathStarEvent, DeathStarState,
    DeathStarSystem, DEATH_STAR_CONSTRUCTION_TICKS,
};
use open_rebellion::effects::GameEffect;
use open_rebellion::fonts::{fresh_sizes, map_letters};
use open_rebellion::ground::Exchange;
use open_rebellion::ground_campaign::{GroundCampaign, GroundStep};
use open_rebellion::ids::{
    CapitalShipKey, CharacterKey, DatId, FleetKey, SystemKey, TroopKey,
};
use open_rebellion::manufacturing::{BuildableKind, ManufacturingState};
use open_rebellion::messages::{MessageLog, VoiceLine};
use open_rebellion::missions::{MissionFaction, MissionKind};
use open_rebellion::movement::MovementState;
use open_rebellion::research::{ResearchProject, ResearchState, TechType};
use open_rebellion::runtime_pack::{parse_runtime_pack, PackError};
use open_rebellion::screens::{cutscene_skipped_text, keep_side, restore_side};
use open_rebellion::select::{pick_first_min, pick_last_max, sort_by_rank};
use open_rebellion::space::ShipSnap;
use open_rebellion::text::{contains_text, ends_with_upper, starts_with};
use open_rebellion::tick::TickEvent;
use open_rebellion::tuning::GameConfig;
use open_rebellion::world::{
    CapitalShipClass, Character, ControlKind, DefenseFacilityClassDef, DefenseFacilityInstance,
    Fleet, GameWorld, GnprtbEntry, GnprtbParams, ManufacturingFacilityInstance, MstbTable, Sector,
    ShipInstance, SkillPair, System, TroopUnit,
};

fn add_system(world: &mut GameWorld, name: &str, x: u16, control: ControlKind) -> SystemKey {
    let sector = world.sectors.insert(Sector {
        dat_id: DatId::new(1),
        name: "Rim".into(),
        group: SectorGroup::Core,
        x: 0,
        y: 0,
        systems: vec![],
    });
    world.systems.insert(System {
        dat_id: DatId::new(2),
        name: name.into(),
        sector,
        x,
        y: 0,
        exploration_status: ExplorationStatus::Explored,
        popularity_alliance: 0.5f32.to_bits(),
        popularity_empire: 0.5f32.to_bits(),
        is_populated: true,
        total_energy: 0,
        raw_materials: 0,
        espionage_rating: 0,
        fleets: vec![],
        ground_units: vec![],
        special_forces: vec![],
        defense_facilities: vec![],
        manufacturing_facilities: vec![],
        production_facilities: vec![],
        is_headquarters: false,
        is_destroyed: false,
        control,
    })
}

fn add_fleet(
    world: &mut GameWorld,
    system: SystemKey,
    class: CapitalShipKey,
    ships: u32,
    is_alliance: bool,
) -> FleetKey {
    let key = world.fleets.insert(Fleet {
        location: system,
        capital_ships: ShipInstance::make(class, 100, is_alliance, ships),
        fighters: vec![],
        characters: vec![],
        is_alliance,
        has_death_star: false,
    });
    world.systems.get_mut(system).unwrap().fleets.push(key);
    key
}

fn skill(base: u32) -> SkillPair {
    SkillPair { base, variance: 0 }
}

fn officer(is_alliance: bool) -> Character {
    Character {
        name: "Officer".into(),
        is_alliance,
        is_empire: !is_alliance,
        can_be_commander: true,
        ..Default::default()
    }
}

// ---------------------------------------------------------------------------
// Storage and lists
// ---------------------------------------------------------------------------

#[test]
fn a_stale_key_finds_nothing() {
    let mut arena: Arena<FleetKey, u8> = Arena::new();
    let a = arena.insert(1);
    let b = arena.insert(2);
    assert_eq!(arena.remove(a), Some(1));
    assert_eq!(arena.remove(a), None);
    let c = arena.insert(3);
    assert_ne!(a, c);
    assert!(arena.get(a).is_none());
    assert_eq!(arena.get(b), Some(&2));
    assert_eq!(arena.len(), 2);
    *arena.get_mut(c).unwrap() = 9;
    assert_eq!(arena.get(c), Some(&9));
}

#[test]
fn sorting_is_stable_and_picking_breaks_ties() {
    let list = vec![('a', 2), ('b', 1), ('c', 2), ('d', 1)];
    let names: String = sort_by_rank(&list).iter().map(|e| e.0).collect();
    assert_eq!(names, "bdac");
    assert_eq!(pick_last_max(&list), Some('c'));
    assert_eq!(pick_first_min(&list), Some('b'));
    assert_eq!(pick_last_max::<char>(&vec![]), None);
}

#[test]
fn texts_are_searched() {
    assert!(contains_text("Emperor Palpatine", "Palpatine"));
    assert!(!contains_text("Palp", "Palpatine"));
    assert!(contains_text("x", ""));
    assert!(starts_with("alsprite-dll/1", "alsprite-dll/"));
    assert!(!starts_with("al", "alsprite-dll/"));
    assert!(ends_with_upper("a.dAt", ".DAT"));
    assert!(!ends_with_upper("a.dät", ".DAT"));
}

#[test]
fn tables_stop_at_their_ends() {
    let table = MstbTable::new(-2, vec![10, 20, 30]);
    assert_eq!(table.lookup(-2), 10);
    assert_eq!(table.lookup(-1), 20);
    assert_eq!(table.lookup(0), 30);
    assert_eq!(table.lookup(99), 30);
    assert_eq!(table.lookup(-99), 10);
}

// ---------------------------------------------------------------------------
// The pack
// ---------------------------------------------------------------------------

fn header(version: u16, flags: u16, count: u32) -> Vec<u8> {
    let mut bytes = b"ORPK".to_vec();
    bytes.extend_from_slice(&version.to_le_bytes());
    bytes.extend_from_slice(&flags.to_le_bytes());
    bytes.extend_from_slice(&count.to_le_bytes());
    bytes
}

fn entry(bytes: &mut Vec<u8>, kind: u8, key: &[u8], data: &[u8]) {
    bytes.push(kind);
    bytes.extend_from_slice(&(key.len() as u16).to_le_bytes());
    bytes.extend_from_slice(&(data.len() as u32).to_le_bytes());
    bytes.extend_from_slice(key);
    bytes.extend_from_slice(data);
}

fn refusal(bytes: &[u8]) -> (PackError, String) {
    let error = parse_runtime_pack(bytes).unwrap_err();
    let text = error.message();
    (error, text)
}

#[test]
fn every_fault_of_a_pack_has_its_words() {
    assert_eq!(
        refusal(b"ORPK"),
        (PackError::Truncated("header"), "truncated header".to_string())
    );
    assert_eq!(
        refusal(b"XRPK00000000"),
        (PackError::InvalidMagic, "invalid runtime-pack magic".to_string())
    );
    assert_eq!(
        refusal(&header(3, 0, 0)),
        (
            PackError::UnsupportedVersion(3),
            "unsupported runtime-pack version 3".to_string()
        )
    );
    assert_eq!(
        refusal(&header(2, 0x10a, 0)),
        (
            PackError::UnsupportedFlags(0x10a),
            "unsupported runtime-pack flags 0x010a".to_string()
        )
    );
    assert_eq!(
        refusal(&header(2, 0, 10_001)),
        (
            PackError::TooManyEntries(10_001),
            "runtime pack declares too many entries: 10001".to_string()
        )
    );
    let mut bytes = header(2, 0, 1);
    entry(&mut bytes, 0, b"", b"x");
    assert_eq!(
        refusal(&bytes),
        (
            PackError::EmptyKey,
            "runtime-pack entry has an empty key".to_string()
        )
    );
    let mut bytes = header(2, 0, 1);
    entry(&mut bytes, 0, &[b'k'; 513], b"x");
    assert_eq!(
        refusal(&bytes),
        (
            PackError::KeyTooLong(513),
            "runtime-pack key is too long: 513 bytes".to_string()
        )
    );
    let mut bytes = header(2, 0, 1);
    entry(&mut bytes, 0, &[0xff, 0xfe], b"x");
    assert_eq!(
        refusal(&bytes),
        (
            PackError::InvalidUtf8,
            "runtime-pack key is not valid UTF-8".to_string()
        )
    );
    let mut bytes = header(2, 0, 1);
    entry(&mut bytes, 4, b"k", b"x");
    assert_eq!(
        refusal(&bytes),
        (
            PackError::UnknownKind(4),
            "unknown runtime-pack entry kind 4".to_string()
        )
    );
    let mut bytes = header(2, 0, 2);
    entry(&mut bytes, 1, "é".as_bytes(), b"x");
    entry(&mut bytes, 1, "é".as_bytes(), b"y");
    assert_eq!(
        refusal(&bytes),
        (
            PackError::DuplicateKey("é".to_string()),
            "duplicate runtime-pack key é".to_string()
        )
    );
    let mut bytes = header(2, 0, 0);
    bytes.extend_from_slice(b"abc");
    assert_eq!(
        refusal(&bytes),
        (
            PackError::TrailingBytes(3),
            "runtime pack contains 3 trailing bytes".to_string()
        )
    );
    assert_eq!(
        parse_runtime_pack(&header(2, 0, 1)),
        Err(PackError::Truncated("entry header"))
    );
}

#[test]
fn keys_may_repeat_between_kinds_and_hold_any_text() {
    let mut bytes = header(2, 0, 2);
    entry(&mut bytes, 0, "naïve/ключ".as_bytes(), b"1");
    entry(&mut bytes, 2, "naïve/ключ".as_bytes(), b"");
    let pack = parse_runtime_pack(&bytes).unwrap();
    assert_eq!(pack.game_files.get("naïve/ключ").unwrap(), b"1");
    assert_eq!(pack.audio_files.get("naïve/ключ").unwrap(), b"");
    assert_eq!(pack.bitmaps.len(), 0);
}

#[test]
fn files_are_found_one_by_one() {
    assert_eq!(optional_name(0), "GNPRTB.DAT");
    assert_eq!(optional_name(OPTIONAL_FILES - 1), "TDECOYTB.DAT");
    let all: HashSet<&str> = (0..OPTIONAL_FILES).map(optional_name).collect();
    assert_eq!(all.len(), OPTIONAL_FILES);
    assert_eq!(data_path("A.DAT"), "data/base/A.DAT");
    assert_eq!(bitmap_path("common-dll", 20001), "data/ui/common-dll/BMP/20001.bmp");
    assert_eq!(bitmap_name("common-dll", 7), "common-dll/7");
    assert!(shows_progress(50, 120) && shows_progress(120, 120) && !shows_progress(51, 120));
    assert!(!shows_progress(0, 0));
    assert!(tells_failure(5) && !tells_failure(6));
    assert_eq!(loading_text("Loading", 3, 41), "Loading (3/41)");
    assert_eq!(loading_text("Loading", 0, 0), "Loading");
    assert_eq!(
        cutscene_skipped_text(None),
        "cutscene skipped — run scripts/decode-cutscenes.sh to enable"
    );
    assert_eq!(cutscene_skipped_text(Some("lost")), "cutscene skipped — lost");
    for side in [MissionFaction::Alliance, MissionFaction::Empire] {
        assert_eq!(restore_side(keep_side(side)), side);
    }
}

#[test]
fn letters_and_sizes_are_warmed_once() {
    let mut world = GameWorld::default();
    add_system(&mut world, "Zeltros?", 0, ControlKind::Uncontrolled);
    let letters: String = map_letters(&world).iter().collect();
    assert!(letters.starts_with(" 0123456789?"));
    assert!(letters.contains('Z') && letters.contains('—') && !letters.contains('z'));
    let mut sorted: Vec<char> = letters.chars().collect();
    sorted.dedup();
    assert_eq!(sorted.len(), letters.chars().count());
    let mut warmed = HashSet::new();
    assert_eq!(fresh_sizes(&vec![18, 14, 18, 9], &mut warmed), vec![9, 14, 18]);
    assert_eq!(fresh_sizes(&vec![18, 20], &mut warmed), vec![20]);
    assert!(fresh_sizes(&vec![9, 20], &mut warmed).is_empty());
}

// ---------------------------------------------------------------------------
// Bombardment
// ---------------------------------------------------------------------------

fn divisor(value: i32) -> GnprtbParams {
    GnprtbParams::new(vec![GnprtbEntry {
        parameter_id: 0x1400,
        development: value,
        alliance_sp_easy: value,
        alliance_sp_medium: value,
        alliance_sp_hard: value,
        empire_sp_easy: value,
        empire_sp_medium: value,
        empire_sp_hard: value,
        multiplayer: value,
    }])
}

#[test]
fn bombardment_is_a_distance_over_a_divisor() {
    let mut world = GameWorld::default();
    world.gnprtb = divisor(2);
    let system = add_system(
        &mut world,
        "Hoth",
        0,
        ControlKind::Controlled(Faction::Alliance),
    );
    let class = world.capital_ship_classes.insert(CapitalShipClass {
        bombardment_modifier: 10,
        maneuverability: 7,
        ..CapitalShipClass::default()
    });
    let fleet = add_fleet(&mut world, system, class, 1, false);
    let wall = world.defense_facilities.insert(DefenseFacilityInstance {
        class_dat_id: DatId(9),
        is_alliance: true,
    });
    world.systems.get_mut(system).unwrap().defense_facilities.push(wall);
    world
        .defense_facility_classes
        .push((DatId(9), DefenseFacilityClassDef { bombardment_defense: 40 }));
    let troop = world.troops.insert(TroopUnit {
        class_dat_id: DatId(1),
        is_alliance: true,
        regiment_strength: 47,
    });
    world.systems.get_mut(system).unwrap().ground_units.push(troop);
    assert_eq!(BombardmentSystem::fleet_bombardment_stats(&world, fleet), (10, 7));
    assert_eq!(BombardmentSystem::system_bombardment_defense(&world, system), (40, 47));
    // The square root of 30 squared and 40 squared, over two.
    assert_eq!(
        BombardmentSystem::resolve_bombardment(&world, fleet, system, 1, 5).damage,
        25
    );
    // However large the divisor, any force counts for one.
    world.gnprtb = divisor(1_000_000);
    assert_eq!(
        BombardmentSystem::resolve_bombardment(&world, fleet, system, 1, 5).damage,
        1
    );
    // Without a divisor nothing is divided.
    world.gnprtb = divisor(0);
    assert_eq!(
        BombardmentSystem::resolve_bombardment(&world, fleet, system, 1, 5).damage,
        50
    );
}

// ---------------------------------------------------------------------------
// The Death Star
// ---------------------------------------------------------------------------

#[test]
fn sabotage_costs_its_days_and_does_not_overflow() {
    let system = SystemKey { slot: 0 };
    let mut state = DeathStarState::default();
    state.add_sabotage_delay(5);
    assert_eq!(state.under_construction, None);
    assert!(DeathStarSystem::start_construction(&mut state, system));
    state.add_sabotage_delay(5);
    assert_eq!(
        state.under_construction.unwrap().ticks_remaining,
        DEATH_STAR_CONSTRUCTION_TICKS + 5
    );
    state.add_sabotage_delay(u32::MAX);
    assert_eq!(state.under_construction.unwrap().ticks_remaining, u32::MAX);
}

#[test]
fn days_may_pass_together_or_apart() {
    let world = GameWorld::default();
    let site = Some(DeathStarConstruction {
        system: SystemKey { slot: 0 },
        ticks_remaining: 10,
    });
    let day = |tick| TickEvent { tick };
    let mut once = DeathStarState {
        under_construction: site,
        ..DeathStarState::default()
    };
    let mut twice = once;
    DeathStarSystem::advance(&mut once, &world, &[day(1), day(2), day(3)]);
    DeathStarSystem::advance(&mut twice, &world, &[day(1)]);
    DeathStarSystem::advance(&mut twice, &world, &[day(2), day(3)]);
    assert_eq!(once, twice);
    let rest: Vec<TickEvent> = (4..=10).map(day).collect();
    assert_eq!(
        DeathStarSystem::advance(&mut once, &world, &rest),
        vec![DeathStarEvent::ConstructionCompleted {
            system: SystemKey { slot: 0 },
            tick: 10,
        }]
    );
    assert_eq!(once.under_construction, None);
}

#[test]
fn completion_is_told_once_however_the_days_are_split() {
    let world = GameWorld::default();
    let system = SystemKey { slot: 3 };
    let splits: [&[u64]; 5] = [&[7], &[1, 1, 1, 1, 1, 1, 1], &[0, 3, 0, 3, 2], &[4, 1, 9], &[6]];
    for split in splits {
        let mut state = DeathStarState {
            under_construction: Some(DeathStarConstruction {
                system,
                ticks_remaining: 7,
            }),
            ..DeathStarState::default()
        };
        let mut passed = 0;
        for &days in split {
            let ticks: Vec<TickEvent> = (passed + 1..=passed + days).map(|tick| TickEvent { tick }).collect();
            let events = DeathStarSystem::advance(&mut state, &world, &ticks);
            let reached = passed < 7 && passed + days >= 7;
            passed += days;
            if reached {
                let tick = passed;
                assert_eq!(events, vec![DeathStarEvent::ConstructionCompleted { system, tick }]);
            } else {
                assert!(events.is_empty());
            }
        }
        let left = state.under_construction.map(|site| u64::from(site.ticks_remaining));
        assert_eq!(left, if passed < 7 { Some(7 - passed) } else { None });
    }
}

#[test]
fn each_death_is_reported_once() {
    let mut world = GameWorld::default();
    let system = add_system(&mut world, "Alderaan", 0, ControlKind::Uncontrolled);
    let class = CapitalShipKey { slot: 0 };
    let a = add_fleet(&mut world, system, class, 1, true);
    let b = add_fleet(&mut world, system, class, 1, true);
    let x = world.characters.insert(officer(true));
    let y = world.characters.insert(officer(true));
    world.characters.get_mut(y).unwrap().mark_killed();
    world.fleets.get_mut(a).unwrap().characters = vec![x, y];
    world.fleets.get_mut(b).unwrap().characters = vec![x];
    let mut effects = vec![];
    let mut movement = MovementState::new();
    let mut station = DeathStarState::default();
    let mut queues = ManufacturingState::new();
    let mut blockade = BlockadeState::new();
    for _ in 0..2 {
        cleanup_destroyed_system(
            &mut world,
            system,
            &mut movement,
            &mut station,
            &mut queues,
            &mut blockade,
            &mut effects,
        );
    }
    assert_eq!(effects, vec![GameEffect::CharacterKilled { character: x }]);
    assert_eq!(world.fleets.len(), 0);
}

#[test]
fn the_ground_is_no_refuge() {
    let mut world = GameWorld::default();
    let system = add_system(&mut world, "Alderaan", 0, ControlKind::Uncontrolled);
    let other = add_system(&mut world, "Yavin", 1, ControlKind::Uncontrolled);
    let class = CapitalShipKey { slot: 0 };
    let here = add_fleet(&mut world, system, class, 1, true);
    let away = add_fleet(&mut world, other, class, 1, true);
    let aboard = world.characters.insert(officer(true));
    let ashore = world.characters.insert(officer(true));
    let absent = world.characters.insert(officer(true));
    for who in [aboard, ashore] {
        world.characters.get_mut(who).unwrap().current_system = Some(system);
    }
    world.characters.get_mut(absent).unwrap().current_system = Some(other);
    world.fleets.get_mut(here).unwrap().characters = vec![aboard];
    world.fleets.get_mut(away).unwrap().characters = vec![ashore, absent];
    let mut effects = vec![];
    for _ in 0..2 {
        cleanup_destroyed_system(
            &mut world,
            system,
            &mut MovementState::new(),
            &mut DeathStarState::default(),
            &mut ManufacturingState::new(),
            &mut BlockadeState::new(),
            &mut effects,
        );
    }
    assert_eq!(
        effects,
        vec![
            GameEffect::CharacterKilled { character: aboard },
            GameEffect::CharacterKilled { character: ashore },
        ]
    );
    assert!(world.characters.get(aboard).unwrap().is_killed);
    assert!(world.characters.get(ashore).unwrap().is_killed);
    assert!(!world.characters.get(absent).unwrap().is_killed);
    assert!(world.fleets.get(here).is_none());
    assert_eq!(world.fleets.get(away).unwrap().characters, vec![absent]);
}

// ---------------------------------------------------------------------------
// Combat
// ---------------------------------------------------------------------------

#[test]
fn phases_stay_set() {
    let mut flags = CombatPhaseFlags::new(CombatPhaseFlags::ACTIVE);
    assert!(!flags.contains(CombatPhaseFlags::PHASES_ENABLED));
    flags.set(CombatPhaseFlags::PHASES_ENABLED);
    assert!(flags.contains(CombatPhaseFlags::ACTIVE));
    assert!(flags.contains(CombatPhaseFlags::PHASES_ENABLED));
}

#[test]
fn squadrons_are_counted_exactly() {
    let groups = vec![3, 0, 5, 2];
    assert_eq!(CombatSystem::launch_fighters(&groups, 6), vec![3, 0, 3, 0]);
    assert_eq!(CombatSystem::launch_fighters(&groups, 99), groups);
    let mut left = groups.clone();
    CombatSystem::apply_fighter_losses(&mut left, 4);
    assert_eq!(left, vec![3, 0, 3, 0]);
    CombatSystem::apply_fighter_losses(&mut left, 99);
    assert_eq!(left, vec![0, 0, 0, 0]);
    let mut home = groups.clone();
    CombatSystem::recall_fighters(&mut home, &vec![2, 0, 3, 1], &vec![3, 0, 5, 0], 4);
    assert_eq!(home, vec![2, 0, 2, 2]);
}

fn hull(points: i32, pending: i32, is_death_star: bool) -> ShipSnap {
    ShipSnap {
        hull_current: points,
        hull_max: points,
        shield_current: 0,
        shield_max: 0,
        pending_damage: pending,
        pending_ion_damage: 0,
        shield_nibble: 0,
        weapon_nibble: 15,
        alive: true,
        is_death_star,
    }
}

#[test]
fn every_blow_counts_unless_a_generator_guards() {
    let mut ships = vec![hull(10, 5, false), hull(10, 5, true), hull(4, 9, false)];
    CombatSystem::phase_hull_damage(&mut ships, &vec![0, 5, 9], true);
    assert_eq!(ships[0].hull_current, 9);
    assert_eq!(ships[1].hull_current, 10);
    assert_eq!((ships[2].hull_current, ships[2].alive), (0, false));
    assert!(ships.iter().all(|s| s.pending_damage == 0));
}

#[test]
fn regiments_wear_down_by_at_least_one() {
    let mut world = GameWorld::default();
    let system = add_system(&mut world, "Hoth", 0, ControlKind::Uncontrolled);
    for is_alliance in [true, false] {
        let key = world.troops.insert(TroopUnit {
            class_dat_id: DatId(1),
            is_alliance,
            regiment_strength: 5,
        });
        world.systems.get_mut(system).unwrap().ground_units.push(key);
    }
    let strike =
        |exchange| CombatSystem::resolve_ground(&world, system, true, &vec![exchange], 1);
    let result = strike(Exchange::Hit(0));
    assert_eq!(result.troop_damage[0].strength_after, 4);
    assert_eq!(result.winner, CombatSide::Draw);
    let result = strike(Exchange::Hit(500));
    assert_eq!(result.troop_damage[0].strength_after, 0);
    assert_eq!(result.winner, CombatSide::Attacker);
    assert_eq!(strike(Exchange::Counter(5)).winner, CombatSide::Defender);
    assert!(strike(Exchange::Void).troop_damage.is_empty());
}

#[test]
fn a_ground_campaign_runs_to_its_end() {
    let mut world = GameWorld::default();
    let system = add_system(&mut world, "Hoth", 0, ControlKind::Uncontrolled);
    let mut log = MessageLog::new();
    let (_, step) = GroundCampaign::begin(&world, system, true, 2);
    assert_eq!(step, GroundStep::Stop);
    for is_alliance in [true, false] {
        let key = world.troops.insert(TroopUnit {
            class_dat_id: DatId(1),
            is_alliance,
            regiment_strength: 5,
        });
        world.systems.get_mut(system).unwrap().ground_units.push(key);
    }
    let (mut fight, step) = GroundCampaign::begin(&world, system, true, 0);
    assert_eq!(step, GroundStep::Fight);
    let round = |winner, after| GroundCombatResult {
        system,
        winner,
        troop_damage: vec![TroopDamageEvent {
            troop: TroopKey { slot: 0 },
            strength_before: 5,
            strength_after: after,
        }],
        tick: 4,
    };
    let step = fight.after_round(&round(CombatSide::Draw, 4), &world, 4, &mut log);
    assert_eq!(step, GroundStep::Fight);
    assert!(log.messages.is_empty());
    let step = fight.after_round(&round(CombatSide::Attacker, 0), &world, 4, &mut log);
    assert_eq!(step, GroundStep::Occupy(Faction::Alliance));
    assert_eq!(
        log.messages[0].text,
        "Ground battle at Hoth: Attacker after 2 round(s)"
    );
    let mut long = GroundCampaign {
        rounds: 255,
        ..fight
    };
    let step = long.after_round(&round(CombatSide::Draw, 4), &world, 4, &mut log);
    assert_eq!(step, GroundStep::Stop);
}

// ---------------------------------------------------------------------------
// The computer player
// ---------------------------------------------------------------------------

#[test]
fn the_best_researcher_takes_each_free_tree() {
    let mut world = GameWorld::default();
    let good = world.characters.insert(Character {
        ship_design: skill(60),
        troop_training: skill(29),
        ..officer(true)
    });
    let best = world.characters.insert(Character {
        ship_design: skill(70),
        facility_design: skill(40),
        ..officer(true)
    });
    let state = AIState::new(AiFaction::Alliance);
    let mut research = ResearchState::new();
    let advice = Advice {
        ship_research_ticks: 11,
        facility_research_ticks: 13,
        ..Advice::none()
    };
    let mut actions = vec![];
    AISystem::evaluate_research(
        &state,
        &world,
        &research,
        AiFaction::Alliance,
        &advice,
        &mut actions,
    );
    assert_eq!(
        actions,
        vec![
            AIAction::DispatchResearch {
                character: best,
                tech_type: TechType::Ship,
                ticks: 11,
            },
            AIAction::DispatchResearch {
                character: best,
                tech_type: TechType::Facility,
                ticks: 13,
            },
        ]
    );
    research.projects.push(ResearchProject {
        tech_type: TechType::Ship,
        character: good,
        faction_is_alliance: true,
        ticks_remaining: 1,
        total_ticks: 1,
    });
    actions.clear();
    AISystem::evaluate_research(
        &state,
        &world,
        &research,
        AiFaction::Alliance,
        &advice,
        &mut actions,
    );
    assert_eq!(actions.len(), 1);
}

#[test]
fn the_best_fighters_free_captives() {
    let mut world = GameWorld::default();
    let prison = add_system(&mut world, "Kessel", 0, ControlKind::Uncontrolled);
    let captive = world.characters.insert(Character {
        is_captive: true,
        current_system: Some(prison),
        combat: skill(90),
        ..officer(true)
    });
    world.characters.insert(Character {
        combat: skill(40),
        ..officer(true)
    });
    let best = world.characters.insert(Character {
        combat: skill(80),
        ..officer(true)
    });
    let mut actions = vec![];
    AISystem::evaluate_rescue(
        &AIState::new(AiFaction::Alliance),
        &world,
        AiFaction::Alliance,
        &mut actions,
    );
    assert_eq!(
        actions,
        vec![AIAction::DispatchMission {
            kind: MissionKind::Rescue,
            character: best,
            target_system: prison,
            target_character: Some(captive),
            duration_percent: 50,
        }]
    );
}

#[test]
fn two_diplomats_at_most_calm_the_worst_systems() {
    let mut world = GameWorld::default();
    let ours = ControlKind::Controlled(Faction::Empire);
    let mut systems = vec![];
    for (name, support) in [("a", 0.3f32), ("b", 0.1), ("c", 0.2), ("d", 0.4)] {
        let key = add_system(&mut world, name, 0, ours);
        world.systems.get_mut(key).unwrap().popularity_empire = support.to_bits();
        systems.push(key);
    }
    for _ in 0..4 {
        world.characters.insert(Character {
            diplomacy: skill(80),
            ..officer(false)
        });
    }
    let mut actions = vec![];
    AISystem::evaluate_uprising_prevention(
        &AIState::new(AiFaction::Empire),
        &world,
        AiFaction::Empire,
        &GameConfig::default(),
        &mut actions,
    );
    let targets: Vec<SystemKey> = actions
        .iter()
        .map(|action| match action {
            AIAction::DispatchMission { target_system, .. } => *target_system,
            _ => panic!("expected a mission"),
        })
        .collect();
    assert_eq!(targets, vec![systems[1], systems[2]]);
}

#[test]
fn yards_build_ships_first_and_stop_at_three_orders() {
    let mut world = GameWorld::default();
    let system = add_system(
        &mut world,
        "Kuat",
        0,
        ControlKind::Controlled(Faction::Empire),
    );
    let yard = world.manufacturing_facilities.insert(ManufacturingFacilityInstance {
        class_dat_id: DatId(1),
        is_alliance: false,
        is_shipyard: true,
    });
    world.systems.get_mut(system).unwrap().manufacturing_facilities.push(yard);
    let class = world.capital_ship_classes.insert(CapitalShipClass {
        is_empire: true,
        hull: 10,
        refined_material_cost: 33,
        ..CapitalShipClass::default()
    });
    let mut queues = ManufacturingState::new();
    let build = |world: &GameWorld, queues: &ManufacturingState| {
        let mut actions = vec![];
        AISystem::evaluate_production(
            world,
            queues,
            AiFaction::Empire,
            &GameConfig::default(),
            &mut actions,
        );
        actions
    };
    let wanted = vec![AIAction::EnqueueProduction {
        system,
        kind: BuildableKind::CapitalShip(class),
        ticks: 33,
    }];
    assert_eq!(build(&world, &queues), wanted);
    for _ in 0..3 {
        queues.enqueue(system, BuildableKind::CapitalShip(class), 33);
    }
    assert!(build(&world, &queues).is_empty());
}

#[test]
fn one_evaluation_is_orderly() {
    let mut world = GameWorld::default();
    let class = world.capital_ship_classes.insert(CapitalShipClass {
        troop_capacity: 3,
        ..CapitalShipClass::default()
    });
    let home = add_system(
        &mut world,
        "Home",
        0,
        ControlKind::Controlled(Faction::Empire),
    );
    let bare = add_system(
        &mut world,
        "Bare",
        10,
        ControlKind::Controlled(Faction::Empire),
    );
    add_system(
        &mut world,
        "Enemy",
        20,
        ControlKind::Controlled(Faction::Alliance),
    );
    let away = add_fleet(&mut world, home, class, 1, false);
    for _ in 0..4 {
        add_fleet(&mut world, home, class, 1, false);
    }
    for _ in 0..9 {
        let key = world.troops.insert(TroopUnit {
            class_dat_id: DatId(1),
            is_alliance: false,
            regiment_strength: 10,
        });
        world.systems.get_mut(home).unwrap().ground_units.push(key);
    }
    for killed in [false, true, false] {
        world.characters.insert(Character {
            diplomacy: skill(90),
            is_killed: killed,
            ..officer(false)
        });
    }
    let mut movement = MovementState::new();
    assert!(movement.order(away, home, bare, 6));
    let mut state = AIState::new(AiFaction::Empire);
    let actions = AISystem::advance(
        &mut state,
        &world,
        &ManufacturingState::new(),
        &movement,
        &[TickEvent { tick: 50 }],
        &GameConfig::default(),
        &ResearchState::new(),
        &Advice::none(),
    );
    let mut fleets = HashSet::new();
    let mut cargo = HashSet::new();
    let mut uprisings = 0;
    for action in &actions {
        match action {
            AIAction::MoveFleet { fleet, troops, .. } => {
                assert_ne!(*fleet, away);
                assert!(fleets.insert(fleet.slot));
                for troop in troops {
                    assert!(cargo.insert(troop.slot));
                }
            }
            AIAction::DispatchMission { kind, character, .. } => {
                assert!(!world.characters.get(*character).unwrap().is_killed);
                if *kind == MissionKind::InciteUprising {
                    uprisings += 1;
                }
            }
            _ => {}
        }
    }
    assert!(!fleets.is_empty() && !cargo.is_empty());
    assert!(uprisings <= 1);
    // Nothing more is recommended until the interval has passed.
    let again = AISystem::advance(
        &mut state,
        &world,
        &ManufacturingState::new(),
        &movement,
        &[TickEvent { tick: 56 }],
        &GameConfig::default(),
        &ResearchState::new(),
        &Advice::none(),
    );
    assert!(again.is_empty());
}

#[test]
fn all_orders_are_carried_out_in_turn() {
    let mut world = GameWorld::default();
    let home = add_system(&mut world, "Home", 0, ControlKind::Uncontrolled);
    let class = CapitalShipKey { slot: 0 };
    let first = add_fleet(&mut world, home, class, 1, true);
    let second = add_fleet(&mut world, home, class, 1, true);
    let who = world.characters.insert(officer(true));
    let mission = |duration_percent| AIAction::DispatchMission {
        kind: MissionKind::Diplomacy,
        character: who,
        target_system: home,
        target_character: None,
        duration_percent,
    };
    let go = |fleet| AIAction::MoveFleet {
        fleet,
        to_system: home,
        reason: FleetMoveReason::Reinforce,
        troops: vec![TroopKey { slot: 0 }],
    };
    let actions = vec![mission(50), go(first), go(second), mission(50), mission(70)];
    let mut state = AIState::new(AiFaction::Alliance);
    let mut queues = ManufacturingState::new();
    let mut log = MessageLog::new();
    let tasks = apply_ai_actions(
        &actions,
        2,
        &vec![(true, true), (true, false)],
        &mut state,
        &mut queues,
        &world,
        8,
        &mut log,
    );
    let sent = |length| AiTask::Mission {
        kind: MissionKind::Diplomacy,
        faction: MissionFaction::Alliance,
        character: who,
        target_system: home,
        target_character: None,
        length,
    };
    assert_eq!(
        tasks,
        vec![
            sent(MissionLength::Rolled(0)),
            AiTask::Announce(VoiceLine::AllianceFleetDeparts),
            AiTask::Unload {
                fleet: second,
                system: home,
            },
            sent(MissionLength::Rolled(1)),
            sent(MissionLength::Ordered(70)),
        ]
    );
    assert_eq!(log.messages.len(), 4);
    assert!(state.is_busy(who));
    assert!(!state.is_busy(CharacterKey { slot: 5 }));
}
