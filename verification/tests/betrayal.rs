//! Tests of betrayal.

use open_rebellion::betrayal::{BetrayalEvent, BetrayalState, BetrayalSystem};
use open_rebellion::tick::TickEvent;
use open_rebellion::world::{Character, GameWorld, MstbTable, SkillPair};

fn skill_pair(base: u32) -> SkillPair {
    SkillPair { base, variance: 0 }
}

fn default_test_character(name: &str, loyalty_base: u32) -> Character {
    Character {
        name: name.into(),
        is_alliance: true,
        loyalty: skill_pair(loyalty_base),
        ..Default::default()
    }
}

/// Simple table: any negative score means an 80% chance of betrayal.
fn test_loyalty_table() -> MstbTable {
    let mut values = vec![80; 100];
    values.extend(vec![0; 101]);
    MstbTable::new(-100, values)
}

/// The lowest whole percentage above each roll.
fn dice(rolls: &[f64]) -> Vec<i32> {
    rolls
        .iter()
        .map(|&roll| (0..=101).find(|&p| roll < f64::from(p) / 100.0).unwrap())
        .collect()
}

fn ticks(n: u64) -> Vec<TickEvent> {
    (1..=n).map(|t| TickEvent { tick: t }).collect()
}

#[test]
fn no_events_without_ticks() {
    let mut state = BetrayalState::new();
    let world = GameWorld::default();
    let table = test_loyalty_table();
    let events = BetrayalSystem::advance(&mut state, &world, &[], &dice(&[0.0]), &table);
    assert!(events.is_empty());
}

#[test]
fn high_loyalty_no_betrayal() {
    let mut state = BetrayalState::new();
    let mut world = GameWorld::default();
    // Loyalty 80 → score = 80 - 50 = 30 → >= 0 → skip
    world.characters.insert(default_test_character("Loyal", 80));
    let table = test_loyalty_table();
    let events = BetrayalSystem::advance(&mut state, &world, &ticks(1), &dice(&[0.0]), &table);
    assert!(events.is_empty());
}

#[test]
fn low_loyalty_low_roll_triggers_betrayal() {
    let mut state = BetrayalState::new();
    let mut world = GameWorld::default();
    // Loyalty 10 → score = 10 - 50 = -40 → table says 80% → roll 0.1 < 0.8 → betrays
    let ck = world
        .characters
        .insert(default_test_character("Disloyal", 10));
    let table = test_loyalty_table();
    let events = BetrayalSystem::advance(&mut state, &world, &ticks(1), &dice(&[0.1]), &table);
    assert_eq!(events.len(), 1);
    match &events[0] {
        BetrayalEvent::CharacterBetrayed {
            character,
            defected_to_alliance,
        } => {
            assert_eq!(*character, ck);
            // is_alliance=true → defects to !alliance = false (Empire)
            assert!(!defected_to_alliance);
        }
    }
}

#[test]
fn is_unable_to_betray_blocks_betrayal() {
    let mut state = BetrayalState::new();
    let mut world = GameWorld::default();
    let mut c = default_test_character("Luke", 10); // low loyalty but immune
    c.is_unable_to_betray = true;
    world.characters.insert(c);
    let table = test_loyalty_table();
    let events = BetrayalSystem::advance(&mut state, &world, &ticks(1), &dice(&[0.0]), &table);
    assert!(events.is_empty());
}

#[test]
fn cooldown_prevents_recheck() {
    let mut state = BetrayalState::new();
    let mut world = GameWorld::default();
    // Loyalty 10 → will trigger if roll is low enough
    world
        .characters
        .insert(default_test_character("Traitor", 10));
    let table = test_loyalty_table();

    // First check at tick 1 — roll 0.9 > 0.8 → no betrayal, but last_check updated
    let events = BetrayalSystem::advance(&mut state, &world, &ticks(1), &dice(&[0.9]), &table);
    assert!(events.is_empty());

    // Second check at tick 2 — within cooldown (50 ticks), should skip
    let tick2 = vec![TickEvent { tick: 2 }];
    let events = BetrayalSystem::advance(&mut state, &world, &tick2, &dice(&[0.0]), &table);
    assert!(events.is_empty());

    // Third check at tick 51 — past cooldown, should check again
    let tick51 = vec![TickEvent { tick: 51 }];
    let events = BetrayalSystem::advance(&mut state, &world, &tick51, &dice(&[0.1]), &table);
    assert_eq!(events.len(), 1);
}

#[test]
fn killed_character_does_not_betray() {
    // Killed characters stay in the world for
    // reactive story events but cannot defect.
    let mut state = BetrayalState::new();
    let mut world = GameWorld::default();
    // Disloyal enough to trigger on the first roll — but dead.
    let mut c = default_test_character("DeadTraitor", 10);
    c.mark_killed();
    world.characters.insert(c);
    let table = test_loyalty_table();
    let events = BetrayalSystem::advance(&mut state, &world, &ticks(1), &dice(&[0.0]), &table);
    assert!(events.is_empty(), "dead characters cannot defect");
}
