//! Tests of screens, story and saved games.

use open_rebellion::ai::AiFaction;
use open_rebellion::campaign::GameSpeed;
use open_rebellion::dat::Faction;
use open_rebellion::messages::VoiceLine;
use open_rebellion::missions::MissionFaction;
use open_rebellion::screens::{
    after_cutscene, deleted_text, ending, escape_from, loaded_text, next_story_cutscene,
    player_won_victory, save_time, saved_text, story_cutscene_path, story_event_to_cutscene,
    toggle_pause, victory_text, CutsceneKind, Escape, GameMode, LeftPanel, LeftPanels,
    VictoryOutcome,
};
use open_rebellion::story::{
    campaign_seed, day_screen, greeting_voice, opening_text, opponent_of, story_screen, StoryIds,
};

const IDS: StoryIds = StoryIds {
    character_force: 0x201,
    force_training: 0x202,
    luke_dagobah: 0x221,
    dagobah_completed: 0x210,
    final_battle: 0x220,
    bounty_attack: 0x212,
};

#[test]
fn story_events_have_their_films() {
    let films: Vec<Option<u32>> = [0x221, 0x210, 0x212, 0x383, 0x220, 0x393, 0x396, 0x397, 0x398]
        .iter()
        .map(|&id| story_event_to_cutscene(id))
        .collect();
    let mut expected: Vec<Option<u32>> = (101..=108).map(Some).collect();
    expected.push(None);
    assert_eq!(films, expected);
    assert_eq!(
        story_cutscene_path(101),
        "assets/references/ref-videos/101.webm"
    );
}

#[test]
fn the_first_film_of_a_day_is_shown() {
    let events = vec![0x398, 0x383, 0x380, 0x210];
    assert_eq!(next_story_cutscene(&events, 0), Some((1, 104)));
    assert_eq!(next_story_cutscene(&events, 2), Some((3, 102)));
    assert_eq!(next_story_cutscene(&events, 4), None);
    assert_eq!(next_story_cutscene(&events, 40), None);
}

#[test]
fn films_lead_back() {
    assert_eq!(after_cutscene(CutsceneKind::Intro), GameMode::MainMenu);
    assert_eq!(after_cutscene(CutsceneKind::Victory), GameMode::MainMenu);
    assert_eq!(after_cutscene(CutsceneKind::Defeat), GameMode::MainMenu);
    assert_eq!(after_cutscene(CutsceneKind::Story(104)), GameMode::Galaxy);
}

#[test]
fn escape_leaves_a_screen_or_the_program() {
    assert_eq!(escape_from(GameMode::LoadGame), Escape::LeaveLoadGame);
    assert_eq!(escape_from(GameMode::Credits), Escape::LeaveScreen);
    assert_eq!(escape_from(GameMode::MultiplayerSetup), Escape::LeaveScreen);
    assert_eq!(escape_from(GameMode::Galaxy), Escape::LeaveCampaign);
    assert_eq!(escape_from(GameMode::MainMenu), Escape::Quit);
    assert_eq!(escape_from(GameMode::TacticalCombat), Escape::Quit);
    assert_eq!(toggle_pause(GameSpeed::Paused), GameSpeed::Normal);
    assert_eq!(toggle_pause(GameSpeed::Faster), GameSpeed::Paused);
}

#[test]
fn opening_a_panel_closes_the_others() {
    let mut panels = LeftPanels::closed();
    panels.toggle(LeftPanel::Fleets);
    panels.toggle(LeftPanel::Jedi);
    assert!(panels.jedi && !panels.fleets);
    panels.set(LeftPanel::Missions, true);
    panels.toggle(LeftPanel::Jedi);
    assert!(panels.missions && !panels.jedi);
    assert!(panels.is_open(LeftPanel::Missions));
}

#[test]
fn victories_are_the_winners() {
    let captured = VictoryOutcome::HqCaptured {
        winner: Faction::Alliance,
        loser: Faction::Empire,
    };
    assert!(player_won_victory(&captured, MissionFaction::Alliance));
    assert!(!player_won_victory(&captured, MissionFaction::Empire));
    assert_eq!(
        victory_text(&captured),
        "Alliance captured Empire headquarters! Alliance wins!"
    );
    let destroyed = VictoryOutcome::HqDestroyed {
        winner: Faction::Empire,
    };
    assert!(player_won_victory(&destroyed, MissionFaction::Empire));
    assert_eq!(
        victory_text(&destroyed),
        "The Empire destroyed the Alliance headquarters and secured its system. Empire wins!"
    );
    let star = VictoryOutcome::DeathStarVictory;
    assert!(player_won_victory(&star, MissionFaction::Empire));
    assert!(!player_won_victory(&star, MissionFaction::Alliance));
    assert_eq!(
        victory_text(&star),
        "The Death Star destroyed the Alliance headquarters system. Empire wins!"
    );
    assert_eq!(
        ending(true),
        (CutsceneKind::Victory, "assets/references/ref-videos/201.webm")
    );
    assert_eq!(
        ending(false),
        (CutsceneKind::Defeat, "assets/references/ref-videos/202.webm")
    );
}

#[test]
fn saves_show_the_time_of_day() {
    assert_eq!(save_time(0), "Browser save");
    assert_eq!(save_time(1), "00:00");
    assert_eq!(save_time(9 * 3600 + 5 * 60 + 59), "09:05");
    assert_eq!(save_time(86_399), "23:59");
    assert_eq!(save_time(86_400 * 20_000 + 61), "00:01");
    assert_eq!(saved_text(0), "Saved game to slot 1");
    assert_eq!(loaded_text("Hoth", 2), "Loaded save ‘Hoth’ from slot 3");
    assert_eq!(deleted_text(9), "Deleted save in slot 10");
}

#[test]
fn one_screen_a_day() {
    assert_eq!(story_screen(0x383, &IDS).unwrap().0, "Jabba Defeated");
    assert_eq!(story_screen(0x221, &IDS).unwrap().0, "The Path to Dagobah");
    assert_eq!(
        story_screen(0x39A, &IDS).unwrap().1,
        "The Alliance makes its final stand against the Empire."
    );
    assert_eq!(story_screen(0x392, &IDS), None);
    let events = vec![0x392, 0x390, 0x391];
    assert_eq!(day_screen(&events, &IDS, false).unwrap().0, 1);
    assert_eq!(day_screen(&events, &IDS, false).unwrap().1, "The Empire Strikes");
    assert_eq!(day_screen(&events, &IDS, true), None);
}

#[test]
fn a_campaign_begins() {
    assert_eq!(
        opening_text(MissionFaction::Empire, "small galaxy"),
        "You command the Galactic Empire — small galaxy."
    );
    assert_eq!(
        opening_text(MissionFaction::Alliance, "x"),
        "You command the Rebel Alliance — x."
    );
    assert_eq!(opponent_of(MissionFaction::Alliance), AiFaction::Empire);
    assert_eq!(opponent_of(MissionFaction::Empire), AiFaction::Alliance);
    assert_eq!(
        greeting_voice(MissionFaction::Empire),
        VoiceLine::EmpireMissionSuccess
    );
    assert_eq!(campaign_seed(42, 1), 43);
    assert_eq!(campaign_seed(u64::MAX, 2), 1);
}
