//! Which screen is shown, and what leads from one to the next.

use crate::campaign::GameSpeed;
use crate::dat::Faction;
use crate::messages::{faction_word, word_faction};
use crate::missions::MissionFaction;
use crate::text::{decimal, digit_char, digit_text, join2, join3, join4, join5, number, text_from};
use vstd::prelude::*;
use vstd::string::*;

verus! {

/// The screen that is shown.
#[derive(Debug, Clone, Copy, PartialEq, Eq, Structural)]
pub enum GameMode {
    /// A full-screen film.
    Cutscene { kind: CutsceneKind },
    /// The title screen.
    MainMenu,
    /// The list of saved games, opened from the title screen.
    LoadGame,
    Credits,
    MultiplayerSetup,
    /// The choices for a new campaign.
    GameSetup,
    /// The campaign itself.
    Galaxy,
    /// A battle in orbit that the player takes part in.
    TacticalCombat,
    /// A battle on the ground that follows one in orbit.
    GroundCombat,
    /// The end of a campaign, shown over the map.
    VictoryModal { alliance_won: bool },
}

/// Which film is shown.
#[derive(Debug, Clone, Copy, PartialEq, Eq, Structural)]
pub enum CutsceneKind {
    Intro,
    Victory,
    Defeat,
    /// A turn of the story, by the number of its file.
    Story(u32),
}

/// Where the opening film is.
pub const INTRO_CUTSCENE: &'static str = "assets/references/ref-videos/000.webm";

/// Where the film of a victory is.
pub const VICTORY_CUTSCENE: &'static str = "assets/references/ref-videos/201.webm";

/// Where the film of a defeat is.
pub const DEFEAT_CUTSCENE: &'static str = "assets/references/ref-videos/202.webm";

/// The number of the film for a turn of the story, if it has one.
pub open spec fn film_of(event_id: u32) -> Option<u32> {
    if event_id == 0x221 {
        Some(101)
    } else if event_id == 0x210 {
        Some(102)
    } else if event_id == 0x212 {
        Some(103)
    } else if event_id == 0x383 {
        Some(104)
    } else if event_id == 0x220 {
        Some(105)
    } else if event_id == 0x393 {
        Some(106)
    } else if event_id == 0x396 {
        Some(107)
    } else if event_id == 0x397 {
        Some(108)
    } else {
        None
    }
}

/// The number of the film for a turn of the story, if it has one.
pub fn story_event_to_cutscene(event_id: u32) -> (film: Option<u32>)
    ensures
        film == film_of(event_id),
{
    match event_id {
        // Luke departs for Dagobah.
        0x221 => Some(101),
        // Luke completes his training.
        0x210 => Some(102),
        // Bounty hunters capture Han.
        0x212 => Some(103),
        // The rescue from the palace.
        0x383 => Some(104),
        // Luke and Vader meet for the last time.
        0x220 => Some(105),
        // Vader is sent out.
        0x393 => Some(106),
        // Father and son.
        0x396 => Some(107),
        // The Empire sends bounty hunters.
        0x397 => Some(108),
        _ => None,
    }
}

/// Different turns of the story never share a film.
pub proof fn law_films_differ(a: u32, b: u32)
    requires
        film_of(a) is Some,
        film_of(a) == film_of(b),
    ensures
        a == b,
        101 <= film_of(a)->0 <= 108,
{
}

/// Where the film of a turn of the story is.
pub fn story_cutscene_path(number_of_film: u32) -> (path: String)
    ensures
        path@ == "assets/references/ref-videos/"@ + decimal(number_of_film as nat) + ".webm"@,
{
    let digits: String = number(number_of_film as u64);
    join3("assets/references/ref-videos/", digits.as_str(), ".webm")
}

/// What comes after a film: the title screen, or the campaign that a turn of
/// the story interrupted.
pub fn after_cutscene(kind: CutsceneKind) -> (mode: GameMode)
    ensures
        mode == if kind is Story {
            GameMode::Galaxy
        } else {
            GameMode::MainMenu
        },
{
    match kind {
        CutsceneKind::Intro | CutsceneKind::Victory | CutsceneKind::Defeat => GameMode::MainMenu,
        CutsceneKind::Story(_) => GameMode::Galaxy,
    }
}

/// The first film among the turns of a day.
pub open spec fn first_film(events: Seq<u32>, from: nat) -> Option<nat>
    decreases events.len() - from,
{
    if from >= events.len() {
        None
    } else if film_of(events[from as int]) is Some {
        Some(from)
    } else {
        first_film(events, from + 1)
    }
}

/// The position of the first turn of a day, at `from` or later, that has a
/// film, and the number of the film. Where a film cannot be shown, the search
/// goes on behind it.
pub fn next_story_cutscene(events: &Vec<u32>, from: usize) -> (found: Option<(usize, u32)>)
    ensures
        match (found, first_film(events@, from as nat)) {
            (Some((at, film)), Some(k)) => at == k && film_of(events@[k as int]) == Some(film),
            (None, None) => true,
            _ => false,
        },
{
    let mut i: usize = from;
    while i < events.len()
        invariant
            from <= i,
            first_film(events@, from as nat) == first_film(events@, i as nat),
        decreases events.len() - i,
    {
        if let Some(film) = story_event_to_cutscene(events[i]) {
            return Some((i, film));
        }
        i = i + 1;
    }
    None
}

/// The line about a film that could not be shown: it was never decoded, or
/// something else went wrong.
pub fn cutscene_skipped_text(error: Option<&str>) -> (text: String)
    ensures
        text@ == match error {
            None => "cutscene skipped — run scripts/decode-cutscenes.sh to enable"@,
            Some(words) => "cutscene skipped — "@ + words@,
        },
{
    match error {
        None => text_from("cutscene skipped — run scripts/decode-cutscenes.sh to enable"),
        Some(words) => join2("cutscene skipped — ", words),
    }
}

// ---- Keys ------------------------------------------------------------------

/// What the escape key does outside of a film.
#[derive(Debug, Clone, Copy, PartialEq, Eq, Structural)]
pub enum Escape {
    /// Close the list of saved games and show the title screen.
    LeaveLoadGame,
    /// Show the title screen.
    LeaveScreen,
    /// Close every panel and show the title screen.
    LeaveCampaign,
    /// End the program.
    Quit,
}

/// What the escape key does outside of a film.
pub fn escape_from(mode: GameMode) -> (escape: Escape)
    ensures
        escape == match mode {
            GameMode::LoadGame => Escape::LeaveLoadGame,
            GameMode::Credits => Escape::LeaveScreen,
            GameMode::MultiplayerSetup => Escape::LeaveScreen,
            GameMode::Galaxy => Escape::LeaveCampaign,
            _ => Escape::Quit,
        },
{
    match mode {
        GameMode::LoadGame => Escape::LeaveLoadGame,
        GameMode::Credits | GameMode::MultiplayerSetup => Escape::LeaveScreen,
        GameMode::Galaxy => Escape::LeaveCampaign,
        _ => Escape::Quit,
    }
}

/// What the pause key does: a paused campaign runs at normal speed again, any
/// other is paused.
pub fn toggle_pause(speed: GameSpeed) -> (after: GameSpeed)
    ensures
        after == if speed == GameSpeed::Paused {
            GameSpeed::Normal
        } else {
            GameSpeed::Paused
        },
{
    if speed == GameSpeed::Paused {
        GameSpeed::Normal
    } else {
        GameSpeed::Paused
    }
}

/// The panels at the left.
#[derive(Debug, Clone, Copy, PartialEq, Eq, Structural)]
pub enum LeftPanel {
    Officers,
    Fleets,
    Manufacturing,
    Missions,
    Research,
    Jedi,
    Bombardment,
    DeathStar,
    Loyalty,
}

/// Which of the panels at the left are open.
#[derive(Debug, Clone, Copy, PartialEq, Eq, Structural)]
pub struct LeftPanels {
    pub officers: bool,
    pub fleets: bool,
    pub manufacturing: bool,
    pub missions: bool,
    pub research: bool,
    pub jedi: bool,
    pub bombardment: bool,
    pub death_star: bool,
    pub loyalty: bool,
}

impl LeftPanels {
    /// Whether a panel is open.
    pub open spec fn open_spec(self, panel: LeftPanel) -> bool {
        match panel {
            LeftPanel::Officers => self.officers,
            LeftPanel::Fleets => self.fleets,
            LeftPanel::Manufacturing => self.manufacturing,
            LeftPanel::Missions => self.missions,
            LeftPanel::Research => self.research,
            LeftPanel::Jedi => self.jedi,
            LeftPanel::Bombardment => self.bombardment,
            LeftPanel::DeathStar => self.death_star,
            LeftPanel::Loyalty => self.loyalty,
        }
    }

    /// Whether a panel is open.
    pub fn is_open(self, panel: LeftPanel) -> (open: bool)
        ensures
            open == self.open_spec(panel),
    {
        match panel {
            LeftPanel::Officers => self.officers,
            LeftPanel::Fleets => self.fleets,
            LeftPanel::Manufacturing => self.manufacturing,
            LeftPanel::Missions => self.missions,
            LeftPanel::Research => self.research,
            LeftPanel::Jedi => self.jedi,
            LeftPanel::Bombardment => self.bombardment,
            LeftPanel::DeathStar => self.death_star,
            LeftPanel::Loyalty => self.loyalty,
        }
    }

    /// Every panel closed.
    pub fn closed() -> (panels: Self)
        ensures
            forall|p: LeftPanel| !(#[trigger] panels.open_spec(p)),
    {
        LeftPanels {
            officers: false,
            fleets: false,
            manufacturing: false,
            missions: false,
            research: false,
            jedi: false,
            bombardment: false,
            death_star: false,
            loyalty: false,
        }
    }

    /// Opens or closes one panel and leaves the others as they are.
    pub fn set(&mut self, panel: LeftPanel, open: bool)
        ensures
            final(self).open_spec(panel) == open,
            forall|p: LeftPanel|
                p != panel ==> #[trigger] final(self).open_spec(p) == old(self).open_spec(p),
    {
        match panel {
            LeftPanel::Officers => {
                self.officers = open;
            },
            LeftPanel::Fleets => {
                self.fleets = open;
            },
            LeftPanel::Manufacturing => {
                self.manufacturing = open;
            },
            LeftPanel::Missions => {
                self.missions = open;
            },
            LeftPanel::Research => {
                self.research = open;
            },
            LeftPanel::Jedi => {
                self.jedi = open;
            },
            LeftPanel::Bombardment => {
                self.bombardment = open;
            },
            LeftPanel::DeathStar => {
                self.death_star = open;
            },
            LeftPanel::Loyalty => {
                self.loyalty = open;
            },
        }
    }

    /// What the key of a panel does: it closes an open panel, and opens a
    /// closed one in place of all others.
    pub fn toggle(&mut self, panel: LeftPanel)
        ensures
            old(self).open_spec(panel) ==> !final(self).open_spec(panel) && forall|p: LeftPanel|
                p != panel ==> #[trigger] final(self).open_spec(p) == old(self).open_spec(p),
            !old(self).open_spec(panel) ==> forall|p: LeftPanel| #[trigger]
                final(self).open_spec(p) == (p == panel),
    {
        if self.is_open(panel) {
            self.set(panel, false);
        } else {
            *self = LeftPanels::closed();
            self.set(panel, true);
        }
    }
}

// ---- The end of a campaign -------------------------------------------------

/// How a campaign was won.
#[derive(Debug, Clone, Copy, PartialEq, Eq, Structural)]
#[allow(inconsistent_fields)]
pub enum VictoryOutcome {
    HqCaptured { winner: Faction, loser: Faction },
    HqDestroyed { winner: Faction },
    DeathStarVictory,
}

/// Whether a faction is the player's.
pub open spec fn is_players(faction: Faction, player: MissionFaction) -> bool {
    match player {
        MissionFaction::Alliance => faction == Faction::Alliance,
        MissionFaction::Empire => faction == Faction::Empire,
    }
}

/// Whether a faction is the player's.
fn players(faction: Faction, player: MissionFaction) -> (same: bool)
    ensures
        same == is_players(faction, player),
{
    match player {
        MissionFaction::Alliance => faction == Faction::Alliance,
        MissionFaction::Empire => faction == Faction::Empire,
    }
}

/// Whether the player won.
pub open spec fn player_wins(outcome: VictoryOutcome, player: MissionFaction) -> bool {
    match outcome {
        VictoryOutcome::HqCaptured { winner, loser } => is_players(winner, player),
        VictoryOutcome::HqDestroyed { winner } => is_players(winner, player),
        VictoryOutcome::DeathStarVictory => player == MissionFaction::Empire,
    }
}

/// Whether the player won.
pub fn player_won_victory(outcome: &VictoryOutcome, player_faction: MissionFaction) -> (won: bool)
    ensures
        won == player_wins(*outcome, player_faction),
{
    match outcome {
        VictoryOutcome::HqCaptured { winner, .. } => players(*winner, player_faction),
        VictoryOutcome::HqDestroyed { winner } => players(*winner, player_faction),
        VictoryOutcome::DeathStarVictory => player_faction == MissionFaction::Empire,
    }
}

/// Only one of the two players can have won, and one of them has unless the
/// winner is neither.
pub proof fn law_one_player_wins(outcome: VictoryOutcome)
    ensures
        !(player_wins(outcome, MissionFaction::Alliance) && player_wins(
            outcome,
            MissionFaction::Empire,
        )),
        player_wins(outcome, MissionFaction::Alliance) || player_wins(
            outcome,
            MissionFaction::Empire,
        ) || outcome matches VictoryOutcome::HqCaptured { winner: Faction::Neutral, .. }
            || outcome matches VictoryOutcome::HqDestroyed { winner: Faction::Neutral },
{
}

/// How a victory is told.
pub open spec fn victory_words(outcome: VictoryOutcome) -> Seq<char> {
    match outcome {
        VictoryOutcome::HqCaptured { winner, loser } => faction_word(winner) + " captured "@
            + faction_word(loser) + " headquarters! "@ + faction_word(winner) + " wins!"@,
        VictoryOutcome::HqDestroyed { winner } =>
            "The Empire destroyed the Alliance headquarters and secured its system. Empire wins!"@,
        VictoryOutcome::DeathStarVictory =>
            "The Death Star destroyed the Alliance headquarters system. Empire wins!"@,
    }
}

/// How a victory is told.
pub fn victory_text(outcome: &VictoryOutcome) -> (text: String)
    ensures
        text@ == victory_words(*outcome),
{
    match outcome {
        VictoryOutcome::HqCaptured { winner, loser } => {
            let mut text: String = join5(
                word_faction(*winner),
                " captured ",
                word_faction(*loser),
                " headquarters! ",
                word_faction(*winner),
            );
            text.append(" wins!");
            text
        },
        VictoryOutcome::HqDestroyed { .. } => text_from(
            "The Empire destroyed the Alliance headquarters and secured its system. Empire wins!",
        ),
        VictoryOutcome::DeathStarVictory => text_from(
            "The Death Star destroyed the Alliance headquarters system. Empire wins!",
        ),
    }
}

/// The film for the end of a campaign, and where it is.
pub fn ending(player_won: bool) -> (film: (CutsceneKind, &'static str))
    ensures
        film.0 == if player_won {
            CutsceneKind::Victory
        } else {
            CutsceneKind::Defeat
        },
        film.1@ == if player_won {
            VICTORY_CUTSCENE@
        } else {
            DEFEAT_CUTSCENE@
        },
{
    if player_won {
        (CutsceneKind::Victory, VICTORY_CUTSCENE)
    } else {
        (CutsceneKind::Defeat, DEFEAT_CUTSCENE)
    }
}

// ---- Saved games -----------------------------------------------------------

/// A number below a hundred in two digits.
pub open spec fn two_digits(n: int) -> Seq<char> {
    seq![digit_char(n / 10), digit_char(n % 10)]
}

/// When a game was saved, as the list shows it: the time of day, or where the
/// game came from if no time is known.
pub open spec fn saved_at(seconds: u64) -> Seq<char> {
    if seconds == 0 {
        "Browser save"@
    } else {
        two_digits(seconds as int / 3600 % 24) + ":"@ + two_digits(seconds as int / 60 % 60)
    }
}

/// Writes a number below a hundred in two digits.
fn write_two_digits(text: &mut String, n: u64)
    requires
        n < 100,
    ensures
        final(text)@ == old(text)@ + two_digits(n as int),
{
    let tens: &'static str = digit_text(n / 10);
    let ones: &'static str = digit_text(n % 10);
    text.append(tens);
    text.append(ones);
    assert(text@ =~= old(text)@ + two_digits(n as int));
}

/// When a game was saved, as the list shows it.
pub fn save_time(seconds: u64) -> (text: String)
    ensures
        text@ == saved_at(seconds),
{
    if seconds == 0 {
        return text_from("Browser save");
    }
    let mut text: String = text_from("");
    proof {
        reveal_strlit("");
    }
    write_two_digits(&mut text, (seconds / 3600) % 24);
    text.append(":");
    write_two_digits(&mut text, (seconds / 60) % 60);
    assert(text@ =~= saved_at(seconds));
    text
}

/// The time of a save repeats every day.
pub proof fn law_save_time_is_daily(seconds: u64)
    requires
        0 < seconds,
        seconds + 86400 <= u64::MAX,
    ensures
        saved_at((seconds + 86400) as u64) == saved_at(seconds),
{
    let s = seconds as int;
    let h = s / 3600;
    let m = s / 60;
    assert((s + 86400) / 3600 == h + 24);
    assert((s + 86400) / 60 == m + 1440);
    assert((h + 24) % 24 == h % 24);
    assert((m + 1440) % 60 == m % 60);
}

/// The side of the player, as a saved game keeps it.
pub open spec fn kept_side(player: MissionFaction) -> bool {
    player == MissionFaction::Alliance
}

/// The side of the player, as a saved game keeps it.
pub fn keep_side(player: MissionFaction) -> (is_alliance: bool)
    ensures
        is_alliance == kept_side(player),
{
    player == MissionFaction::Alliance
}

/// The side that a saved game was played on.
pub open spec fn restored_side(is_alliance: bool) -> MissionFaction {
    if is_alliance {
        MissionFaction::Alliance
    } else {
        MissionFaction::Empire
    }
}

/// The side that a saved game was played on.
pub fn restore_side(is_alliance: bool) -> (player: MissionFaction)
    ensures
        player == restored_side(is_alliance),
{
    if is_alliance {
        MissionFaction::Alliance
    } else {
        MissionFaction::Empire
    }
}

/// A loaded game is played on the side on which it was saved.
pub proof fn law_sides_are_restored(player: MissionFaction, is_alliance: bool)
    ensures
        restored_side(kept_side(player)) == player,
        kept_side(restored_side(is_alliance)) == is_alliance,
{
}

/// The line about a saved game; the player counts slots from one.
pub fn saved_text(slot: u32) -> (text: String)
    requires
        slot < u32::MAX,
    ensures
        text@ == "Saved game to slot "@ + decimal((slot + 1) as nat),
{
    let shown: String = number((slot + 1) as u64);
    join2("Saved game to slot ", shown.as_str())
}

/// The line about a game that was loaded.
pub fn loaded_text(name: &str, slot: u32) -> (text: String)
    requires
        slot < u32::MAX,
    ensures
        text@ == "Loaded save ‘"@ + name@ + "’ from slot "@ + decimal((slot + 1) as nat),
{
    let shown: String = number((slot + 1) as u64);
    join4("Loaded save ‘", name, "’ from slot ", shown.as_str())
}

/// The line about a saved game that was deleted.
pub fn deleted_text(slot: u32) -> (text: String)
    requires
        slot < u32::MAX,
    ensures
        text@ == "Deleted save in slot "@ + decimal((slot + 1) as nat),
{
    let shown: String = number((slot + 1) as u64);
    join2("Deleted save in slot ", shown.as_str())
}

/// Whole hours and the minutes past them make up the whole minutes of a day.
proof fn lemma_minutes_of_day(day: int)
    requires
        0 <= day < 86400,
    ensures
        0 <= day / 3600 < 24,
        60 * (60 * (day / 3600) + day / 60 % 60) <= day,
        day < 60 * (60 * (day / 3600) + day / 60 % 60) + 60,
{
}

/// Days leave no trace in the hours and minutes of a time.
proof fn lemma_day_leaves_no_trace(s: int)
    requires
        0 <= s,
    ensures
        s / 3600 % 24 == s % 86400 / 3600,
        s / 60 % 60 == s % 86400 / 60 % 60,
{
    let days = s / 86400;
    let day = s % 86400;
    assert(s == 86400 * days + day);
    assert(s / 3600 == 24 * days + day / 3600);
    assert(s / 60 == 1440 * days + day / 60);
}

/// A time of day is shown in hours and minutes of two digits each, and they
/// fall short of the seconds of that day by less than a minute.
pub proof fn law_save_time_tells_the_minute(seconds: u64, hour: int, minute: int)
    requires
        seconds > 0,
        saved_at(seconds).len() == 5 ==> {
            let shown = saved_at(seconds);
            &&& hour == 10 * (shown[0] as int - '0' as int) + (shown[1] as int - '0' as int)
            &&& minute == 10 * (shown[3] as int - '0' as int) + (shown[4] as int - '0' as int)
        },
    ensures
        saved_at(seconds).len() == 5,
        saved_at(seconds)[2] == ':',
        0 <= hour < 24,
        0 <= minute < 60,
        60 * (60 * hour + minute) <= seconds as int % 86400 < 60 * (60 * hour + minute) + 60,
{
    reveal_strlit(":");
    let s = seconds as int;
    let h = s / 3600 % 24;
    let m = s / 60 % 60;
    let shown = saved_at(seconds);
    assert(shown =~= seq![
        digit_char(h / 10),
        digit_char(h % 10),
        ':',
        digit_char(m / 10),
        digit_char(m % 10),
    ]);
    lemma_day_leaves_no_trace(s);
    lemma_minutes_of_day(s % 86400);
    assert(hour == h && minute == m);
}

/// The turn whose film is shown has one, and none before it has; one is found
/// as long as any turn has a film.
pub proof fn law_the_first_film_is_shown(events: Seq<u32>, from: nat, i: int)
    requires
        from <= i < events.len(),
    ensures
        ({
            let found = first_film(events, from);
            &&& film_of(events[i]) is Some ==> found is Some && found->0 <= i
            &&& found is Some ==> from <= found->0 < events.len() && film_of(
                events[found->0 as int],
            ) is Some
        }),
    decreases events.len() - from,
{
    if from + 1 < events.len() {
        let next = if i == from {
            i + 1
        } else {
            i
        };
        law_the_first_film_is_shown(events, from + 1, next);
    } else {
        assert(first_film(events, from + 1) is None);
    }
}

} // verus!
