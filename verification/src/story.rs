//! The turns of the story, and how a campaign begins.

use crate::ai::AiFaction;
use crate::messages::VoiceLine;
use crate::missions::MissionFaction;
use crate::text::join5;
use vstd::prelude::*;
use vstd::string::*;

verus! {

/// The numbers of the turns of the story that other parts of the game name.
#[derive(Debug, Clone, Copy, PartialEq, Eq, Structural)]
pub struct StoryIds {
    pub character_force: u32,
    pub force_training: u32,
    pub luke_dagobah: u32,
    pub dagobah_completed: u32,
    pub final_battle: u32,
    pub bounty_attack: u32,
}

/// The title of the screen for a turn of the story, and what it tells.
pub open spec fn screen_of(event_id: u32, ids: StoryIds) -> Option<(Seq<char>, Seq<char>)> {
    if event_id == ids.character_force {
        Some(
            (
                "The Force Awakens"@,
                "A disturbance in the Force... Luke Skywalker's potential has been noticed."@,
            ),
        )
    } else if event_id == ids.force_training {
        Some(
            (
                "Jedi Training Begins"@,
                "Luke Skywalker begins his path in the ways of the Force."@,
            ),
        )
    } else if event_id == ids.luke_dagobah {
        Some(
            (
                "The Path to Dagobah"@,
                "Luke has departed for the Dagobah system to seek out Yoda."@,
            ),
        )
    } else if event_id == ids.dagobah_completed {
        Some(
            (
                "Training Complete"@,
                "Luke Skywalker has completed his Jedi training on Dagobah."@,
            ),
        )
    } else if event_id == ids.final_battle {
        Some(
            (
                "The Final Battle"@,
                "The Emperor has mobilized the full might of the Empire. The fate of the galaxy will be decided now."@,
            ),
        )
    } else if event_id == ids.bounty_attack {
        Some(
            (
                "A Trap is Sprung"@,
                "Bounty hunters strike! Han Solo has been captured and frozen in carbonite."@,
            ),
        )
    } else {
        late_screen(event_id)
    }
}

/// The screens of the later turns.
pub open spec fn late_screen(event_id: u32) -> Option<(Seq<char>, Seq<char>)> {
    if event_id == 0x380 {
        Some(
            (
                "Jabba's Demand"@,
                "Jabba the Hutt demands the return of Solo. A debt must be paid."@,
            ),
        )
    } else if event_id == 0x381 {
        Some(
            (
                "The Rescue Plan"@,
                "Princess Leia has devised a plan to rescue Han Solo from Jabba's palace."@,
            ),
        )
    } else if event_id == 0x382 {
        Some(
            (
                "Into Jabba's Palace"@,
                "Alliance agents infiltrate Jabba's fortress. The rescue is underway."@,
            ),
        )
    } else if event_id == 0x383 {
        Some(("Jabba Defeated"@, "Jabba the Hutt is dead. Han Solo is free."@))
    } else if event_id == 0x390 {
        Some(("The Empire Strikes"@, "Darth Vader has launched a devastating offensive."@))
    } else if event_id == 0x391 {
        Some(("Vader's Ultimatum"@, "Darth Vader delivers an ultimatum to Alliance command."@))
    } else if event_id == 0x393 {
        Some(
            ("The Emperor Watches"@, "The Emperor himself turns his attention to the conflict."@),
        )
    } else if event_id == 0x394 {
        Some(("Imperial Intervention"@, "The Emperor has intervened directly in the war."@))
    } else if event_id == 0x397 {
        Some(("Hunters Dispatched"@, "Bounty hunters have been unleashed across the galaxy."@))
    } else if event_id == 0x398 {
        Some(("Closing In"@, "The bounty hunters are closing in on their quarry."@))
    } else if event_id == 0x399 {
        Some(
            (
                "Alliance Mobilizes"@,
                "Mon Mothma has ordered a full mobilization of Alliance forces."@,
            ),
        )
    } else if event_id == 0x39A {
        Some(
            ("The Final Stand"@, "The Alliance makes its final stand against the Empire."@),
        )
    } else {
        None
    }
}

/// What a screen shows.
pub open spec fn shown(screen: Option<(&'static str, &'static str)>) -> Option<
    (Seq<char>, Seq<char>),
> {
    match screen {
        Some((title, tale)) => Some((title@, tale@)),
        None => None,
    }
}

/// The title of the screen for a turn of the story, and what it tells.
pub fn story_screen(event_id: u32, ids: &StoryIds) -> (screen: Option<(&'static str, &'static str)>)
    ensures
        shown(screen) == screen_of(event_id, *ids),
{
    if event_id == ids.character_force {
        return Some(
            (
                "The Force Awakens",
                "A disturbance in the Force... Luke Skywalker's potential has been noticed.",
            ),
        );
    }
    if event_id == ids.force_training {
        return Some(
            (
                "Jedi Training Begins",
                "Luke Skywalker begins his path in the ways of the Force.",
            ),
        );
    }
    if event_id == ids.luke_dagobah {
        return Some(
            (
                "The Path to Dagobah",
                "Luke has departed for the Dagobah system to seek out Yoda.",
            ),
        );
    }
    if event_id == ids.dagobah_completed {
        return Some(
            (
                "Training Complete",
                "Luke Skywalker has completed his Jedi training on Dagobah.",
            ),
        );
    }
    if event_id == ids.final_battle {
        return Some(
            (
                "The Final Battle",
                "The Emperor has mobilized the full might of the Empire. The fate of the galaxy will be decided now.",
            ),
        );
    }
    if event_id == ids.bounty_attack {
        return Some(
            (
                "A Trap is Sprung",
                "Bounty hunters strike! Han Solo has been captured and frozen in carbonite.",
            ),
        );
    }
    match event_id {
        0x380 => Some(
            (
                "Jabba's Demand",
                "Jabba the Hutt demands the return of Solo. A debt must be paid.",
            ),
        ),
        0x381 => Some(
            (
                "The Rescue Plan",
                "Princess Leia has devised a plan to rescue Han Solo from Jabba's palace.",
            ),
        ),
        0x382 => Some(
            (
                "Into Jabba's Palace",
                "Alliance agents infiltrate Jabba's fortress. The rescue is underway.",
            ),
        ),
        0x383 => Some(("Jabba Defeated", "Jabba the Hutt is dead. Han Solo is free.")),
        0x390 => Some(
            ("The Empire Strikes", "Darth Vader has launched a devastating offensive."),
        ),
        0x391 => Some(
            ("Vader's Ultimatum", "Darth Vader delivers an ultimatum to Alliance command."),
        ),
        0x393 => Some(
            ("The Emperor Watches", "The Emperor himself turns his attention to the conflict."),
        ),
        0x394 => Some(
            ("Imperial Intervention", "The Emperor has intervened directly in the war."),
        ),
        0x397 => Some(
            ("Hunters Dispatched", "Bounty hunters have been unleashed across the galaxy."),
        ),
        0x398 => Some(("Closing In", "The bounty hunters are closing in on their quarry.")),
        0x399 => Some(
            (
                "Alliance Mobilizes",
                "Mon Mothma has ordered a full mobilization of Alliance forces.",
            ),
        ),
        0x39A => Some(
            ("The Final Stand", "The Alliance makes its final stand against the Empire."),
        ),
        _ => None,
    }
}

/// The first turn of a day, from position `from` on, that has a screen.
pub open spec fn first_screen(events: Seq<u32>, ids: StoryIds, from: nat) -> Option<nat>
    decreases events.len() - from,
{
    if from >= events.len() {
        None
    } else if screen_of(events[from as int], ids) is Some {
        Some(from)
    } else {
        first_screen(events, ids, from + 1)
    }
}

/// The one turn of a day that is shown on a screen, if no screen is up
/// already: its position, its title and its tale.
pub fn day_screen(events: &Vec<u32>, ids: &StoryIds, screen_is_up: bool) -> (found: Option<
    (usize, &'static str, &'static str),
>)
    ensures
        screen_is_up ==> found is None,
        !screen_is_up ==> match (found, first_screen(events@, *ids, 0)) {
            (Some((at, title, tale)), Some(k)) => {
                &&& at == k
                &&& screen_of(events@[k as int], *ids) == Some((title@, tale@))
            },
            (None, None) => true,
            _ => false,
        },
{
    if screen_is_up {
        return None;
    }
    for i in 0..events.len()
        invariant
            !screen_is_up,
            first_screen(events@, *ids, 0) == first_screen(events@, *ids, i as nat),
    {
        if let Some((title, tale)) = story_screen(events[i], ids) {
            return Some((i, title, tale));
        }
    }
    None
}

// ---- A new campaign --------------------------------------------------------

/// The name of the side that the player commands.
pub open spec fn command_words(player: MissionFaction) -> Seq<char> {
    match player {
        MissionFaction::Alliance => "Rebel Alliance"@,
        MissionFaction::Empire => "Galactic Empire"@,
    }
}

/// The name of the side that the player commands.
pub fn command_name(player: MissionFaction) -> (name: &'static str)
    ensures
        name@ == command_words(player),
{
    match player {
        MissionFaction::Alliance => "Rebel Alliance",
        MissionFaction::Empire => "Galactic Empire",
    }
}

/// The first line of a campaign.
pub fn opening_text(player: MissionFaction, summary: &str) -> (text: String)
    ensures
        text@ == "You command the "@ + command_words(player) + " — "@ + summary@ + "."@,
{
    join5("You command the ", command_name(player), " — ", summary, ".")
}

/// The side that the computer plays against the player.
pub fn opponent_of(player: MissionFaction) -> (faction: AiFaction)
    ensures
        faction == match player {
            MissionFaction::Empire => AiFaction::Alliance,
            MissionFaction::Alliance => AiFaction::Empire,
        },
{
    match player {
        MissionFaction::Empire => AiFaction::Alliance,
        MissionFaction::Alliance => AiFaction::Empire,
    }
}

/// The first words that the player hears.
pub fn greeting_voice(player: MissionFaction) -> (voice: VoiceLine)
    ensures
        voice == match player {
            MissionFaction::Alliance => VoiceLine::AllianceMissionSuccess,
            MissionFaction::Empire => VoiceLine::EmpireMissionSuccess,
        },
{
    match player {
        MissionFaction::Alliance => VoiceLine::AllianceMissionSuccess,
        MissionFaction::Empire => VoiceLine::EmpireMissionSuccess,
    }
}

/// The seed of the dice of the program's `generation`th campaign.
pub fn campaign_seed(program_seed: u64, generation: u32) -> (seed: u64)
    ensures
        seed == (program_seed + generation) % 0x1_0000_0000_0000_0000,
{
    program_seed.wrapping_add(generation as u64)
}

/// Campaigns of one program never share a seed.
pub proof fn law_seeds_differ(program_seed: u64, a: u32, b: u32)
    requires
        (program_seed + a) % 0x1_0000_0000_0000_0000 == (program_seed + b)
            % 0x1_0000_0000_0000_0000,
    ensures
        a == b,
{
}

/// The turn shown has a screen, and none before it has; one is found as long
/// as any turn has a screen.
pub proof fn law_the_first_screen_is_shown(events: Seq<u32>, ids: StoryIds, from: nat, i: int)
    requires
        from <= i < events.len(),
    ensures
        ({
            let found = first_screen(events, ids, from);
            &&& screen_of(events[i], ids) is Some ==> found is Some && found->0 <= i
            &&& found is Some ==> from <= found->0 < events.len() && screen_of(
                events[found->0 as int],
                ids,
            ) is Some
        }),
    decreases events.len() - from,
{
    if from + 1 < events.len() {
        let next = if i == from {
            i + 1
        } else {
            i
        };
        law_the_first_screen_is_shown(events, ids, from + 1, next);
    } else {
        assert(first_screen(events, ids, from + 1) is None);
    }
}

} // verus!
