//! The message log, and the names that messages use.

use crate::dat::Faction;
use crate::ids::{CharacterKey, SystemKey};
use crate::missions::{MissionFaction, MissionKind};
use crate::research::TechType;
use crate::world::GameWorld;
use vstd::prelude::*;
use vstd::string::*;

verus! {

/// What a message is about.
#[derive(Debug, Clone, Copy, PartialEq, Eq, Structural)]
pub enum MessageCategory {
    Event,
    Combat,
    Mission,
    Diplomacy,
    Manufacturing,
    Ai,
}

/// One line of the log.
#[derive(Debug, PartialEq, Eq)]
pub struct GameMessage {
    pub tick: u64,
    pub text: String,
    pub category: MessageCategory,
    /// The system the message is about.
    pub system: Option<SystemKey>,
}

/// What a message says.
pub struct Note {
    pub tick: u64,
    pub text: Seq<char>,
    pub category: MessageCategory,
    pub system: Option<SystemKey>,
}

impl View for GameMessage {
    type V = Note;

    open spec fn view(&self) -> Note {
        Note {
            tick: self.tick,
            text: self.text@,
            category: self.category,
            system: self.system,
        }
    }
}

/// The log, oldest message first.
#[derive(Debug)]
pub struct MessageLog {
    pub messages: Vec<GameMessage>,
}

impl View for MessageLog {
    type V = Seq<Note>;

    open spec fn view(&self) -> Seq<Note> {
        Seq::new(self.messages@.len(), |i: int| self.messages@[i]@)
    }
}

/// A message about no system.
pub open spec fn note(tick: u64, text: Seq<char>, category: MessageCategory) -> Note {
    Note { tick, text, category, system: None }
}

/// A message about a system.
pub open spec fn note_at(
    tick: u64,
    text: Seq<char>,
    category: MessageCategory,
    system: SystemKey,
) -> Note {
    Note { tick, text, category, system: Some(system) }
}

impl MessageLog {
    /// An empty log.
    pub fn new() -> (log: Self)
        ensures
            log@ == Seq::<Note>::empty(),
    {
        let log: MessageLog = MessageLog { messages: Vec::new() };
        assert(log@ =~= Seq::<Note>::empty());
        log
    }

    /// Adds a message about no system.
    pub fn say(&mut self, tick: u64, text: String, category: MessageCategory)
        ensures
            final(self)@ == old(self)@.push(note(tick, text@, category)),
    {
        self.messages.push(GameMessage { tick, text, category, system: None });
        assert(self@ =~= old(self)@.push(note(tick, text@, category)));
    }

    /// Adds a message about a system.
    pub fn say_at(&mut self, tick: u64, text: String, category: MessageCategory, system: SystemKey)
        ensures
            final(self)@ == old(self)@.push(note_at(tick, text@, category, system)),
    {
        self.messages.push(GameMessage { tick, text, category, system: Some(system) });
        assert(self@ =~= old(self)@.push(note_at(tick, text@, category, system)));
    }
}

// ---- Names -----------------------------------------------------------------

/// A system's name, or a stand-in.
pub open spec fn system_name(world: GameWorld, key: SystemKey, otherwise: Seq<char>) -> Seq<char> {
    if world.systems.has(key) {
        world.systems.at(key).name@
    } else {
        otherwise
    }
}

/// A character's name, or a stand-in.
pub open spec fn character_name(world: GameWorld, key: CharacterKey, otherwise: Seq<char>) -> Seq<
    char,
> {
    if world.characters.has(key) {
        world.characters.at(key).name@
    } else {
        otherwise
    }
}

/// A system's name, or a stand-in.
pub(crate) fn name_system<'a>(world: &'a GameWorld, key: SystemKey, otherwise: &'static str) -> (name:
    &'a str)
    ensures
        name@ == system_name(*world, key, otherwise@),
{
    match world.systems.get(key) {
        Some(sys) => sys.name.as_str(),
        None => otherwise,
    }
}

/// A character's name, or a stand-in.
pub(crate) fn name_character<'a>(
    world: &'a GameWorld,
    key: CharacterKey,
    otherwise: &'static str,
) -> (name: &'a str)
    ensures
        name@ == character_name(*world, key, otherwise@),
{
    match world.characters.get(key) {
        Some(c) => c.name.as_str(),
        None => otherwise,
    }
}

/// The name of a mission kind, as shown to the player.
pub open spec fn kind_title(kind: MissionKind) -> Seq<char> {
    match kind {
        MissionKind::Diplomacy => "Diplomacy"@,
        MissionKind::Recruitment => "Recruitment"@,
        MissionKind::Sabotage => "Sabotage"@,
        MissionKind::Assassination => "Assassination"@,
        MissionKind::Espionage => "Espionage"@,
        MissionKind::Rescue => "Rescue"@,
        MissionKind::Abduction => "Abduction"@,
        MissionKind::InciteUprising => "Incite Uprising"@,
        MissionKind::SubdueUprising => "Subdue Uprising"@,
        MissionKind::DeathStarSabotage => "Death Star Sabotage"@,
        MissionKind::Autoscrap => "Autoscrap"@,
    }
}

/// The name of a mission kind, as one word.
pub open spec fn kind_word(kind: MissionKind) -> Seq<char> {
    match kind {
        MissionKind::InciteUprising => "InciteUprising"@,
        MissionKind::SubdueUprising => "SubdueUprising"@,
        MissionKind::DeathStarSabotage => "DeathStarSabotage"@,
        _ => kind_title(kind),
    }
}

/// The name of a mission faction.
pub open spec fn side_title(faction: MissionFaction) -> Seq<char> {
    match faction {
        MissionFaction::Alliance => "Alliance"@,
        MissionFaction::Empire => "Empire"@,
    }
}

/// The name of a side.
pub open spec fn side_word(is_alliance: bool) -> Seq<char> {
    if is_alliance {
        "Alliance"@
    } else {
        "Empire"@
    }
}

/// The name of a faction.
pub open spec fn faction_word(faction: Faction) -> Seq<char> {
    match faction {
        Faction::Alliance => "Alliance"@,
        Faction::Empire => "Empire"@,
        Faction::Neutral => "Neutral"@,
    }
}

/// The name of a technology tree.
pub open spec fn tree_word(tech: TechType) -> Seq<char> {
    match tech {
        TechType::Ship => "Ship"@,
        TechType::Troop => "Troop"@,
        TechType::Facility => "Facility"@,
    }
}

/// The name of a mission kind, as shown to the player.
pub(crate) fn title_kind(kind: MissionKind) -> (name: &'static str)
    ensures
        name@ == kind_title(kind),
{
    match kind {
        MissionKind::Diplomacy => "Diplomacy",
        MissionKind::Recruitment => "Recruitment",
        MissionKind::Sabotage => "Sabotage",
        MissionKind::Assassination => "Assassination",
        MissionKind::Espionage => "Espionage",
        MissionKind::Rescue => "Rescue",
        MissionKind::Abduction => "Abduction",
        MissionKind::InciteUprising => "Incite Uprising",
        MissionKind::SubdueUprising => "Subdue Uprising",
        MissionKind::DeathStarSabotage => "Death Star Sabotage",
        MissionKind::Autoscrap => "Autoscrap",
    }
}

/// The name of a mission kind, as one word.
pub(crate) fn word_kind(kind: MissionKind) -> (name: &'static str)
    ensures
        name@ == kind_word(kind),
{
    match kind {
        MissionKind::InciteUprising => "InciteUprising",
        MissionKind::SubdueUprising => "SubdueUprising",
        MissionKind::DeathStarSabotage => "DeathStarSabotage",
        _ => title_kind(kind),
    }
}

/// The name of a mission faction.
pub(crate) fn title_side(faction: MissionFaction) -> (name: &'static str)
    ensures
        name@ == side_title(faction),
{
    match faction {
        MissionFaction::Alliance => "Alliance",
        MissionFaction::Empire => "Empire",
    }
}

/// The name of a side.
pub(crate) fn word_side(is_alliance: bool) -> (name: &'static str)
    ensures
        name@ == side_word(is_alliance),
{
    if is_alliance {
        "Alliance"
    } else {
        "Empire"
    }
}

/// The name of a faction.
pub(crate) fn word_faction(faction: Faction) -> (name: &'static str)
    ensures
        name@ == faction_word(faction),
{
    match faction {
        Faction::Alliance => "Alliance",
        Faction::Empire => "Empire",
        Faction::Neutral => "Neutral",
    }
}

/// The name of a technology tree.
pub(crate) fn word_tree(tech: TechType) -> (name: &'static str)
    ensures
        name@ == tree_word(tech),
{
    match tech {
        TechType::Ship => "Ship",
        TechType::Troop => "Troop",
        TechType::Facility => "Facility",
    }
}

/// Sounds.
#[derive(Debug, Clone, Copy, PartialEq, Eq, Structural)]
pub enum SfxKind {
    MissionSuccess,
    MissionFail,
    FleetDeparture,
    FleetArrival,
    BuildComplete,
    CombatStart,
}

/// Spoken lines.
#[derive(Debug, Clone, Copy, PartialEq, Eq, Structural)]
pub enum VoiceLine {
    AllianceMissionSuccess,
    AllianceMissionFail,
    EmpireMissionSuccess,
    EmpireMissionFail,
    AllianceFleetDeparts,
    EmpireFleetDeparts,
}

/// The spoken line for a departing fleet.
pub fn departure_voice(is_alliance: bool) -> (voice: VoiceLine)
    ensures
        voice == if is_alliance {
            VoiceLine::AllianceFleetDeparts
        } else {
            VoiceLine::EmpireFleetDeparts
        },
{
    if is_alliance {
        VoiceLine::AllianceFleetDeparts
    } else {
        VoiceLine::EmpireFleetDeparts
    }
}

} // verus!
