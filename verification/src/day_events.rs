//! What the events of a day do to the world, and how they are told.

use crate::arena::{occupied, without};
use crate::betrayal::BetrayalEvent;
use crate::dat::Faction;
use crate::death_star::DeathStarEvent;
use crate::ids::{CharacterKey, FleetKey, SystemKey, TroopKey};
use crate::messages::{
    character_name, name_character, name_system, note, note_at, side_word, system_name, tree_word,
    word_side, word_tree, MessageCategory, MessageLog, Note,
};
use crate::mission_effects::{
    character_set, free, freed, set_support, strike_off, struck_off, system_set,
};
use crate::missions::MissionFaction;
use crate::research::TechType;
use crate::select::collect;
use crate::text::{contains_text, decimal, join2, join3, join4, join5, mentions, number};
use crate::world::{Character, ControlKind, Fleet, ForceTier, GameWorld, ShipInstance, System};
use vstd::prelude::*;
use vstd::string::*;

verus! {

/// Tells that something happened at a system.
fn report_at(
    world: &GameWorld,
    before: &str,
    system: SystemKey,
    after: &str,
    category: MessageCategory,
    tick: u64,
    log: &mut MessageLog,
)
    ensures
        final(log)@ == old(log)@.push(
            place_note(*world, before@, system, after@, category, tick),
        ),
{
    let text: String = join3(before, name_system(world, system, "unknown"), after);
    log.say_at(tick, text, category, system);
}

/// The message that something happened at a system.
pub open spec fn place_note(
    world: GameWorld,
    before: Seq<char>,
    system: SystemKey,
    after: Seq<char>,
    category: MessageCategory,
    tick: u64,
) -> Note {
    note_at(tick, before + system_name(world, system, "unknown"@) + after, category, system)
}

// ---- Economy ---------------------------------------------------------------

/// What the economy brought. Drifts of support carry what they leave behind.
#[derive(Debug, Clone, Copy, PartialEq, Eq, Structural)]
#[allow(inconsistent_fields)]
pub enum EconomyEvent {
    SupportDrifted { system: SystemKey, alliance_support: u32, empire_support: u32 },
    ControlResolved { system: SystemKey, new_control: ControlKind },
    NaturalDisaster { system: SystemKey },
    ResourceDiscovered { system: SystemKey, new_output: u32 },
    MaintenanceShortfall { faction_is_alliance: bool, deficit_system_count: u32 },
}

/// The systems after an economic event.
pub open spec fn economy_systems(slots: Seq<Option<System>>, event: EconomyEvent) -> Seq<
    Option<System>,
> {
    match event {
        EconomyEvent::SupportDrifted { system, alliance_support, empire_support } => system_set(
            slots,
            system,
            System {
                popularity_alliance: alliance_support,
                popularity_empire: empire_support,
                ..slots[system.slot as int]->0
            },
        ),
        EconomyEvent::ControlResolved { system, new_control } => system_set(
            slots,
            system,
            System { control: new_control, ..slots[system.slot as int]->0 },
        ),
        _ => slots,
    }
}

/// What an economic event adds to the log.
pub open spec fn economy_notes(world: GameWorld, event: EconomyEvent, tick: u64) -> Seq<Note> {
    match event {
        EconomyEvent::NaturalDisaster { system } => seq![
            place_note(
                world,
                "Natural disaster strikes "@,
                system,
                ""@,
                MessageCategory::Event,
                tick,
            ),
        ],
        EconomyEvent::ResourceDiscovered { system, new_output } => seq![
            place_note(
                world,
                "New resources discovered at "@,
                system,
                " ("@ + decimal(new_output as nat) + " units)"@,
                MessageCategory::Event,
                tick,
            ),
        ],
        EconomyEvent::MaintenanceShortfall { faction_is_alliance, deficit_system_count } => seq![
            note(
                tick,
                side_word(faction_is_alliance) + " reports maintenance shortfall across "@
                    + decimal(deficit_system_count as nat) + " systems"@,
                MessageCategory::Event,
            ),
        ],
        _ => Seq::empty(),
    }
}

/// Applies an economic event.
pub fn apply_economy_event(
    event: &EconomyEvent,
    world: &mut GameWorld,
    tick: u64,
    log: &mut MessageLog,
)
    ensures
        *final(world) == (GameWorld { systems: final(world).systems, ..*old(world) }),
        final(world).systems@ == economy_systems(old(world).systems@, *event),
        final(log)@ == old(log)@ + economy_notes(*old(world), *event, tick),
{
    let ghost said = log@;
    assert(said + Seq::<Note>::empty() =~= said);
    match *event {
        EconomyEvent::SupportDrifted { system, alliance_support, empire_support } => {
            set_support(world, system, alliance_support, empire_support);
        },
        EconomyEvent::ControlResolved { system, new_control } => {
            if let Some(sys) = world.systems.get_mut(system) {
                sys.control = new_control;
            }
        },
        EconomyEvent::NaturalDisaster { system } => {
            report_at(
                world,
                "Natural disaster strikes ",
                system,
                "",
                MessageCategory::Event,
                tick,
                log,
            );
            assert(log@ =~= said + economy_notes(*world, *event, tick));
        },
        EconomyEvent::ResourceDiscovered { system, new_output } => {
            let amount: String = number(new_output as u64);
            let tail: String = join3(" (", amount.as_str(), " units)");
            report_at(
                world,
                "New resources discovered at ",
                system,
                tail.as_str(),
                MessageCategory::Event,
                tick,
                log,
            );
            assert(log@ =~= said + economy_notes(*world, *event, tick));
        },
        EconomyEvent::MaintenanceShortfall { faction_is_alliance, deficit_system_count } => {
            let count: String = number(deficit_system_count as u64);
            let text: String = join4(
                word_side(faction_is_alliance),
                " reports maintenance shortfall across ",
                count.as_str(),
                " systems",
            );
            log.say(tick, text, MessageCategory::Event);
            assert(log@ =~= said + economy_notes(*world, *event, tick));
        },
    }
}

// ---- News from systems -----------------------------------------------------

/// News from a system that change nothing there.
#[derive(Debug, Clone, Copy, PartialEq, Eq, Structural)]
pub enum SystemNews {
    ConstructionComplete,
    ManufacturingIdle,
    FleetArrived,
    Revealed,
    AllianceForceLanded,
    ImperialForceLanded,
    BlockadeStarted,
    BlockadeEnded,
    UprisingIncident,
    UprisingSubdued,
    DeathStarCompleted,
    DeathStarNear,
}

/// How news are told: what comes before the name of the system, what comes
/// after it, and what they are about.
pub open spec fn news_words(news: SystemNews) -> (Seq<char>, Seq<char>, MessageCategory) {
    match news {
        SystemNews::ConstructionComplete => (
            "Construction complete at "@,
            ""@,
            MessageCategory::Manufacturing,
        ),
        SystemNews::ManufacturingIdle => (
            "Manufacturing queue idle at "@,
            ""@,
            MessageCategory::Manufacturing,
        ),
        SystemNews::FleetArrived => ("Fleet arrived at "@, ""@, MessageCategory::Mission),
        SystemNews::Revealed => ("System "@, " revealed"@, MessageCategory::Event),
        SystemNews::AllianceForceLanded => (
            "Alliance special force lands at "@,
            ""@,
            MessageCategory::Event,
        ),
        SystemNews::ImperialForceLanded => (
            "Imperial special force lands at "@,
            ""@,
            MessageCategory::Event,
        ),
        SystemNews::BlockadeStarted => ("Blockade established at "@, ""@, MessageCategory::Combat),
        SystemNews::BlockadeEnded => ("Blockade lifted at "@, ""@, MessageCategory::Combat),
        SystemNews::UprisingIncident => (
            "Uprising incident at "@,
            ""@,
            MessageCategory::Diplomacy,
        ),
        SystemNews::UprisingSubdued => ("Uprising subdued at "@, ""@, MessageCategory::Diplomacy),
        SystemNews::DeathStarCompleted => (
            "Death Star construction complete at "@,
            ""@,
            MessageCategory::Event,
        ),
        SystemNews::DeathStarNear => ("Death Star detected near "@, "!"@, MessageCategory::Event),
    }
}

/// The message of news from a system.
pub open spec fn news_note(world: GameWorld, news: SystemNews, system: SystemKey, tick: u64) -> Note {
    let (before, after, category) = news_words(news);
    place_note(world, before, system, after, category, tick)
}

/// Tells news from a system.
pub fn report_news(
    news: SystemNews,
    system: SystemKey,
    world: &GameWorld,
    tick: u64,
    log: &mut MessageLog,
)
    ensures
        final(log)@ == old(log)@.push(news_note(*world, news, system, tick)),
{
    let (before, after, category): (&'static str, &'static str, MessageCategory) = match news {
        SystemNews::ConstructionComplete => (
            "Construction complete at ",
            "",
            MessageCategory::Manufacturing,
        ),
        SystemNews::ManufacturingIdle => (
            "Manufacturing queue idle at ",
            "",
            MessageCategory::Manufacturing,
        ),
        SystemNews::FleetArrived => ("Fleet arrived at ", "", MessageCategory::Mission),
        SystemNews::Revealed => ("System ", " revealed", MessageCategory::Event),
        SystemNews::AllianceForceLanded => (
            "Alliance special force lands at ",
            "",
            MessageCategory::Event,
        ),
        SystemNews::ImperialForceLanded => (
            "Imperial special force lands at ",
            "",
            MessageCategory::Event,
        ),
        SystemNews::BlockadeStarted => ("Blockade established at ", "", MessageCategory::Combat),
        SystemNews::BlockadeEnded => ("Blockade lifted at ", "", MessageCategory::Combat),
        SystemNews::UprisingIncident => ("Uprising incident at ", "", MessageCategory::Diplomacy),
        SystemNews::UprisingSubdued => ("Uprising subdued at ", "", MessageCategory::Diplomacy),
        SystemNews::DeathStarCompleted => (
            "Death Star construction complete at ",
            "",
            MessageCategory::Event,
        ),
        SystemNews::DeathStarNear => ("Death Star detected near ", "!", MessageCategory::Event),
    };
    report_at(world, before, system, after, category, tick, log);
}

/// What a Death Star event adds to the log. A destroyed planet is told where
/// the shot is ordered.
pub open spec fn death_star_notes(world: GameWorld, event: DeathStarEvent) -> Seq<Note> {
    match event {
        DeathStarEvent::ConstructionCompleted { system, tick } => seq![
            news_note(world, SystemNews::DeathStarCompleted, system, tick),
        ],
        DeathStarEvent::NearbyWarning { system, tick } => seq![
            news_note(world, SystemNews::DeathStarNear, system, tick),
        ],
        DeathStarEvent::PlanetDestroyed { .. } => Seq::empty(),
    }
}

/// Tells what the Death Star did in the course of a day.
pub fn report_death_star(event: &DeathStarEvent, world: &GameWorld, log: &mut MessageLog)
    requires
        !(*event is PlanetDestroyed),
    ensures
        final(log)@ == old(log)@ + death_star_notes(*world, *event),
{
    let ghost said = log@;
    match *event {
        DeathStarEvent::ConstructionCompleted { system, tick } => {
            report_news(SystemNews::DeathStarCompleted, system, world, tick, log);
        },
        DeathStarEvent::NearbyWarning { system, tick } => {
            report_news(SystemNews::DeathStarNear, system, world, tick, log);
        },
        DeathStarEvent::PlanetDestroyed { .. } => {},
    }
    assert(log@ =~= said + death_star_notes(*world, *event));
}

// ---- Blockades and repairs -------------------------------------------------

/// The `i`th regiment of a roster, if it is another one.
pub open spec fn other_troop(list: Seq<TroopKey>, troop: TroopKey) -> spec_fn(int) -> Option<
    TroopKey,
> {
    |i: int|
        if list[i] != troop {
            Some(list[i])
        } else {
            None
        }
}

/// Whether `after` are the systems `before` with a regiment struck from the
/// roster of one.
pub open spec fn roster_reduced(
    before: Seq<Option<System>>,
    after: Seq<Option<System>>,
    system: SystemKey,
    troop: TroopKey,
) -> bool {
    let slot = system.slot as int;
    if occupied(before, slot) {
        let list = (before[slot]->0).ground_units@;
        &&& after.len() == before.len()
        &&& after[slot] is Some
        &&& after == before.update(slot, after[slot])
        &&& (after[slot]->0).ground_units@ == collect(list.len(), other_troop(list, troop))
        &&& after[slot]->0 == (System {
            ground_units: (after[slot]->0).ground_units,
            ..before[slot]->0
        })
    } else {
        after == before
    }
}

/// Removes a regiment that a blockade destroyed.
pub fn destroy_blockaded_troop(
    system: SystemKey,
    troop: TroopKey,
    world: &mut GameWorld,
    tick: u64,
    log: &mut MessageLog,
)
    ensures
        *final(world) == (GameWorld {
            systems: final(world).systems,
            troops: final(world).troops,
            ..*old(world)
        }),
        roster_reduced(old(world).systems@, final(world).systems@, system, troop),
        final(world).troops@ == without(old(world).troops@, troop.slot as nat),
        final(log)@ == old(log)@.push(
            place_note(
                *old(world),
                "Troops destroyed by blockade at "@,
                system,
                ""@,
                MessageCategory::Combat,
                tick,
            ),
        ),
{
    if let Some(sys) = world.systems.get_mut(system) {
        let ghost f = other_troop(sys.ground_units@, troop);
        let mut rest: Vec<TroopKey> = Vec::new();
        for i in 0..sys.ground_units.len()
            invariant
                f == other_troop(sys.ground_units@, troop),
                rest@ == collect(i as nat, f),
        {
            if sys.ground_units[i] != troop {
                rest.push(sys.ground_units[i]);
            }
        }
        sys.ground_units = rest;
    }
    let _ = world.troops.remove(troop);
    report_at(
        world,
        "Troops destroyed by blockade at ",
        system,
        "",
        MessageCategory::Combat,
        tick,
        log,
    );
}

/// Whether `after` are the fleets `before` with one hull set.
pub open spec fn hull_set(
    before: Seq<Option<Fleet>>,
    after: Seq<Option<Fleet>>,
    fleet: FleetKey,
    ship_index: int,
    hull: i32,
) -> bool {
    let slot = fleet.slot as int;
    if occupied(before, slot) && ship_index < (before[slot]->0).capital_ships@.len() {
        let ships = (before[slot]->0).capital_ships@;
        &&& after.len() == before.len()
        &&& after[slot] is Some
        &&& after == before.update(slot, after[slot])
        &&& (after[slot]->0).capital_ships@ == ships.update(
            ship_index,
            ShipInstance { hull_current: hull, ..ships[ship_index] },
        )
        &&& after[slot]->0 == (Fleet {
            capital_ships: (after[slot]->0).capital_ships,
            ..before[slot]->0
        })
    } else {
        after == before
    }
}

/// Applies a repair.
pub fn apply_repair(fleet: FleetKey, ship_index: usize, hull_after: i32, world: &mut GameWorld)
    ensures
        *final(world) == (GameWorld { fleets: final(world).fleets, ..*old(world) }),
        hull_set(
            old(world).fleets@,
            final(world).fleets@,
            fleet,
            ship_index as int,
            hull_after,
        ),
{
    let there: bool = match world.fleets.get(fleet) {
        Some(f) => ship_index < f.capital_ships.len(),
        None => false,
    };
    if there {
        if let Some(f) = world.fleets.get_mut(fleet) {
            let ship: ShipInstance = f.capital_ships[ship_index];
            f.capital_ships.set(
                ship_index,
                ShipInstance {
                    class: ship.class,
                    hull_current: hull_after,
                    alive: ship.alive,
                    is_alliance: ship.is_alliance,
                },
            );
        }
    }
}

// ---- Uprisings -------------------------------------------------------------

/// Who holds a system after an uprising.
pub open spec fn overthrown(control: ControlKind) -> ControlKind {
    match control {
        ControlKind::Controlled(Faction::Alliance) => ControlKind::Controlled(Faction::Empire),
        ControlKind::Controlled(Faction::Empire) => ControlKind::Controlled(Faction::Alliance),
        other => other,
    }
}

/// Whether an uprising against a control helps the player.
pub open spec fn player_gains(control: ControlKind, player: MissionFaction) -> bool {
    match control {
        ControlKind::Controlled(Faction::Alliance) => player != MissionFaction::Alliance,
        ControlKind::Controlled(Faction::Empire) => player == MissionFaction::Alliance,
        _ => false,
    }
}

/// Two uprisings undo each other.
pub proof fn law_uprisings_undo(control: ControlKind)
    ensures
        overthrown(overthrown(control)) == control,
{
}

/// An uprising in a system that one of the sides holds helps exactly one of
/// the two players, and the system goes to that side.
pub proof fn law_uprising_helps_one(control: ControlKind)
    requires
        control.held_by(Faction::Alliance) || control.held_by(Faction::Empire),
    ensures
        player_gains(control, MissionFaction::Alliance) != player_gains(
            control,
            MissionFaction::Empire,
        ),
        player_gains(control, MissionFaction::Alliance) == overthrown(control).held_by(
            Faction::Alliance,
        ),
{
}

/// Applies an uprising: the system changes hands. Says whether that helps the
/// player.
pub fn apply_uprising(
    system: SystemKey,
    player: MissionFaction,
    world: &mut GameWorld,
    tick: u64,
    log: &mut MessageLog,
) -> (gains: bool)
    ensures
        gains == (old(world).systems.has(system) && player_gains(
            old(world).systems.at(system).control,
            player,
        )),
        *final(world) == (GameWorld { systems: final(world).systems, ..*old(world) }),
        final(world).systems@ == system_set(
            old(world).systems@,
            system,
            System {
                control: overthrown(old(world).systems.at(system).control),
                ..old(world).systems.at(system)
            },
        ),
        final(log)@ == old(log)@.push(
            place_note(
                *old(world),
                "Uprising! "@,
                system,
                " has changed hands"@,
                MessageCategory::Diplomacy,
                tick,
            ),
        ),
{
    let mut gains: bool = false;
    if let Some(sys) = world.systems.get_mut(system) {
        match sys.control {
            ControlKind::Controlled(Faction::Alliance) => {
                gains = player != MissionFaction::Alliance;
                sys.control = ControlKind::Controlled(Faction::Empire);
            },
            ControlKind::Controlled(Faction::Empire) => {
                gains = player == MissionFaction::Alliance;
                sys.control = ControlKind::Controlled(Faction::Alliance);
            },
            _ => {},
        }
    }
    report_at(
        world,
        "Uprising! ",
        system,
        " has changed hands",
        MessageCategory::Diplomacy,
        tick,
        log,
    );
    gains
}

// ---- Characters ------------------------------------------------------------

/// Whether `after` is the world `before` once a character was changed and
/// left its fleet.
pub open spec fn turned(
    before: GameWorld,
    after: GameWorld,
    character: CharacterKey,
    new: Character,
) -> bool {
    &&& after == (GameWorld { fleets: after.fleets, characters: after.characters, ..before })
    &&& after.characters@ == character_set(before.characters@, character, new)
    &&& struck_off(before.fleets@, after.fleets@, character)
}

/// Applies an escape: the character is free on one side and on no fleet.
pub fn apply_escape(
    character: CharacterKey,
    escaped_to_alliance: bool,
    world: &mut GameWorld,
    tick: u64,
    log: &mut MessageLog,
)
    ensures
        turned(
            *old(world),
            *final(world),
            character,
            freed(old(world).characters.at(character), escaped_to_alliance),
        ),
        final(log)@ == old(log)@.push(
            note(
                tick,
                character_name(*old(world), character, "Unknown"@) + " has escaped captivity!"@,
                MessageCategory::Event,
            ),
        ),
{
    free(world, character, escaped_to_alliance);
    strike_off(world, character);
    let text: String = join2(
        name_character(world, character, "Unknown"),
        " has escaped captivity!",
    );
    log.say(tick, text, MessageCategory::Event);
}

/// Applies a betrayal: the character changes sides and leaves its fleet.
pub fn apply_betrayal(
    event: &BetrayalEvent,
    world: &mut GameWorld,
    tick: u64,
    log: &mut MessageLog,
)
    ensures
        match *event {
            BetrayalEvent::CharacterBetrayed { character, defected_to_alliance } => {
                &&& turned(
                    *old(world),
                    *final(world),
                    character,
                    Character {
                        is_alliance: defected_to_alliance,
                        is_empire: !defected_to_alliance,
                        ..old(world).characters.at(character)
                    },
                )
                &&& final(log)@ == old(log)@.push(
                    note(
                        tick,
                        character_name(*old(world), character, "Unknown"@)
                            + " has betrayed and defected to the "@ + side_word(
                            defected_to_alliance,
                        ) + "!"@,
                        MessageCategory::Event,
                    ),
                )
            },
        },
{
    match *event {
        BetrayalEvent::CharacterBetrayed { character, defected_to_alliance } => {
            if let Some(c) = world.characters.get_mut(character) {
                c.is_alliance = defected_to_alliance;
                c.is_empire = !defected_to_alliance;
            }
            strike_off(world, character);
            let text: String = join4(
                name_character(world, character, "Unknown"),
                " has betrayed and defected to the ",
                word_side(defected_to_alliance),
                "!",
            );
            log.say(tick, text, MessageCategory::Event);
        },
    }
}

/// Tells that a technology advanced.
pub fn report_tech(
    faction_is_alliance: bool,
    tech_type: TechType,
    new_level: u32,
    tick: u64,
    log: &mut MessageLog,
)
    ensures
        final(log)@ == old(log)@.push(
            note(
                tick,
                side_word(faction_is_alliance) + " "@ + tree_word(tech_type)
                    + " tech advanced to level "@ + decimal(new_level as nat),
                MessageCategory::Event,
            ),
        ),
{
    let level: String = number(new_level as u64);
    let text: String = join5(
        word_side(faction_is_alliance),
        " ",
        word_tree(tech_type),
        " tech advanced to level ",
        level.as_str(),
    );
    log.say(tick, text, MessageCategory::Event);
}

/// The name of a tier of training.
pub open spec fn tier_words(tier: ForceTier) -> Seq<char> {
    match tier {
        ForceTier::Untrained => "None"@,
        ForceTier::Aware => "Force Aware"@,
        ForceTier::Training => "Jedi Training"@,
        ForceTier::Experienced => "Jedi Knight"@,
    }
}

/// The experience that a tier begins with.
pub open spec fn tier_experience(tier: ForceTier, to_training: u32, to_experienced: u32) -> u32 {
    match tier {
        ForceTier::Untrained => 0,
        ForceTier::Aware => 1,
        ForceTier::Training => to_training,
        ForceTier::Experienced => to_experienced,
    }
}

/// The name of a tier of training.
fn name_tier(tier: ForceTier) -> (name: &'static str)
    ensures
        name@ == tier_words(tier),
{
    match tier {
        ForceTier::Untrained => "None",
        ForceTier::Aware => "Force Aware",
        ForceTier::Training => "Jedi Training",
        ForceTier::Experienced => "Jedi Knight",
    }
}

/// The experience that a tier begins with.
fn experience_of(tier: ForceTier, to_training: u32, to_experienced: u32) -> (experience: u32)
    ensures
        experience == tier_experience(tier, to_training, to_experienced),
{
    match tier {
        ForceTier::Untrained => 0,
        ForceTier::Aware => 1,
        ForceTier::Training => to_training,
        ForceTier::Experienced => to_experienced,
    }
}

/// Applies a step of training in the Force. The last two arguments are what
/// the upper two tiers begin with.
pub fn apply_tier(
    character: CharacterKey,
    new_tier: ForceTier,
    to_training: u32,
    to_experienced: u32,
    world: &mut GameWorld,
    tick: u64,
    log: &mut MessageLog,
)
    ensures
        *final(world) == (GameWorld { characters: final(world).characters, ..*old(world) }),
        final(world).characters@ == character_set(
            old(world).characters@,
            character,
            Character {
                force_tier: new_tier,
                force_experience: tier_experience(new_tier, to_training, to_experienced),
                ..old(world).characters.at(character)
            },
        ),
        final(log)@ == old(log)@.push(
            note(
                tick,
                character_name(*old(world), character, "Unknown"@) + " has reached "@ + tier_words(
                    new_tier,
                ) + " tier"@,
                MessageCategory::Event,
            ),
        ),
{
    if let Some(c) = world.characters.get_mut(character) {
        c.force_tier = new_tier;
        c.force_experience = experience_of(new_tier, to_training, to_experienced);
    }
    let text: String = join4(
        name_character(world, character, "Unknown"),
        " has reached ",
        name_tier(new_tier),
        " tier",
    );
    log.say(tick, text, MessageCategory::Event);
}

/// Marks a character as a discovered Jedi.
pub fn apply_discovery(
    character: CharacterKey,
    world: &mut GameWorld,
    tick: u64,
    log: &mut MessageLog,
)
    ensures
        *final(world) == (GameWorld { characters: final(world).characters, ..*old(world) }),
        final(world).characters@ == character_set(
            old(world).characters@,
            character,
            Character { is_discovered_jedi: true, ..old(world).characters.at(character) },
        ),
        final(log)@ == old(log)@.push(
            note(
                tick,
                character_name(*old(world), character, "Unknown"@)
                    + "'s Force sensitivity discovered!"@,
                MessageCategory::Event,
            ),
        ),
{
    if let Some(c) = world.characters.get_mut(character) {
        c.is_discovered_jedi = true;
    }
    let text: String = join2(
        name_character(world, character, "Unknown"),
        "'s Force sensitivity discovered!",
    );
    log.say(tick, text, MessageCategory::Event);
}

/// Whether the first Luke, from slot `from` on, knows whose child he is.
pub open spec fn first_luke_knows(slots: Seq<Option<Character>>, from: nat) -> bool
    decreases slots.len() - from,
{
    if from >= slots.len() {
        false
    } else if slots[from as int] matches Some(c) && mentions(c.name@, "Luke"@) {
        (slots[from as int]->0).heritage_known
    } else {
        first_luke_knows(slots, from + 1)
    }
}

/// Whether Luke knows whose child he is, which decides what some screens show.
pub fn luke_knows_heritage(world: &GameWorld) -> (known: bool)
    ensures
        known == first_luke_knows(world.characters@, 0),
{
    let slots: usize = world.characters.slot_count();
    for i in 0..slots
        invariant
            slots == world.characters@.len(),
            first_luke_knows(world.characters@, 0) == first_luke_knows(
                world.characters@,
                i as nat,
            ),
    {
        if let Some(c) = world.characters.slot(i) {
            if contains_text(c.name.as_str(), "Luke") {
                return c.heritage_known;
            }
        }
    }
    false
}

} // verus!
