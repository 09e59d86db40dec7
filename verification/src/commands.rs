//! Commands for play-testing, shared by the palette and the command line.

use vstd::prelude::*;

verus! {

/// A command.
#[derive(Debug, Clone)]
pub struct CommandDef {
    /// Identifier for machines.
    pub id: &'static str,
    /// Label for people.
    pub label: &'static str,
    /// What the command does.
    pub description: &'static str,
    /// Group: "Time", "Speed", "Inspect" or "Control".
    pub category: &'static str,
}

/// What a command says: id, label, description and category.
pub open spec fn wording(c: CommandDef) -> (Seq<char>, Seq<char>, Seq<char>, Seq<char>) {
    (c.id@, c.label@, c.description@, c.category@)
}

/// The wording of every command, in order.
pub open spec fn command_texts() -> Seq<(Seq<char>, Seq<char>, Seq<char>, Seq<char>)> {
    seq![
        (
            "advance_1_tick"@,
            "Advance 1 tick"@,
            "Step simulation forward by 1 tick"@,
            "Time"@,
        ),
        (
            "advance_10_ticks"@,
            "Advance 10 ticks"@,
            "Step simulation forward by 10 ticks"@,
            "Time"@,
        ),
        (
            "advance_100_ticks"@,
            "Advance 100 ticks"@,
            "Step simulation forward by 100 ticks"@,
            "Time"@,
        ),
        (
            "advance_1000_ticks"@,
            "Advance 1000 ticks"@,
            "Step simulation forward by 1000 ticks"@,
            "Time"@,
        ),
        (
            "speed_paused"@,
            "Set Speed: Paused"@,
            "Pause the simulation"@,
            "Speed"@,
        ),
        (
            "speed_normal"@,
            "Set Speed: Normal"@,
            "Set simulation to 1x speed"@,
            "Speed"@,
        ),
        (
            "speed_fast"@,
            "Set Speed: Fast"@,
            "Set simulation to 2x speed"@,
            "Speed"@,
        ),
        (
            "speed_faster"@,
            "Set Speed: Faster"@,
            "Set simulation to 4x speed"@,
            "Speed"@,
        ),
        (
            "show_game_stats"@,
            "Show Game Stats"@,
            "Display current game statistics"@,
            "Inspect"@,
        ),
        (
            "list_active_missions"@,
            "List Active Missions"@,
            "Show all in-progress missions"@,
            "Inspect"@,
        ),
        (
            "list_active_fleets"@,
            "List Active Fleets"@,
            "Show all fleet positions and compositions"@,
            "Inspect"@,
        ),
        (
            "show_event_count"@,
            "Show Event Count"@,
            "Display number of triggered events"@,
            "Inspect"@,
        ),
        (
            "toggle_dual_ai"@,
            "Toggle Dual AI"@,
            "Enable/disable AI control for both factions"@,
            "Control"@,
        ),
        (
            "force_victory_check"@,
            "Force Victory Check"@,
            "Immediately evaluate victory conditions"@,
            "Control"@,
        ),
        (
            "reveal_all_systems"@,
            "Reveal All Systems"@,
            "Remove fog of war from all systems"@,
            "Control"@,
        ),
        (
            "export_game_log"@,
            "Export Game Log"@,
            "Write message log to file"@,
            "Control"@,
        ),
    ]
}

/// A command with the given wording.
fn command(
    id: &'static str,
    label: &'static str,
    description: &'static str,
    category: &'static str,
) -> (c: CommandDef)
    ensures
        wording(c) == (id@, label@, description@, category@),
{
    CommandDef { id, label, description, category }
}

/// All commands.
pub fn all_commands() -> (commands: Vec<CommandDef>)
    ensures
        commands@.len() == command_texts().len(),
        forall|i: int|
            0 <= i < commands@.len() ==> wording(#[trigger] commands@[i]) == command_texts()[i],
{
    let mut commands: Vec<CommandDef> = Vec::new();
    commands.push(
        command(
            "advance_1_tick",
            "Advance 1 tick",
            "Step simulation forward by 1 tick",
            "Time",
        ),
    );
    commands.push(
        command(
            "advance_10_ticks",
            "Advance 10 ticks",
            "Step simulation forward by 10 ticks",
            "Time",
        ),
    );
    commands.push(
        command(
            "advance_100_ticks",
            "Advance 100 ticks",
            "Step simulation forward by 100 ticks",
            "Time",
        ),
    );
    commands.push(
        command(
            "advance_1000_ticks",
            "Advance 1000 ticks",
            "Step simulation forward by 1000 ticks",
            "Time",
        ),
    );
    commands.push(command("speed_paused", "Set Speed: Paused", "Pause the simulation", "Speed"));
    commands.push(
        command(
            "speed_normal",
            "Set Speed: Normal",
            "Set simulation to 1x speed",
            "Speed",
        ),
    );
    commands.push(command("speed_fast", "Set Speed: Fast", "Set simulation to 2x speed", "Speed"));
    commands.push(
        command(
            "speed_faster",
            "Set Speed: Faster",
            "Set simulation to 4x speed",
            "Speed",
        ),
    );
    commands.push(
        command(
            "show_game_stats",
            "Show Game Stats",
            "Display current game statistics",
            "Inspect",
        ),
    );
    commands.push(
        command(
            "list_active_missions",
            "List Active Missions",
            "Show all in-progress missions",
            "Inspect",
        ),
    );
    commands.push(
        command(
            "list_active_fleets",
            "List Active Fleets",
            "Show all fleet positions and compositions",
            "Inspect",
        ),
    );
    commands.push(
        command(
            "show_event_count",
            "Show Event Count",
            "Display number of triggered events",
            "Inspect",
        ),
    );
    commands.push(
        command(
            "toggle_dual_ai",
            "Toggle Dual AI",
            "Enable/disable AI control for both factions",
            "Control",
        ),
    );
    commands.push(
        command(
            "force_victory_check",
            "Force Victory Check",
            "Immediately evaluate victory conditions",
            "Control",
        ),
    );
    commands.push(
        command(
            "reveal_all_systems",
            "Reveal All Systems",
            "Remove fog of war from all systems",
            "Control",
        ),
    );
    commands.push(
        command(
            "export_game_log",
            "Export Game Log",
            "Write message log to file",
            "Control",
        ),
    );
    commands
}

/// The number of letters, the first letter and the seventh letter of an id;
/// together they tell the ids apart.
spec fn id_mark(id: Seq<char>) -> (nat, char, char) {
    (id.len(), id[0], id[6])
}

/// No two commands share an id.
pub proof fn law_ids_differ()
    ensures
        forall|i: int, j: int|
            0 <= i < j < command_texts().len() ==> (#[trigger] command_texts()[i]).0
                != (#[trigger] command_texts()[j]).0,
{
    reveal_strlit("advance_1_tick");
    reveal_strlit("advance_10_ticks");
    reveal_strlit("advance_100_ticks");
    reveal_strlit("advance_1000_ticks");
    reveal_strlit("speed_paused");
    reveal_strlit("speed_normal");
    reveal_strlit("speed_fast");
    reveal_strlit("speed_faster");
    reveal_strlit("show_game_stats");
    reveal_strlit("list_active_missions");
    reveal_strlit("list_active_fleets");
    reveal_strlit("show_event_count");
    reveal_strlit("toggle_dual_ai");
    reveal_strlit("force_victory_check");
    reveal_strlit("reveal_all_systems");
    reveal_strlit("export_game_log");
    let texts = command_texts();
    let marks: Seq<(nat, char, char)> = seq![
        (14nat, 'a', 'e'),
        (16nat, 'a', 'e'),
        (17nat, 'a', 'e'),
        (18nat, 'a', 'e'),
        (12nat, 's', 'p'),
        (12nat, 's', 'n'),
        (10nat, 's', 'f'),
        (12nat, 's', 'f'),
        (15nat, 's', 'a'),
        (20nat, 'l', 'c'),
        (18nat, 'l', 'c'),
        (16nat, 's', 'v'),
        (14nat, 't', '_'),
        (19nat, 'f', 'v'),
        (18nat, 'r', '_'),
        (15nat, 'e', '_'),
    ];
    assert(forall|i: int, j: int|
        0 <= i < j < marks.len() ==> #[trigger] marks[i] != #[trigger] marks[j]);
    assert(id_mark(texts[0].0) == marks[0]);
    assert(id_mark(texts[1].0) == marks[1]);
    assert(id_mark(texts[2].0) == marks[2]);
    assert(id_mark(texts[3].0) == marks[3]);
    assert(id_mark(texts[4].0) == marks[4]);
    assert(id_mark(texts[5].0) == marks[5]);
    assert(id_mark(texts[6].0) == marks[6]);
    assert(id_mark(texts[7].0) == marks[7]);
    assert(id_mark(texts[8].0) == marks[8]);
    assert(id_mark(texts[9].0) == marks[9]);
    assert(id_mark(texts[10].0) == marks[10]);
    assert(id_mark(texts[11].0) == marks[11]);
    assert(id_mark(texts[12].0) == marks[12]);
    assert(id_mark(texts[13].0) == marks[13]);
    assert(id_mark(texts[14].0) == marks[14]);
    assert(id_mark(texts[15].0) == marks[15]);
    assert forall|i: int, j: int| 0 <= i < j < texts.len() implies (#[trigger] texts[i]).0 != (
    #[trigger] texts[j]).0 by {
        assert(id_mark(texts[i].0) == marks[i]);
        assert(id_mark(texts[j].0) == marks[j]);
    }
}

/// Every command belongs to one of the four groups.
pub proof fn law_categories_known()
    ensures
        forall|i: int|
            0 <= i < command_texts().len() ==> {
                let group = (#[trigger] command_texts()[i]).3;
                group == "Time"@ || group == "Speed"@ || group == "Inspect"@ || group
                    == "Control"@
            },
{
}

} // verus!
