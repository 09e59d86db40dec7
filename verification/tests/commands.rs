//! Tests of the command palette.

use open_rebellion::commands::all_commands;

#[test]
fn all_command_ids_unique() {
    let cmds = all_commands();
    let mut ids: Vec<&str> = cmds.iter().map(|c| c.id).collect();
    let total = ids.len();
    ids.sort_unstable();
    ids.dedup();
    assert_eq!(ids.len(), total, "Duplicate command IDs found");
}

#[test]
fn all_categories_known() {
    let known = ["Time", "Speed", "Inspect", "Control"];
    for cmd in all_commands() {
        assert!(
            known.contains(&cmd.category),
            "Unknown category: {}",
            cmd.category
        );
    }
}
