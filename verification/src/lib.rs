//! A verified core for a galactic strategy game: the world model, the
//! computer player, combat, bombardment, the Death Star, betrayal, what
//! missions, battles and the player's orders do to a campaign, and the runtime
//! asset pack.
//!
//! Everything here is a function of plain values. Random rolls, screens,
//! files and floating-point work live with the caller, which hands integers
//! in and takes integers back. Shares of support are single-precision numbers
//! held as their bit patterns.

pub mod ai;
pub mod ai_advance;
pub mod ai_build_laws;
pub mod ai_choice_laws;
pub mod ai_covert;
pub mod ai_covert_laws;
pub mod ai_deploy;
pub mod ai_fleet_laws;
pub mod ai_fleets;
pub mod ai_missions;
pub mod ai_move_laws;
pub mod ai_orders;
pub mod ai_people_laws;
pub mod ai_production;
pub mod ai_strength;
pub mod ai_troop_laws;
pub mod ai_troops;
pub mod ai_view_laws;
pub mod arena;
pub mod assets;
pub mod battle_laws;
pub mod betrayal;
pub mod blockade;
pub mod bombardment;
pub mod campaign;
pub mod campaign_laws;
pub mod combat;
pub mod combat_laws;
pub mod commands;
pub mod dat;
pub mod day_events;
pub mod death_star;
pub mod deed_laws;
pub mod effects;
pub mod fire_laws;
pub mod fonts;
pub mod ground;
pub mod ground_campaign;
pub mod ground_laws;
pub mod ids;
pub mod manufacturing;
pub mod messages;
pub mod mission_effects;
pub mod missions;
pub mod movement;
pub mod orbit;
pub mod orbit_laws;
pub mod pack_laws;
pub mod panel;
pub mod panel_death_star;
pub mod panel_fleets;
pub mod panel_reports;
pub mod research;
pub mod runtime_pack;
pub mod screens;
pub mod select;
pub mod space;
pub mod space_battle;
pub mod space_fighters;
pub mod station_laws;
pub mod story;
pub mod tactical;
pub mod text;
pub mod tick;
pub mod tuning;
pub mod wing_laws;
pub mod world;
