//! Tunable numbers of the simulation.

use vstd::prelude::*;

verus! {

/// Numbers that steer the computer player.
///
/// Popularity limits are shares held as single-precision bit patterns, as in
/// the systems they are compared with.
#[derive(Debug, Clone, Copy, PartialEq, Eq, Structural)]
pub struct AiConfig {
    /// Days between two evaluations.
    pub tick_interval: u64,
    pub diplomacy_skill_threshold: u32,
    pub diplomacy_target_popularity_cap: u32,
    pub espionage_skill_threshold: u32,
    pub covert_target_popularity_threshold: u32,
    pub max_covert_ops_per_eval: usize,
    pub max_recon_per_eval: usize,
    pub max_construction_yards: usize,
    /// Regiments that stay behind when an attack embarks.
    pub troop_garrison_min: usize,
    /// A garrison above this can give a regiment away.
    pub troop_garrison_donor_threshold: usize,
}

/// Numbers that steer production.
#[derive(Debug, Clone, Copy, PartialEq, Eq, Structural)]
pub struct ProductionConfig {
    /// Capital ships come first until the faction has this many.
    pub capship_threshold: usize,
    /// Fighter squadrons wanted per capital ship.
    pub fighter_ratio: usize,
}

/// All tunable numbers.
#[derive(Debug, Clone, Copy, PartialEq, Eq, Structural)]
pub struct GameConfig {
    pub ai: AiConfig,
    pub production: ProductionConfig,
}

impl Default for GameConfig {
    fn default() -> (config: Self)
        ensures
            config == (GameConfig {
                ai: AiConfig {
                    tick_interval: 7,
                    diplomacy_skill_threshold: 60,
                    diplomacy_target_popularity_cap: 0x3f4c_cccd,
                    espionage_skill_threshold: 50,
                    covert_target_popularity_threshold: 0x3f00_0000,
                    max_covert_ops_per_eval: 3,
                    max_recon_per_eval: 2,
                    max_construction_yards: 5,
                    troop_garrison_min: 2,
                    troop_garrison_donor_threshold: 3,
                },
                production: ProductionConfig { capship_threshold: 20, fighter_ratio: 2 },
            }),
    {
        GameConfig {
            ai: AiConfig {
                tick_interval: 7,
                diplomacy_skill_threshold: 60,
                // 0.8
                diplomacy_target_popularity_cap: 0x3f4c_cccd,
                espionage_skill_threshold: 50,
                // 0.5
                covert_target_popularity_threshold: 0x3f00_0000,
                max_covert_ops_per_eval: 3,
                max_recon_per_eval: 2,
                max_construction_yards: 5,
                troop_garrison_min: 2,
                troop_garrison_donor_threshold: 3,
            },
            production: ProductionConfig { capship_threshold: 20, fighter_ratio: 2 },
        }
    }
}

} // verus!
