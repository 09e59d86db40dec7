//! One evaluation of the computer player, start to finish.

use crate::ai::{orders, AIAction, AIState, AISystem, Advice, AiFaction, Order};
use crate::ai_covert::{calming_orders, covert_plan, recon_plan, rescue_orders, research_orders};
use crate::ai_deploy::deployment_orders;
use crate::ai_fleets::{death_star_order, escort_charted};
use crate::ai_missions::{officer_orders, openings};
use crate::ai_production::{build_order, countable, means};
use crate::ai_troops::mustered;
use crate::manufacturing::ManufacturingState;
use crate::movement::MovementState;
use crate::research::ResearchState;
use crate::select::collect;
use crate::tick::TickEvent;
use crate::tuning::GameConfig;
use crate::world::GameWorld;
use vstd::prelude::*;

verus! {

/// Whether a world is fit to be evaluated for a faction: skills are well
/// formed, the faction's totals can be counted, and where an escort is sought
/// for the Death Star the distances can be told.
pub open spec fn evaluable(
    world: GameWorld,
    movement: MovementState,
    faction: AiFaction,
    config: GameConfig,
    advice: Advice,
) -> bool {
    &&& world.wf()
    &&& countable(world, faction.rebel(), config)
    &&& escort_charted(world, movement, faction.rebel(), advice.death_star_outgunned)
}

/// The orders given before fleets are deployed: missions, research,
/// production, calming unrest, and the Death Star.
pub open spec fn early_orders(
    state: AIState,
    world: GameWorld,
    mfg: ManufacturingState,
    movement: MovementState,
    config: GameConfig,
    research: ResearchState,
    advice: Advice,
    faction: AiFaction,
) -> Seq<Order> {
    officer_orders(
        state,
        world,
        faction,
        config,
        openings(world, faction, config),
        world.characters@.len(),
    ).0 + covert_plan(state, world, faction, config, advice).orders + rescue_orders(
        state,
        world,
        faction,
    ) + recon_plan(state, world, faction, config, advice).orders + research_orders(
        state,
        world,
        research,
        faction,
        advice,
    ) + collect(
        world.systems@.len(),
        build_order(world, mfg, faction.rebel(), config, means(world, faction)),
    ) + calming_orders(state, world, faction, config) + death_star_order(
        world,
        movement,
        faction.rebel(),
        advice.death_star_outgunned,
    )
}

/// All orders of one evaluation: the early ones and the fleets' tasks, with
/// regiments handed out at the end.
pub open spec fn evaluation(
    state: AIState,
    world: GameWorld,
    mfg: ManufacturingState,
    movement: MovementState,
    config: GameConfig,
    research: ResearchState,
    advice: Advice,
    faction: AiFaction,
) -> Seq<Order> {
    let early = early_orders(state, world, mfg, movement, config, research, advice, faction);
    mustered(
        world,
        movement,
        faction.rebel(),
        config,
        early + deployment_orders(world, movement, faction, advice, early),
    )
}

impl AISystem {
    /// Evaluates the faction's situation and recommends orders. Nothing is
    /// recommended without an elapsed day, before the interval has passed, or
    /// without a faction to control.
    pub fn advance(
        state: &mut AIState,
        world: &GameWorld,
        mfg_state: &ManufacturingState,
        movement: &MovementState,
        tick_events: &[TickEvent],
        config: &GameConfig,
        research_state: &ResearchState,
        advice: &Advice,
    ) -> (actions: Vec<AIAction>)
        requires
            tick_events@.len() > 0 && old(state).due(
                tick_events@.last().tick,
                config.ai.tick_interval,
            ) ==> (old(state).faction matches Some(faction) ==> evaluable(
                *world,
                *movement,
                faction,
                *config,
                *advice,
            )),
        ensures
            final(state).faction == old(state).faction,
            final(state).busy_characters == old(state).busy_characters,
            final(state).battle_cooldowns == old(state).battle_cooldowns,
            ({
                let runs = tick_events@.len() > 0 && old(state).due(
                    tick_events@.last().tick,
                    config.ai.tick_interval,
                );
                &&& final(state).last_eval_tick == if runs {
                    tick_events@.last().tick
                } else {
                    old(state).last_eval_tick
                }
                &&& orders(actions@) == match old(state).faction {
                    Some(faction) if runs => evaluation(
                        *final(state),
                        *world,
                        *mfg_state,
                        *movement,
                        *config,
                        *research_state,
                        *advice,
                        faction,
                    ),
                    _ => Seq::empty(),
                }
            }),
    {
        let mut actions: Vec<AIAction> = Vec::new();
        assert(orders(actions@) =~= Seq::<Order>::empty());
        if tick_events.len() == 0 {
            return actions;
        }
        let current_tick: u64 = tick_events[tick_events.len() - 1].tick;
        if !state.should_evaluate(current_tick, config.ai.tick_interval) {
            return actions;
        }
        state.last_eval_tick = current_tick;
        let faction: AiFaction = match state.faction {
            Some(faction) => faction,
            None => {
                return actions;
            },
        };
        AISystem::evaluate_officers(state, world, faction, config, &mut actions);
        AISystem::evaluate_espionage(state, world, faction, config, advice, &mut actions);
        AISystem::evaluate_rescue(state, world, faction, &mut actions);
        AISystem::evaluate_reconnaissance(state, world, faction, config, advice, &mut actions);
        AISystem::evaluate_research(state, world, research_state, faction, advice, &mut actions);
        AISystem::evaluate_production(world, mfg_state, faction, config, &mut actions);
        AISystem::evaluate_uprising_prevention(state, world, faction, config, &mut actions);
        AISystem::evaluate_ds_escort(world, movement, faction, advice, &mut actions);
        assert(orders(actions@) =~= early_orders(
            *state,
            *world,
            *mfg_state,
            *movement,
            *config,
            *research_state,
            *advice,
            faction,
        ));
        AISystem::evaluate_fleet_deployment(world, movement, faction, advice, &mut actions);
        AISystem::evaluate_troop_deployment(world, movement, faction, config, &mut actions);
        actions
    }
}

} // verus!
