//! Whom the computer player sends on missions, and where.

use crate::ai::{
    dispatchable, issue, mission, mission_order, orders, AIAction, AIState, AISystem, AiFaction,
    Order,
};
use crate::arena::occupied;
use crate::ids::{CharacterKey, SystemKey};
use crate::missions::MissionKind;
use crate::select::{collect, first_min, last_max, pick_first_min, pick_last_max};
use crate::tuning::GameConfig;
use crate::world::{occupied_character, Character, ForceTier, GameWorld};
use vstd::prelude::*;

verus! {

/// Half of everything: the bit pattern of one half in single precision.
pub const HALF: u32 = 0x3f00_0000;

// ---- Targets by popularity -------------------------------------------------

/// System `i` with our support there, if it lies below the cap.
pub open spec fn wavering(world: GameWorld, faction: AiFaction, cap: u32) -> spec_fn(int) -> Option<
    (SystemKey, i128),
> {
    |i: int|
        if occupied(world.systems@, i) && faction.support(world.systems@[i]->0) < cap {
            Some((SystemKey { slot: i as usize }, faction.support(world.systems@[i]->0) as i128))
        } else {
            None
        }
}

/// System `i` with our support there.
pub open spec fn supporting(world: GameWorld, faction: AiFaction) -> spec_fn(int) -> Option<
    (SystemKey, i128),
> {
    |i: int|
        if occupied(world.systems@, i) {
            Some((SystemKey { slot: i as usize }, faction.support(world.systems@[i]->0) as i128))
        } else {
            None
        }
}

/// System `i` with the enemy's support there, if it lies above the floor.
pub open spec fn hostile(world: GameWorld, faction: AiFaction, floor: u32) -> spec_fn(int) -> Option<
    (SystemKey, i128),
> {
    |i: int|
        if occupied(world.systems@, i) && faction.enemy_support(world.systems@[i]->0) > floor {
            Some(
                (
                    SystemKey { slot: i as usize },
                    faction.enemy_support(world.systems@[i]->0) as i128,
                ),
            )
        } else {
            None
        }
}

/// The system with our lowest support, among those below the cap.
pub open spec fn diplomacy_target(world: GameWorld, faction: AiFaction, cap: u32) -> Option<
    SystemKey,
> {
    first_min(collect(world.systems@.len(), wavering(world, faction, cap)))
}

/// The system with our highest support.
pub open spec fn friendly_system(world: GameWorld, faction: AiFaction) -> Option<SystemKey> {
    last_max(collect(world.systems@.len(), supporting(world, faction)))
}

/// The system with the enemy's highest support, among those above the floor.
pub open spec fn hostile_system(world: GameWorld, faction: AiFaction, floor: u32) -> Option<
    SystemKey,
> {
    last_max(collect(world.systems@.len(), hostile(world, faction, floor)))
}

impl AISystem {
    /// The system with our lowest support, among those below the cap.
    pub fn find_diplomacy_target(world: &GameWorld, faction: AiFaction, cap: u32) -> (target: Option<
        SystemKey,
    >)
        ensures
            target == diplomacy_target(*world, faction, cap),
    {
        let ghost f = wavering(*world, faction, cap);
        let mut found: Vec<(SystemKey, i128)> = Vec::new();
        let count: usize = world.systems.slot_count();
        for i in 0..count
            invariant
                count == world.systems@.len(),
                f == wavering(*world, faction, cap),
                found@ == collect(i as nat, f),
        {
            if let Some(sys) = world.systems.slot(i) {
                let support: u32 = faction.system_popularity(sys);
                if support < cap {
                    found.push((SystemKey { slot: i }, support as i128));
                }
            }
        }
        pick_first_min(&found)
    }

    /// The system with our highest support: where recruits are brought.
    pub fn find_friendly_system(world: &GameWorld, faction: AiFaction) -> (target: Option<SystemKey>)
        ensures
            target == friendly_system(*world, faction),
    {
        let ghost f = supporting(*world, faction);
        let mut found: Vec<(SystemKey, i128)> = Vec::new();
        let count: usize = world.systems.slot_count();
        for i in 0..count
            invariant
                count == world.systems@.len(),
                f == supporting(*world, faction),
                found@ == collect(i as nat, f),
        {
            if let Some(sys) = world.systems.slot(i) {
                found.push((SystemKey { slot: i }, faction.system_popularity(sys) as i128));
            }
        }
        pick_last_max(&found)
    }

    /// The system with the enemy's highest support, among those above the floor.
    pub(crate) fn find_hostile_system(world: &GameWorld, faction: AiFaction, floor: u32) -> (target: Option<
        SystemKey,
    >)
        ensures
            target == hostile_system(*world, faction, floor),
    {
        let ghost f = hostile(*world, faction, floor);
        let mut found: Vec<(SystemKey, i128)> = Vec::new();
        let count: usize = world.systems.slot_count();
        for i in 0..count
            invariant
                count == world.systems@.len(),
                f == hostile(*world, faction, floor),
                found@ == collect(i as nat, f),
        {
            if let Some(sys) = world.systems.slot(i) {
                let support: u32 = faction.enemy_popularity(sys);
                if support > floor {
                    found.push((SystemKey { slot: i }, support as i128));
                }
            }
        }
        pick_last_max(&found)
    }

    /// Where to stir up an uprising: the system most firmly in enemy hands,
    /// if the enemy has more than half of some system's support.
    pub fn find_incite_target(world: &GameWorld, faction: AiFaction) -> (target: Option<SystemKey>)
        ensures
            target == hostile_system(*world, faction, HALF),
    {
        AISystem::find_hostile_system(world, faction, HALF)
    }
}

// ---- Officers --------------------------------------------------------------

/// Character `i`, if it could command but is not ours.
pub open spec fn recruitable(world: GameWorld, faction: AiFaction) -> spec_fn(int) -> Option<
    CharacterKey,
> {
    |i: int|
        if occupied(world.characters@, i) && (world.characters@[i]->0).can_be_commander
            && !faction.owns(world.characters@[i]->0) {
            Some(CharacterKey { slot: i as usize })
        } else {
            None
        }
}

/// What officers can be sent to do.
pub struct Openings {
    /// Where to stir up an uprising.
    pub incite: Option<SystemKey>,
    /// Where diplomacy is needed most.
    pub diplomacy: Option<SystemKey>,
    /// The first character to win over.
    pub recruit: Option<CharacterKey>,
    /// Where recruits are brought.
    pub base: Option<SystemKey>,
}

/// The openings of a faction.
pub open spec fn openings(world: GameWorld, faction: AiFaction, config: GameConfig) -> Openings {
    let recruits = collect(world.characters@.len(), recruitable(world, faction));
    Openings {
        incite: hostile_system(world, faction, HALF),
        diplomacy: diplomacy_target(world, faction, config.ai.diplomacy_target_popularity_cap),
        recruit: if recruits.len() == 0 {
            None
        } else {
            Some(recruits[0])
        },
        base: friendly_system(world, faction),
    }
}

/// Whether a character is left free for Jedi training.
pub open spec fn jedi_in_waiting(c: Character) -> bool {
    c.jedi_probability > 50 && c.force_tier == ForceTier::Untrained
}

/// What an available officer is sent to do. A major character recruits while
/// there is an officer to win over. Otherwise the first diplomat stirs up an
/// uprising, and the other diplomats and all major characters do diplomacy.
pub open spec fn officer_errand(
    config: GameConfig,
    o: Openings,
    key: CharacterKey,
    is_major: bool,
    skill: int,
    incited: bool,
) -> Option<Order> {
    let diplomat = skill > config.ai.diplomacy_skill_threshold;
    if is_major && o.recruit is Some && o.base is Some {
        Some(mission_order(MissionKind::Recruitment, key, o.base->0, o.recruit))
    } else if diplomat && !incited && o.incite is Some {
        Some(mission_order(MissionKind::InciteUprising, key, o.incite->0, None))
    } else if (is_major || diplomat) && o.diplomacy is Some {
        Some(mission_order(MissionKind::Diplomacy, key, o.diplomacy->0, None))
    } else {
        None
    }
}

/// What one character is sent to do: nothing unless it is available and not
/// wanted for Jedi training.
pub open spec fn officer_task(
    state: AIState,
    faction: AiFaction,
    config: GameConfig,
    o: Openings,
    key: CharacterKey,
    c: Character,
    incited: bool,
) -> Option<Order> {
    if !dispatchable(state, faction, key, c) || jedi_in_waiting(c) {
        None
    } else {
        officer_errand(config, o, key, c.is_major, c.diplomacy.score_spec(), incited)
    }
}

/// Whether an order stirs up an uprising.
pub open spec fn incites(order: Order) -> bool {
    order is Mission && order->Mission_kind == MissionKind::InciteUprising
}

/// The orders for the first `n` characters, and whether one stirs up an uprising.
pub open spec fn officer_orders(
    state: AIState,
    world: GameWorld,
    faction: AiFaction,
    config: GameConfig,
    o: Openings,
    n: nat,
) -> (Seq<Order>, bool)
    decreases n,
{
    if n == 0 {
        (Seq::empty(), false)
    } else {
        let (list, incited) = officer_orders(state, world, faction, config, o, (n - 1) as nat);
        if occupied(world.characters@, n - 1) {
            match officer_task(
                state,
                faction,
                config,
                o,
                CharacterKey { slot: (n - 1) as usize },
                world.characters@[n - 1]->0,
                incited,
            ) {
                Some(order) => (list.push(order), incited || incites(order)),
                None => (list, incited),
            }
        } else {
            (list, incited)
        }
    }
}

/// The first of the collected recruits, found by a scan.
fn find_recruit(world: &GameWorld, faction: AiFaction) -> (found: Option<CharacterKey>)
    ensures
        ({
            let recruits = collect(world.characters@.len(), recruitable(*world, faction));
            found == if recruits.len() == 0 {
                None
            } else {
                Some(recruits[0])
            }
        }),
{
    let ghost f = recruitable(*world, faction);
    let mut first: Option<CharacterKey> = None;
    let count: usize = world.characters.slot_count();
    for i in 0..count
        invariant
            count == world.characters@.len(),
            f == recruitable(*world, faction),
            first == if collect(i as nat, f).len() == 0 {
                None
            } else {
                Some(collect(i as nat, f)[0])
            },
    {
        if let Some(c) = world.characters.slot(i) {
            if c.can_be_commander && !faction.owns_character(c) && first.is_none() {
                first = Some(CharacterKey { slot: i });
            }
        }
    }
    first
}

impl AISystem {
    /// Sends officers on uprisings, diplomacy and recruitment.
    pub fn evaluate_officers(
        state: &AIState,
        world: &GameWorld,
        faction: AiFaction,
        config: &GameConfig,
        actions: &mut Vec<AIAction>,
    )
        requires
            world.wf(),
        ensures
            orders(final(actions)@) == orders(old(actions)@) + officer_orders(
                *state,
                *world,
                faction,
                *config,
                openings(*world, faction, *config),
                world.characters@.len(),
            ).0,
    {
        let recruit: Option<CharacterKey> = find_recruit(world, faction);
        let diplomacy: Option<SystemKey> = AISystem::find_diplomacy_target(
            world,
            faction,
            config.ai.diplomacy_target_popularity_cap,
        );
        let incite: Option<SystemKey> = AISystem::find_incite_target(world, faction);
        let base: Option<SystemKey> = AISystem::find_friendly_system(world, faction);
        let ghost o = openings(*world, faction, *config);
        let ghost before = orders(actions@);
        let mut incited: bool = false;
        assert(before + Seq::<Order>::empty() =~= before);
        let count: usize = world.characters.slot_count();
        for i in 0..count
            invariant
                count == world.characters@.len(),
                world.wf(),
                o == (Openings { incite, diplomacy, recruit, base }),
                orders(actions@) == before + officer_orders(
                    *state,
                    *world,
                    faction,
                    *config,
                    o,
                    i as nat,
                ).0,
                incited == officer_orders(*state, *world, faction, *config, o, i as nat).1,
        {
            let ghost sofar = officer_orders(*state, *world, faction, *config, o, i as nat).0;
            if let Some(c) = world.characters.slot(i) {
                assert(occupied_character(world, i as int));
                let key: CharacterKey = CharacterKey { slot: i };
                if AISystem::can_dispatch(state, faction, key, c) && !(c.jedi_probability > 50
                    && c.force_tier == ForceTier::Untrained) {
                    let skill: u32 = c.diplomacy.score();
                    let order: Option<AIAction> = AISystem::officer_action(
                        config,
                        incite,
                        diplomacy,
                        recruit,
                        base,
                        key,
                        c.is_major,
                        skill,
                        incited,
                    );
                    if let Some(action) = order {
                        let ghost said = action@;
                        if let AIAction::DispatchMission { kind, .. } = &action {
                            if *kind == MissionKind::InciteUprising {
                                incited = true;
                            }
                        }
                        issue(actions, action);
                        assert((before + sofar).push(said) =~= before + sofar.push(said));
                    }
                }
            }
        }
    }

    /// What an available officer is sent to do.
    fn officer_action(
        config: &GameConfig,
        incite: Option<SystemKey>,
        diplomacy: Option<SystemKey>,
        recruit: Option<CharacterKey>,
        base: Option<SystemKey>,
        key: CharacterKey,
        is_major: bool,
        skill: u32,
        incited: bool,
    ) -> (action: Option<AIAction>)
        ensures
            action is Some ==> action->0 is DispatchMission,
            officer_errand(
                *config,
                Openings { incite, diplomacy, recruit, base },
                key,
                is_major,
                skill as int,
                incited,
            ) == match action {
                Some(a) => Some(a@),
                None => None,
            },
    {
        if is_major && recruit.is_some() {
            if let Some(target) = base {
                return Some(mission(MissionKind::Recruitment, key, target, recruit));
            }
        }
        let diplomat: bool = skill > config.ai.diplomacy_skill_threshold;
        if diplomat && !incited {
            if let Some(target) = incite {
                return Some(mission(MissionKind::InciteUprising, key, target, None));
            }
        }
        if is_major || diplomat {
            if let Some(target) = diplomacy {
                return Some(mission(MissionKind::Diplomacy, key, target, None));
            }
        }
        None
    }
}

} // verus!
