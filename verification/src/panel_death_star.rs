//! The player's orders to the Death Star and to bombarding fleets.

use crate::bombardment::{strike_damage, BombardmentResult};
use crate::campaign::Campaign;
use crate::dat::Faction;
use crate::death_star::{
    can_fire, cleanup_destroyed_system, obituaries, orders_cleared, site_cleared, world_cleared,
    DeathStarSystem,
};
use crate::effects::GameEffect;
use crate::ground_campaign::{automatic_bombardment, fleet_side, strike_ready};
use crate::ids::{FleetKey, SystemKey};
use crate::messages::{name_system, system_name, MessageCategory, Note};
use crate::movement::in_transit;
use crate::select::collect;
use crate::text::{decimal, join2, join3, join5, number, signed, signed_number, text_from};
use crate::world::{GameWorld, System};
use vstd::prelude::*;
use vstd::string::*;

verus! {

// ---- The superlaser --------------------------------------------------------

/// Whether `after` is the world `before` with a system marked as destroyed.
pub open spec fn marked_destroyed(before: GameWorld, after: GameWorld, system: SystemKey) -> bool {
    &&& after == (GameWorld { systems: after.systems, ..before })
    &&& after.systems@ == before.systems@.update(
        system.slot as int,
        Some(System { is_destroyed: true, ..before.systems.at(system) }),
    )
}

/// The message about the `i`th death.
pub open spec fn death_line(campaign: Campaign, world: GameWorld, news: Seq<GameEffect>) -> spec_fn(
    int,
) -> Option<Note> {
    |i: int|
        match news[i] {
            GameEffect::CharacterKilled { character } => if world.characters.has(character) {
                Some(
                    campaign.today(
                        world.characters.at(character).name@ + " has been killed."@,
                        MessageCategory::Event,
                    ),
                )
            } else {
                None
            },
        }
}

/// What the destruction of a system adds to the log: each death, then the
/// destruction itself. `doomed` is the world at the moment of the shot and
/// `after` the one it left.
pub open spec fn destruction_notes(
    before: Campaign,
    doomed: GameWorld,
    after: GameWorld,
    system: SystemKey,
) -> Seq<Note> {
    let news = obituaries(doomed, system);
    collect(news.len(), death_line(before, after, news)).push(
        before.today(
            system_name(before.world, system, "Unknown"@) + " DESTROYED by Death Star superlaser!"@,
            MessageCategory::Combat,
        ),
    )
}

/// Whether `after` is the campaign `before` once a system was shot at, where
/// `doomed` is the world at the moment of the shot.
pub open spec fn system_shot(
    before: Campaign,
    doomed: GameWorld,
    after: Campaign,
    system: SystemKey,
) -> bool {
    &&& marked_destroyed(before.world, doomed, system)
    &&& world_cleared(doomed, after.world, system)
    &&& orders_cleared(
        before.movement,
        after.movement,
        before.queues,
        after.queues,
        before.blockade,
        after.blockade,
        system,
    )
    &&& after.death_star == site_cleared(before.death_star, system)
    &&& after.death_star_location == Some(system)
    &&& after.log@ == before.log@ + destruction_notes(before, doomed, after.world, system)
    &&& after == (Campaign {
        world: after.world,
        movement: after.movement,
        queues: after.queues,
        blockade: after.blockade,
        death_star: after.death_star,
        death_star_location: after.death_star_location,
        log: after.log,
        ..before
    })
}

/// Whether `after` is `before` once the order to fire was carried out.
pub open spec fn fired(before: Campaign, after: Campaign, system: SystemKey) -> bool {
    if can_fire(before.death_star, before.world, system) {
        exists|doomed: GameWorld| #[trigger] system_shot(before, doomed, after, system)
    } else {
        after == before
    }
}

// ---- Moving the Death Star -------------------------------------------------

/// The move that an order to the Death Star asks for: its fleet, where it
/// starts and where it goes. None without a living fleet, when it is under way
/// already, or when it is there already.
pub open spec fn death_star_move(campaign: Campaign, system: SystemKey) -> Option<
    (FleetKey, SystemKey, SystemKey),
> {
    match campaign.death_star.death_star_fleet {
        None => None,
        Some(fleet) => if !in_transit(campaign.movement.orders@, fleet)
            && campaign.world.fleets.has(fleet) && campaign.world.fleets.at(fleet).location
            != system {
            Some((fleet, campaign.world.fleets.at(fleet).location, system))
        } else {
            None
        },
    }
}

/// What an order to the Death Star adds to the log.
pub open spec fn death_star_move_notes(campaign: Campaign) -> Seq<Note> {
    match campaign.death_star.death_star_fleet {
        Some(fleet) => if in_transit(campaign.movement.orders@, fleet) {
            seq![
                campaign.today("Death Star fleet is already in transit"@, MessageCategory::Event),
            ]
        } else {
            Seq::empty()
        },
        None => Seq::empty(),
    }
}

// ---- Bombardment -----------------------------------------------------------

/// Whether `strike` is what an order to bombard asks for: who strikes and with
/// what result, while both the fleet and the system live.
pub open spec fn strike_ordered(
    world: GameWorld,
    fleet: FleetKey,
    system: SystemKey,
    tick: u64,
    strike: Option<(Faction, BombardmentResult)>,
) -> bool {
    match strike {
        None => !(world.fleets.has(fleet) && world.systems.has(system)),
        Some((attacker, result)) => {
            &&& world.fleets.has(fleet)
            &&& world.systems.has(system)
            &&& attacker == fleet_side(world.fleets.at(fleet))
            &&& result.system == system
            &&& result.tick == tick
            &&& strike_damage(
                world,
                world.fleets.at(fleet),
                world.systems.at(system),
                world.difficulty_index,
                result.damage as int,
            )
        },
    }
}

/// A system whose support for the struck side was changed.
pub open spec fn support_after_strike(sys: System, attacker_is_alliance: bool, support: u32) -> System {
    if attacker_is_alliance {
        System { popularity_empire: support, ..sys }
    } else {
        System { popularity_alliance: support, ..sys }
    }
}

/// What an ordered strike adds to the log.
pub open spec fn ordered_strike_notes(
    campaign: Campaign,
    system: SystemKey,
    damage: i32,
    headquarters_destroyed: bool,
) -> Seq<Note> {
    let hit = seq![
        campaign.today(
            "Orbital bombardment — "@ + signed(damage as int) + " damage"@,
            MessageCategory::Combat,
        ),
    ];
    if headquarters_destroyed {
        hit.push(
            campaign.today(
                "Alliance headquarters destroyed at "@ + system_name(
                    campaign.world,
                    system,
                    "Unknown"@,
                ),
                MessageCategory::Combat,
            ),
        )
    } else {
        hit
    }
}

impl Campaign {
    /// Fires the superlaser at a system, if it can fire. Everything there is
    /// gone, and each death is told before the destruction is.
    pub fn fire_death_star(&mut self, system: SystemKey)
        ensures
            fired(*old(self), *final(self), system),
    {
        if DeathStarSystem::fire(&self.death_star, &self.world, system, self.tick).is_none() {
            return;
        }
        let last: String = join2(
            name_system(&self.world, system, "Unknown"),
            " DESTROYED by Death Star superlaser!",
        );
        if let Some(sys) = self.world.systems.get_mut(system) {
            sys.is_destroyed = true;
        }
        let ghost doomed = self.world;
        assert(marked_destroyed(old(self).world, doomed, system));
        self.death_star_location = Some(system);
        let mut effects: Vec<GameEffect> = Vec::new();
        cleanup_destroyed_system(
            &mut self.world,
            system,
            &mut self.movement,
            &mut self.death_star,
            &mut self.queues,
            &mut self.blockade,
            &mut effects,
        );
        let ghost news = obituaries(doomed, system);
        assert(effects@ =~= news);
        let ghost cleared = *self;
        let ghost f = death_line(*old(self), self.world, news);
        let ghost said = self.log@;
        assert(said + Seq::<Note>::empty() =~= said);
        for i in 0..effects.len()
            invariant
                effects@ == news,
                *self == (Campaign { log: self.log, ..cleared }),
                cleared.tick == old(self).tick,
                f == death_line(*old(self), self.world, news),
                self.log@ == said + collect(i as nat, f),
        {
            let ghost sofar = collect(i as nat, f);
            match effects[i] {
                GameEffect::CharacterKilled { character } => {
                    if let Some(c) = self.world.characters.get(character) {
                        let text: String = join2(c.name.as_str(), " has been killed.");
                        let ghost line = self.today(text@, MessageCategory::Event);
                        self.tell(text, MessageCategory::Event);
                        assert(self.log@ =~= said + sofar.push(line));
                    }
                },
            }
        }
        self.tell(last, MessageCategory::Combat);
        assert(self.log@ =~= old(self).log@ + destruction_notes(
            *old(self),
            doomed,
            self.world,
            system,
        ));
        assert(system_shot(*old(self), doomed, *self, system));
    }

    /// Orders the Death Star to a system. The move that is to be made comes
    /// back.
    pub fn move_death_star(&mut self, system: SystemKey) -> (order: Option<
        (FleetKey, SystemKey, SystemKey),
    >)
        ensures
            order == death_star_move(*old(self), system),
            old(self).said(*final(self), death_star_move_notes(*old(self))),
    {
        let ghost before = self.log@;
        assert(before + Seq::<Note>::empty() =~= before);
        if let Some(fleet_key) = self.death_star.death_star_fleet {
            if self.movement.is_in_transit(fleet_key) {
                self.tell(
                    text_from("Death Star fleet is already in transit"),
                    MessageCategory::Event,
                );
            } else if let Some(fleet) = self.world.fleets.get(fleet_key) {
                if fleet.location != system {
                    return Some((fleet_key, fleet.location, system));
                }
            }
        }
        None
    }

    /// Tells that the Death Star has departed.
    pub fn death_star_departed(&mut self, system: SystemKey, days: u32)
        ensures
            old(self).said(
                *final(self),
                seq![
                    old(self).today(
                        "Death Star fleet moving to "@ + system_name(
                            old(self).world,
                            system,
                            "Unknown"@,
                        ) + " ("@ + decimal(days as nat) + " days)"@,
                        MessageCategory::Event,
                    ),
                ],
            ),
    {
        let count: String = number(days as u64);
        let text: String = join5(
            "Death Star fleet moving to ",
            name_system(&self.world, system, "Unknown"),
            " (",
            count.as_str(),
            " days)",
        );
        self.tell(text, MessageCategory::Event);
    }

    /// Works out an ordered bombardment.
    pub fn order_bombardment(&self, fleet: FleetKey, system: SystemKey) -> (strike: Option<
        (Faction, BombardmentResult),
    >)
        requires
            strike_ready(self.world, fleet, system),
        ensures
            strike_ordered(self.world, fleet, system, self.tick, strike),
    {
        automatic_bombardment(&self.world, fleet, system, self.tick)
    }

    /// Settles an ordered bombardment: the struck side's support becomes
    /// `support`, and the strike is told.
    pub fn settle_bombardment(
        &mut self,
        system: SystemKey,
        attacker_is_alliance: bool,
        damage: i32,
        support: u32,
        headquarters_destroyed: bool,
    )
        ensures
            *final(self) == (Campaign {
                world: final(self).world,
                log: final(self).log,
                ..*old(self)
            }),
            final(self).world == (GameWorld {
                systems: final(self).world.systems,
                ..old(self).world
            }),
            final(self).world.systems@ == if old(self).world.systems.has(system) {
                old(self).world.systems@.update(
                    system.slot as int,
                    Some(
                        support_after_strike(
                            old(self).world.systems.at(system),
                            attacker_is_alliance,
                            support,
                        ),
                    ),
                )
            } else {
                old(self).world.systems@
            },
            final(self).log@ == old(self).log@ + ordered_strike_notes(
                *old(self),
                system,
                damage,
                headquarters_destroyed,
            ),
    {
        if let Some(sys) = self.world.systems.get_mut(system) {
            if attacker_is_alliance {
                sys.popularity_empire = support;
            } else {
                sys.popularity_alliance = support;
            }
        }
        let points: String = signed_number(damage);
        self.tell(
            join3("Orbital bombardment — ", points.as_str(), " damage"),
            MessageCategory::Combat,
        );
        if headquarters_destroyed {
            let text: String = join2(
                "Alliance headquarters destroyed at ",
                name_system(&self.world, system, "Unknown"),
            );
            self.tell(text, MessageCategory::Combat);
        }
        assert(self.log@ =~= old(self).log@ + ordered_strike_notes(
            *old(self),
            system,
            damage,
            headquarters_destroyed,
        ));
    }
}

/// A second shot at the same system does nothing: it is destroyed already.
pub proof fn law_no_second_shot(
    before: Campaign,
    after: Campaign,
    again: Campaign,
    system: SystemKey,
)
    requires
        can_fire(before.death_star, before.world, system),
        fired(before, after, system),
        fired(after, again, system),
    ensures
        again == after,
{
    let doomed = choose|doomed: GameWorld| #[trigger] system_shot(before, doomed, after, system);
    assert(system_shot(before, doomed, after, system));
    assert(doomed.systems.at(system).is_destroyed);
    assert(after.world.systems.at(system).is_destroyed);
}

} // verus!
