//! Reports that the player asks for.

use crate::arena::living;
use crate::campaign::Campaign;
use crate::dat::Faction;
use crate::ids::{CharacterKey, SystemKey};
use crate::messages::{
    character_name, kind_word, name_character, name_system, side_word, system_name, word_kind,
    word_side, MessageCategory, Note,
};
use crate::missions::MissionKind;
use crate::select::{collect, lemma_total_monotone, tally, total};
use crate::text::{decimal, join2, join3, join4, join5, number, text_from};
use crate::world::{alive_ships, ControlKind, Fleet, GameWorld, System};
use vstd::prelude::*;
use vstd::string::*;

verus! {

/// A mission under way.
#[derive(Debug, Clone, Copy, PartialEq, Eq, Structural)]
pub struct ActiveMission {
    pub kind: MissionKind,
    pub character: CharacterKey,
    pub target_system: SystemKey,
}

// ---- Statistics ------------------------------------------------------------

/// Whether a slot holds a system of a faction.
pub open spec fn held(slots: Seq<Option<System>>, faction: Faction) -> spec_fn(int) -> bool {
    |i: int| slots[i] is Some && (slots[i]->0).control.held_by(faction)
}

/// How many systems a faction holds.
pub open spec fn holdings(world: GameWorld, faction: Faction) -> nat {
    tally(world.systems@.len(), held(world.systems@, faction))
}

/// Counts the systems of a faction.
pub fn count_systems(world: &GameWorld, faction: Faction) -> (count: usize)
    ensures
        count == holdings(*world, faction),
{
    let ghost f = held(world.systems@, faction);
    let slots: usize = world.systems.slot_count();
    let mut count: usize = 0;
    for i in 0..slots
        invariant
            slots == world.systems@.len(),
            f == held(world.systems@, faction),
            count <= i,
            count == tally(i as nat, f),
    {
        if let Some(sys) = world.systems.slot(i) {
            if sys.control.is_controlled_by(faction) {
                count = count + 1;
            }
        }
    }
    count
}

/// The line of statistics.
pub open spec fn stats_text(campaign: Campaign) -> Seq<char> {
    let world = campaign.world;
    "Stats: tick "@ + decimal(campaign.tick as nat) + ", Alliance "@ + decimal(
        holdings(world, Faction::Alliance),
    ) + " systems, Empire "@ + decimal(holdings(world, Faction::Empire)) + " systems, "@ + decimal(
        living(world.fleets@, world.fleets@.len()),
    ) + " fleets, "@ + decimal(living(world.characters@, world.characters@.len()))
        + " characters"@
}

// ---- Fleets ----------------------------------------------------------------

/// The squadrons of the `i`th entry of a fleet.
pub open spec fn squads_of(fleet: Fleet) -> spec_fn(int) -> int {
    |i: int| fleet.fighters@[i].count as int
}

/// The living ships and the squadrons of a fleet.
pub open spec fn fleet_size(fleet: Fleet) -> int {
    alive_ships(fleet.capital_ships@, fleet.capital_ships@.len()) + total(
        fleet.fighters@.len(),
        squads_of(fleet),
    )
}

/// Whether every fleet can be counted.
pub open spec fn fleets_countable(world: GameWorld) -> bool {
    forall|s: int|
        0 <= s < world.fleets@.len() && (#[trigger] world.fleets@[s]) is Some ==> fleet_size(
            world.fleets@[s]->0,
        ) <= usize::MAX
}

/// The line about a fleet.
pub open spec fn fleet_text(world: GameWorld, fleet: Fleet) -> Seq<char> {
    "  "@ + side_word(fleet.is_alliance) + " fleet at "@ + system_name(
        world,
        fleet.location,
        "unknown"@,
    ) + " — "@ + decimal(fleet_size(fleet) as nat) + " ships"@
}

/// The line about the fleet in slot `i`, if one lives there.
pub open spec fn fleet_line(campaign: Campaign) -> spec_fn(int) -> Option<Note> {
    |i: int|
        match campaign.world.fleets@[i] {
            Some(fleet) => Some(
                campaign.today(fleet_text(campaign.world, fleet), MessageCategory::Event),
            ),
            None => None,
        }
}

/// The list of fleets.
pub open spec fn fleet_notes(campaign: Campaign) -> Seq<Note> {
    let slots = campaign.world.fleets@;
    seq![
        campaign.today(
            decimal(living(slots, slots.len())) + " fleets:"@,
            MessageCategory::Event,
        ),
    ] + collect(slots.len(), fleet_line(campaign))
}

/// Counts the living ships and the squadrons of a fleet.
pub fn count_fleet(fleet: &Fleet) -> (size: usize)
    requires
        fleet_size(*fleet) <= usize::MAX,
    ensures
        size == fleet_size(*fleet),
{
    let ghost f = squads_of(*fleet);
    let mut size: usize = fleet.ship_count();
    for i in 0..fleet.fighters.len()
        invariant
            f == squads_of(*fleet),
            fleet_size(*fleet) <= usize::MAX,
            size == alive_ships(fleet.capital_ships@, fleet.capital_ships@.len()) + total(
                i as nat,
                f,
            ),
    {
        proof {
            lemma_total_monotone((i + 1) as nat, fleet.fighters@.len(), f);
        }
        size = size + fleet.fighters[i].count as usize;
    }
    size
}

// ---- Missions --------------------------------------------------------------

/// The line about a mission.
pub open spec fn mission_text(world: GameWorld, mission: ActiveMission) -> Seq<char> {
    "  "@ + kind_word(mission.kind) + " — "@ + character_name(world, mission.character, "Unknown"@)
        + " at "@ + system_name(world, mission.target_system, "unknown"@)
}

/// The list of missions.
pub open spec fn mission_notes(campaign: Campaign, missions: Seq<ActiveMission>) -> Seq<Note> {
    if missions.len() == 0 {
        seq![campaign.today("No active missions"@, MessageCategory::Mission)]
    } else {
        seq![
            campaign.today(
                decimal(missions.len()) + " active missions:"@,
                MessageCategory::Mission,
            ),
        ] + Seq::new(
            missions.len(),
            |i: int|
                campaign.today(
                    mission_text(campaign.world, missions[i]),
                    MessageCategory::Mission,
                ),
        )
    }
}

impl Campaign {
    /// Tells where the campaign stands.
    pub fn show_stats(&mut self)
        ensures
            old(self).said(
                *final(self),
                seq![old(self).today(stats_text(*old(self)), MessageCategory::Event)],
            ),
    {
        let tick: String = number(self.tick);
        let alliance: String = number(count_systems(&self.world, Faction::Alliance) as u64);
        let empire: String = number(count_systems(&self.world, Faction::Empire) as u64);
        let fleets: String = number(self.world.fleets.len() as u64);
        let people: String = number(self.world.characters.len() as u64);
        let mut text: String = join5(
            "Stats: tick ",
            tick.as_str(),
            ", Alliance ",
            alliance.as_str(),
            " systems, Empire ",
        );
        text.append(empire.as_str());
        text.append(" systems, ");
        text.append(fleets.as_str());
        text.append(" fleets, ");
        text.append(people.as_str());
        text.append(" characters");
        self.tell(text, MessageCategory::Event);
    }

    /// Lists the fleets.
    pub fn list_fleets(&mut self)
        requires
            fleets_countable(old(self).world),
        ensures
            old(self).said(*final(self), fleet_notes(*old(self))),
    {
        let count: String = number(self.world.fleets.len() as u64);
        self.tell(join2(count.as_str(), " fleets:"), MessageCategory::Event);
        let ghost f = fleet_line(*old(self));
        let ghost first = self.log@;
        assert(first + Seq::<Note>::empty() =~= first);
        let slots: usize = self.world.fleets.slot_count();
        for i in 0..slots
            invariant
                slots == self.world.fleets@.len(),
                *self == (Campaign { log: self.log, ..*old(self) }),
                fleets_countable(self.world),
                f == fleet_line(*old(self)),
                self.log@ == first + collect(i as nat, f),
        {
            let ghost sofar = collect(i as nat, f);
            if let Some(fleet) = self.world.fleets.slot(i) {
                assert(self.world.fleets@[i as int] is Some);
                let size: String = number(count_fleet(fleet) as u64);
                let mut text: String = join5(
                    "  ",
                    word_side(fleet.is_alliance),
                    " fleet at ",
                    name_system(&self.world, fleet.location, "unknown"),
                    " — ",
                );
                text.append(size.as_str());
                text.append(" ships");
                let ghost line = self.today(text@, MessageCategory::Event);
                self.tell(text, MessageCategory::Event);
                assert(self.log@ =~= first + sofar.push(line));
            }
        }
        assert(self.log@ =~= old(self).log@ + fleet_notes(*old(self)));
    }

    /// Lists the missions under way.
    pub fn list_missions(&mut self, missions: &Vec<ActiveMission>)
        ensures
            old(self).said(*final(self), mission_notes(*old(self), missions@)),
    {
        if missions.len() == 0 {
            self.tell(text_from("No active missions"), MessageCategory::Mission);
            return;
        }
        let count: String = number(missions.len() as u64);
        self.tell(join2(count.as_str(), " active missions:"), MessageCategory::Mission);
        let ghost first = self.log@;
        let ghost lines = Seq::new(
            missions@.len(),
            |i: int|
                old(self).today(
                    mission_text(old(self).world, missions@[i]),
                    MessageCategory::Mission,
                ),
        );
        assert(first + lines.take(0) =~= first);
        for i in 0..missions.len()
            invariant
                *self == (Campaign { log: self.log, ..*old(self) }),
                lines == Seq::new(
                    missions@.len(),
                    |i: int|
                        old(self).today(
                            mission_text(old(self).world, missions@[i]),
                            MessageCategory::Mission,
                        ),
                ),
                self.log@ == first + lines.take(i as int),
        {
            let mission: ActiveMission = missions[i];
            let mut text: String = join4(
                "  ",
                word_kind(mission.kind),
                " — ",
                name_character(&self.world, mission.character, "Unknown"),
            );
            text.append(" at ");
            text.append(name_system(&self.world, mission.target_system, "unknown"));
            let ghost line = self.today(text@, MessageCategory::Mission);
            self.tell(text, MessageCategory::Mission);
            assert(lines.take(i + 1) =~= lines.take(i as int).push(line));
            assert(self.log@ =~= first + lines.take(i + 1));
        }
        assert(lines.take(missions@.len() as int) =~= lines);
        assert(self.log@ =~= old(self).log@ + mission_notes(*old(self), missions@));
    }

    /// Tells how many events there are, and how many have come about.
    pub fn show_event_count(&mut self, defined: usize, fired: usize)
        ensures
            old(self).said(
                *final(self),
                seq![
                    old(self).today(
                        "Events: "@ + decimal(defined as nat) + " defined, "@ + decimal(
                            fired as nat,
                        ) + " fired"@,
                        MessageCategory::Event,
                    ),
                ],
            ),
    {
        let all: String = number(defined as u64);
        let some: String = number(fired as u64);
        let text: String = join5("Events: ", all.as_str(), " defined, ", some.as_str(), " fired");
        self.tell(text, MessageCategory::Event);
    }

    /// Tells what a check for victory found, if anything.
    pub fn show_victory_check(&mut self, outcome: Option<&str>)
        ensures
            old(self).said(
                *final(self),
                seq![
                    old(self).today(
                        match outcome {
                            Some(text) => "Victory check: "@ + text@,
                            None => "Victory check: no winner yet"@,
                        },
                        MessageCategory::Event,
                    ),
                ],
            ),
    {
        let text: String = match outcome {
            Some(found) => join2("Victory check: ", found),
            None => text_from("Victory check: no winner yet"),
        };
        self.tell(text, MessageCategory::Event);
    }

    /// Tells where the log was written.
    pub fn show_export(&mut self, path: &str)
        ensures
            old(self).said(
                *final(self),
                seq![old(self).today("Exported game log to "@ + path@, MessageCategory::Event)],
            ),
    {
        self.tell(join2("Exported game log to ", path), MessageCategory::Event);
    }

    /// Tells how many mods were found.
    pub fn show_mods(&mut self, found: usize)
        ensures
            old(self).said(
                *final(self),
                seq![
                    old(self).today(
                        "Reloaded "@ + decimal(found as nat) + " mods"@,
                        MessageCategory::Event,
                    ),
                ],
            ),
    {
        let count: String = number(found as u64);
        self.tell(join3("Reloaded ", count.as_str(), " mods"), MessageCategory::Event);
    }
}

/// The systems in play are what the two sides hold and what nobody or both
/// hold: no side holds more systems than there are.
pub proof fn law_holdings_bounded(world: GameWorld)
    ensures
        holdings(world, Faction::Alliance) + holdings(world, Faction::Empire) <= living(
            world.systems@,
            world.systems@.len(),
        ),
{
    lemma_holdings(world.systems@, world.systems@.len());
}

proof fn lemma_holdings(slots: Seq<Option<System>>, n: nat)
    requires
        n <= slots.len(),
    ensures
        tally(n, held(slots, Faction::Alliance)) + tally(n, held(slots, Faction::Empire)) <= living(
            slots,
            n,
        ),
    decreases n,
{
    if n > 0 {
        lemma_holdings(slots, (n - 1) as nat);
    }
}

/// A system counts for exactly the faction that holds it.
pub proof fn law_every_holding_counts(
    world: GameWorld,
    larger: GameWorld,
    sys: System,
    faction: Faction,
)
    requires
        larger.systems@ == world.systems@.push(Some(sys)),
    ensures
        holdings(larger, faction) == holdings(world, faction) + if sys.control
            == ControlKind::Controlled(faction) {
            1nat
        } else {
            0nat
        },
        world.systems@.len() == 0 ==> holdings(world, faction) == 0,
{
    crate::select::lemma_tally_same(
        world.systems@.len(),
        held(world.systems@, faction),
        held(larger.systems@, faction),
    );
}

} // verus!
