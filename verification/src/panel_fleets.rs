//! The player's orders to fleets and officers.

use crate::arena::{change_one, changed, copy_keys, lemma_changed_next, occupied, without};
use crate::campaign::Campaign;
use crate::ids::{CharacterKey, FighterKey, FleetKey};
use crate::messages::MessageCategory;
use crate::mission_effects::{drop_character, without_character};
use crate::movement::{in_transit, orders_of_others};
use crate::tactical::{entry_of, leave_orbit, left_orbit};
use crate::text::{join2, text_from};
use crate::world::{Character, FighterEntry, Fleet, GameWorld, ShipInstance};
use vstd::prelude::*;
use vstd::string::*;

verus! {

/// A list of characters joined by the first `n` others, each once.
pub open spec fn joined(list: Seq<CharacterKey>, more: Seq<CharacterKey>, n: nat) -> Seq<
    CharacterKey,
>
    decreases n,
{
    if n == 0 {
        list
    } else {
        let before = joined(list, more, (n - 1) as nat);
        if before.contains(more[n - 1]) {
            before
        } else {
            before.push(more[n - 1])
        }
    }
}

/// Adds characters to a list, each once.
fn join_characters(list: &mut Vec<CharacterKey>, more: &Vec<CharacterKey>)
    ensures
        final(list)@ == joined(old(list)@, more@, more@.len()),
{
    let ghost before = list@;
    for n in 0..more.len()
        invariant
            list@ == joined(before, more@, n as nat),
    {
        if !listed(list, more[n]) {
            list.push(more[n]);
        }
    }
}

/// Whether a character is in a list.
fn listed(list: &Vec<CharacterKey>, key: CharacterKey) -> (found: bool)
    ensures
        found == list@.contains(key),
{
    for i in 0..list.len()
        invariant
            forall|j: int| 0 <= j < i ==> list@[j] != key,
    {
        if list[i] == key {
            assert(list@[i as int] == key);
            return true;
        }
    }
    false
}

/// Whether `after` is `before` with the roster of one fleet replaced, if that
/// fleet lives.
pub open spec fn roster_set(
    before: Seq<Option<Fleet>>,
    after: Seq<Option<Fleet>>,
    fleet: FleetKey,
    roster: Seq<CharacterKey>,
) -> bool {
    let slot = fleet.slot as int;
    if occupied(before, slot) {
        &&& after.len() == before.len()
        &&& after[slot] is Some
        &&& after == before.update(slot, after[slot])
        &&& (after[slot]->0).characters@ == roster
        &&& after[slot]->0 == (Fleet { characters: (after[slot]->0).characters, ..before[slot]->0 })
    } else {
        after == before
    }
}

/// The characters after one of them, if it lives, was posted to a fleet or to
/// none.
pub open spec fn posted(
    slots: Seq<Option<Character>>,
    character: CharacterKey,
    fleet: Option<FleetKey>,
) -> Seq<Option<Character>> {
    let slot = character.slot as int;
    if occupied(slots, slot) {
        slots.update(slot, Some(Character { current_fleet: fleet, ..slots[slot]->0 }))
    } else {
        slots
    }
}

/// Whether `after` is the campaign `before` once a fleet's roster was changed
/// and a character posted, with a message if the character lives.
pub open spec fn reposted(
    before: Campaign,
    after: Campaign,
    character: CharacterKey,
    fleet: FleetKey,
    roster: Seq<CharacterKey>,
    post: Option<FleetKey>,
    news: Seq<char>,
) -> bool {
    &&& after == (Campaign { world: after.world, log: after.log, ..before })
    &&& after.world == (GameWorld {
        fleets: after.world.fleets,
        characters: after.world.characters,
        ..before.world
    })
    &&& roster_set(before.world.fleets@, after.world.fleets@, fleet, roster)
    &&& after.world.characters@ == posted(before.world.characters@, character, post)
    &&& after.log@ == if before.world.characters.has(character) {
        before.log@.push(
            before.today(
                before.world.characters.at(character).name@ + news,
                MessageCategory::Event,
            ),
        )
    } else {
        before.log@
    }
}

/// Whether `after` is `before` once a character was assigned to a fleet.
pub open spec fn assigned(
    before: Campaign,
    after: Campaign,
    character: CharacterKey,
    fleet: FleetKey,
) -> bool {
    reposted(
        before,
        after,
        character,
        fleet,
        joined(before.world.fleets.at(fleet).characters@, seq![character], 1),
        Some(fleet),
        " assigned to fleet"@,
    )
}

/// Whether `after` is `before` once a character was taken off a fleet.
pub open spec fn unassigned(
    before: Campaign,
    after: Campaign,
    character: CharacterKey,
    fleet: FleetKey,
) -> bool {
    reposted(
        before,
        after,
        character,
        fleet,
        without_character(before.world.fleets.at(fleet).characters@, character),
        None,
        " removed from fleet"@,
    )
}

// ---- Merging ---------------------------------------------------------------

/// The fighters of a fleet once the first `n` entries of another joined:
/// classes that are there already grow, others are added.
pub open spec fn pooled(into: Seq<FighterEntry>, from: Seq<FighterEntry>, n: nat) -> Seq<
    FighterEntry,
>
    decreases n,
{
    if n == 0 {
        into
    } else {
        let before = pooled(into, from, (n - 1) as nat);
        let entry = from[n - 1];
        match entry_of(before, entry.class, 0) {
            Some(k) => before.update(
                k as int,
                FighterEntry {
                    count: (before[k as int].count + entry.count) as u32,
                    ..before[k as int]
                },
            ),
            None => before.push(entry),
        }
    }
}

/// Whether no count overflows while fighters are pooled.
pub open spec fn pool_fits(into: Seq<FighterEntry>, from: Seq<FighterEntry>) -> bool {
    forall|n: nat| #![trigger pooled(into, from, n)]
        n < from.len() ==> match entry_of(pooled(into, from, n), from[n as int].class, 0) {
            Some(k) => pooled(into, from, n)[k as int].count + from[n as int].count <= u32::MAX,
            None => true,
        }
}

/// A character posted to a fleet.
pub open spec fn at_post(fleet: FleetKey) -> spec_fn(Character) -> Character {
    |c: Character| Character { current_fleet: Some(fleet), ..c }
}

/// The characters after all listed ones were posted to a fleet.
pub open spec fn all_posted(
    slots: Seq<Option<Character>>,
    list: Seq<CharacterKey>,
    fleet: FleetKey,
) -> Seq<Option<Character>> {
    changed(slots, list, at_post(fleet))
}

/// Whether `after` is the fleet `into` once `from` joined it.
pub open spec fn united(into: Fleet, from: Fleet, after: Fleet) -> bool {
    &&& after.location == into.location
    &&& after.is_alliance == into.is_alliance
    &&& after.capital_ships@ == into.capital_ships@ + from.capital_ships@
    &&& after.fighters@ == pooled(into.fighters@, from.fighters@, from.fighters@.len())
    &&& after.characters@ == joined(into.characters@, from.characters@, from.characters@.len())
    &&& after.has_death_star == (into.has_death_star || from.has_death_star)
}

/// Whether two fleets can merge: both live, and neither is under way.
pub open spec fn can_merge(campaign: Campaign, fleet_a: FleetKey, fleet_b: FleetKey) -> bool {
    &&& campaign.world.fleets.has(fleet_a)
    &&& campaign.world.fleets.has(fleet_b)
    &&& !in_transit(campaign.movement.orders@, fleet_a)
    &&& !in_transit(campaign.movement.orders@, fleet_b)
}

/// Whether `after` are the fleets once the second joined the first, which is
/// the joint fleet `one`.
pub open spec fn fleets_merged(
    before: Seq<Option<Fleet>>,
    after: Seq<Option<Fleet>>,
    fleet_a: FleetKey,
    fleet_b: FleetKey,
    one: Fleet,
) -> bool {
    let a = fleet_a.slot as int;
    let b = fleet_b.slot as int;
    &&& united(before[a]->0, before[b]->0, one)
    &&& after == without(before.update(a, Some(one)), b as nat)
}

/// Whether `after` is `before` once the order to merge two fleets was carried
/// out. The message comes in any case.
pub open spec fn merged(
    before: Campaign,
    after: Campaign,
    fleet_a: FleetKey,
    fleet_b: FleetKey,
) -> bool {
    &&& after.log@ == before.log@.push(before.today("Fleets merged"@, MessageCategory::Event))
    &&& if can_merge(before, fleet_a, fleet_b) {
        &&& after == (Campaign {
            world: after.world,
            movement: after.movement,
            log: after.log,
            ..before
        })
        &&& after.movement.orders@ == orders_of_others(before.movement.orders@, fleet_b)
        &&& after.world == (GameWorld {
            fleets: after.world.fleets,
            characters: after.world.characters,
            systems: after.world.systems,
            ..before.world
        })
        &&& exists|one: Fleet| #[trigger]
            fleets_merged(before.world.fleets@, after.world.fleets@, fleet_a, fleet_b, one)
        &&& after.world.characters@ == all_posted(
            before.world.characters@,
            before.world.fleets.at(fleet_b).characters@,
            fleet_a,
        )
        &&& left_orbit(
            before.world.systems@,
            after.world.systems@,
            before.world.fleets.at(fleet_b).location,
            fleet_b,
        )
    } else {
        after == (Campaign { log: after.log, ..before })
    }
}

/// Adds fighters to a fleet's.
fn pool_fighters(into: &mut Vec<FighterEntry>, from: &Vec<FighterEntry>)
    requires
        pool_fits(old(into)@, from@),
    ensures
        final(into)@ == pooled(old(into)@, from@, from@.len()),
{
    let ghost start = into@;
    for n in 0..from.len()
        invariant
            pool_fits(start, from@),
            into@ == pooled(start, from@, n as nat),
    {
        let entry: FighterEntry = from[n];
        let ghost now = into@;
        assert(now == pooled(start, from@, n as nat));
        match find_entry(into, entry.class) {
            Some(k) => {
                into[k].count = into[k].count + entry.count;
                assert(into@ =~= pooled(start, from@, (n + 1) as nat));
            },
            None => {
                into.push(entry);
            },
        }
    }
}

/// Where the entry of a class stands.
fn find_entry(entries: &Vec<FighterEntry>, class: FighterKey) -> (found: Option<usize>)
    ensures
        match (found, entry_of(entries@, class, 0)) {
            (Some(k), Some(j)) => k == j && k < entries@.len(),
            (None, None) => true,
            _ => false,
        },
{
    for i in 0..entries.len()
        invariant
            entry_of(entries@, class, 0) == entry_of(entries@, class, i as nat),
    {
        if entries[i].class == class {
            return Some(i);
        }
    }
    None
}

/// Posts one character.
fn repost(world: &mut GameWorld, character: CharacterKey, fleet: Option<FleetKey>)
    ensures
        final(world).characters@ == posted(old(world).characters@, character, fleet),
        *final(world) == (GameWorld { characters: final(world).characters, ..*old(world) }),
{
    if let Some(c) = world.characters.get_mut(character) {
        c.current_fleet = fleet;
    }
}

/// Posts all listed characters to a fleet.
fn post_all(world: &mut GameWorld, list: &Vec<CharacterKey>, fleet: FleetKey)
    ensures
        final(world).characters@ == all_posted(old(world).characters@, list@, fleet),
        *final(world) == (GameWorld { characters: final(world).characters, ..*old(world) }),
{
    let ghost slots = world.characters@;
    assert(changed(slots, list@.take(0), at_post(fleet)) =~= slots);
    for v in 0..list.len()
        invariant
            world.characters@ == all_posted(slots, list@.take(v as int), fleet),
            *world == (GameWorld { characters: world.characters, ..*old(world) }),
    {
        let ghost now = world.characters@;
        repost(world, list[v], Some(fleet));
        assert(world.characters@ == change_one(now, list@[v as int].slot as int, at_post(fleet)));
        proof {
            lemma_changed_next(slots, list@, v as int, at_post(fleet));
        }
    }
    assert(list@.take(list@.len() as int) =~= list@);
}

/// Appends one list to another.
fn append_all<T: Copy>(list: &mut Vec<T>, more: &Vec<T>)
    ensures
        final(list)@ == old(list)@ + more@,
{
    let ghost before = list@;
    for i in 0..more.len()
        invariant
            list@ == before + more@.take(i as int),
    {
        list.push(more[i]);
        assert(list@ =~= before + more@.take(i + 1));
    }
    assert(list@ =~= before + more@);
}

impl Campaign {
    /// Assigns a character to a fleet. Neither need live for the other to be
    /// told.
    pub fn assign_character(&mut self, character: CharacterKey, fleet: FleetKey)
        ensures
            assigned(*old(self), *final(self), character, fleet),
    {
        if let Some(f) = self.world.fleets.get_mut(fleet) {
            let ghost before = f.characters@;
            if !listed(&f.characters, character) {
                f.characters.push(character);
            }
            proof {
                reveal_with_fuel(joined, 2);
                assert(f.characters@ =~= joined(before, seq![character], 1));
            }
        }
        self.post(character, Some(fleet), " assigned to fleet");
    }

    /// Takes a character off a fleet.
    pub fn remove_character(&mut self, character: CharacterKey, fleet: FleetKey)
        ensures
            unassigned(*old(self), *final(self), character, fleet),
    {
        if let Some(f) = self.world.fleets.get_mut(fleet) {
            let rest: Vec<CharacterKey> = drop_character(&f.characters, character);
            f.characters = rest;
        }
        self.post(character, None, " removed from fleet");
    }

    /// Posts a character and tells of it.
    fn post(&mut self, character: CharacterKey, fleet: Option<FleetKey>, news: &str)
        ensures
            *final(self) == (Campaign {
                world: final(self).world,
                log: final(self).log,
                ..*old(self)
            }),
            final(self).world == (GameWorld {
                characters: final(self).world.characters,
                ..old(self).world
            }),
            final(self).world.characters@ == posted(old(self).world.characters@, character, fleet),
            final(self).log@ == if old(self).world.characters.has(character) {
                old(self).log@.push(
                    old(self).today(
                        old(self).world.characters.at(character).name@ + news@,
                        MessageCategory::Event,
                    ),
                )
            } else {
                old(self).log@
            },
    {
        if let Some(c) = self.world.characters.get_mut(character) {
            c.current_fleet = fleet;
            let text: String = join2(c.name.as_str(), news);
            self.log.say(self.tick, text, MessageCategory::Event);
        }
    }

    /// Merges the second fleet into the first, if both live and neither is
    /// under way. Its cargo is to be handed over in that case.
    pub fn merge_fleets(&mut self, fleet_a: FleetKey, fleet_b: FleetKey) -> (done: bool)
        requires
            can_merge(*old(self), fleet_a, fleet_b) ==> pool_fits(
                old(self).world.fleets.at(fleet_a).fighters@,
                old(self).world.fleets.at(fleet_b).fighters@,
            ),
        ensures
            done == can_merge(*old(self), fleet_a, fleet_b),
            merged(*old(self), *final(self), fleet_a, fleet_b),
    {
        let free: bool = self.world.fleets.contains_key(fleet_a)
            && self.world.fleets.contains_key(fleet_b) && !self.movement.is_in_transit(fleet_a)
            && !self.movement.is_in_transit(fleet_b);
        if free {
            let ghost start = self.world;
            let source: &Fleet = self.world.fleets.at_key(fleet_b);
            let ghost from = *source;
            let ghost into = start.fleets.at(fleet_a);
            let mut ships: Vec<ShipInstance> = Vec::new();
            append_all(&mut ships, &source.capital_ships);
            let mut fighters: Vec<FighterEntry> = Vec::new();
            append_all(&mut fighters, &source.fighters);
            let people: Vec<CharacterKey> = copy_keys(&source.characters);
            let carries: bool = source.has_death_star;
            let place = source.location;
            assert(ships@ =~= from.capital_ships@);
            assert(fighters@ =~= from.fighters@);
            let ghost mut one: Fleet = into;
            if let Some(dest) = self.world.fleets.get_mut(fleet_a) {
                append_all(&mut dest.capital_ships, &ships);
                pool_fighters(&mut dest.fighters, &fighters);
                join_characters(&mut dest.characters, &people);
                if carries {
                    dest.has_death_star = true;
                }
                proof {
                    one = *dest;
                }
            }
            post_all(&mut self.world, &people, fleet_a);
            self.movement.cancel(fleet_b);
            leave_orbit(&mut self.world, place, fleet_b);
            let _ = self.world.fleets.remove(fleet_b);
            assert(fleets_merged(start.fleets@, self.world.fleets@, fleet_a, fleet_b, one));
        }
        self.log.say(self.tick, text_from("Fleets merged"), MessageCategory::Event);
        free
    }
}

// ---- Laws ------------------------------------------------------------------

/// Joining a list adds nobody twice and loses nobody.
pub proof fn law_joined_lists(list: Seq<CharacterKey>, more: Seq<CharacterKey>, who: CharacterKey)
    ensures
        joined(list, more, more.len()).contains(who) == (list.contains(who) || more.contains(who)),
        list.no_duplicates() ==> joined(list, more, more.len()).no_duplicates(),
{
    lemma_joined(list, more, more.len(), who);
    assert(more.take(more.len() as int) =~= more);
}

proof fn lemma_joined(list: Seq<CharacterKey>, more: Seq<CharacterKey>, n: nat, who: CharacterKey)
    requires
        n <= more.len(),
    ensures
        joined(list, more, n).contains(who) == (list.contains(who) || more.take(n as int).contains(
            who,
        )),
        list.no_duplicates() ==> joined(list, more, n).no_duplicates(),
    decreases n,
{
    if n > 0 {
        lemma_joined(list, more, (n - 1) as nat, who);
        let before = joined(list, more, (n - 1) as nat);
        let next = more[n - 1];
        assert(more.take(n as int) =~= more.take(n - 1).push(next));
        lemma_push_contains(more.take(n - 1), next, who);
        if !before.contains(next) {
            lemma_push_contains(before, next, who);
        }
    } else {
        assert(more.take(0) =~= Seq::empty());
    }
}

proof fn lemma_push_contains(list: Seq<CharacterKey>, next: CharacterKey, who: CharacterKey)
    ensures
        list.push(next).contains(who) == (list.contains(who) || who == next),
{
    let longer = list.push(next);
    if list.contains(who) {
        let k = choose|k: int| 0 <= k < list.len() && list[k] == who;
        assert(longer[k] == who);
    }
    if who == next {
        assert(longer[list.len() as int] == who);
    }
    if longer.contains(who) {
        let k = choose|k: int| 0 <= k < longer.len() && longer[k] == who;
        if k < list.len() {
            assert(list[k] == who);
        }
    }
}

/// Merging keeps every squadron: the joint fleet has as many of each class as
/// both fleets had together.
pub proof fn law_merging_keeps_squadrons(
    into: Seq<FighterEntry>,
    from: Seq<FighterEntry>,
    class: FighterKey,
)
    requires
        pool_fits(into, from),
    ensures
        squadrons(pooled(into, from, from.len()), class) == squadrons(into, class) + squadrons(
            from,
            class,
        ),
{
    lemma_pooled(into, from, from.len(), class);
    assert(from.take(from.len() as int) =~= from);
}

/// The squadrons of a class in a list.
pub open spec fn squadrons(entries: Seq<FighterEntry>, class: FighterKey) -> nat
    decreases entries.len(),
{
    if entries.len() == 0 {
        0
    } else {
        squadrons(entries.drop_last(), class) + if entries.last().class == class {
            entries.last().count as nat
        } else {
            0
        }
    }
}

proof fn lemma_entry_found(entries: Seq<FighterEntry>, class: FighterKey, from: nat)
    ensures
        entry_of(entries, class, from) matches Some(k) ==> from <= k < entries.len()
            && entries[k as int].class == class,
    decreases entries.len() - from,
{
    if from < entries.len() && entries[from as int].class != class {
        lemma_entry_found(entries, class, from + 1);
    }
}

proof fn lemma_squadrons_update(
    entries: Seq<FighterEntry>,
    k: int,
    more: nat,
    class: FighterKey,
)
    requires
        0 <= k < entries.len(),
        entries[k].count + more <= u32::MAX,
    ensures
        squadrons(
            entries.update(
                k,
                FighterEntry { count: (entries[k].count + more) as u32, ..entries[k] },
            ),
            class,
        ) == squadrons(entries, class) + if entries[k].class == class {
            more
        } else {
            0
        },
    decreases entries.len(),
{
    let grown = entries.update(
        k,
        FighterEntry { count: (entries[k].count + more) as u32, ..entries[k] },
    );
    if k == entries.len() - 1 {
        assert(grown.drop_last() =~= entries.drop_last());
    } else {
        lemma_squadrons_update(entries.drop_last(), k, more, class);
        assert(grown.drop_last() =~= entries.drop_last().update(
            k,
            FighterEntry { count: (entries[k].count + more) as u32, ..entries[k] },
        ));
    }
}

proof fn lemma_pooled(
    into: Seq<FighterEntry>,
    from: Seq<FighterEntry>,
    n: nat,
    class: FighterKey,
)
    requires
        pool_fits(into, from),
        n <= from.len(),
    ensures
        squadrons(pooled(into, from, n), class) == squadrons(into, class) + squadrons(
            from.take(n as int),
            class,
        ),
    decreases n,
{
    if n > 0 {
        let m = (n - 1) as nat;
        lemma_pooled(into, from, m, class);
        let before = pooled(into, from, m);
        let entry = from[n - 1];
        assert(from.take(n as int).drop_last() =~= from.take(n - 1));
        assert(from.take(n as int).last() == entry);
        lemma_entry_found(before, entry.class, 0);
        match entry_of(before, entry.class, 0) {
            Some(k) => {
                lemma_squadrons_update(before, k as int, entry.count as nat, class);
            },
            None => {
                assert(before.push(entry).drop_last() =~= before);
            },
        }
    } else {
        assert(from.take(0) =~= Seq::empty());
        assert(squadrons(Seq::<FighterEntry>::empty(), class) == 0);
    }
}

} // verus!
