//! What to draw once before the map is drawn, so that no letter is missing.

use crate::world::{GameWorld, Sector, System};
use std::collections::HashSet;
use vstd::prelude::*;
use vstd::string::*;

verus! {

broadcast use vstd::std_specs::hash::group_hash_axioms;

// ---- Sizes -----------------------------------------------------------------

/// Whether numbers rise from one to the next.
pub open spec fn rising(list: Seq<u16>) -> bool {
    forall|i: int, j: int| 0 <= i < j < list.len() ==> list[i] < list[j]
}

/// Adds a number to a rising list.
fn add_size(list: &mut Vec<u16>, size: u16)
    requires
        rising(old(list)@),
    ensures
        rising(final(list)@),
        forall|x: u16| #[trigger]
            final(list)@.contains(x) == (old(list)@.contains(x) || x == size),
{
    let ghost before = list@;
    let mut at: usize = 0;
    while at < list.len() && list[at] < size
        invariant
            at <= list@.len(),
            list@ == before,
            forall|k: int| 0 <= k < at ==> list@[k] < size,
        decreases list@.len() - at,
    {
        at = at + 1;
    }
    if at < list.len() && list[at] == size {
        assert(before[at as int] == size);
        return;
    }
    list.insert(at, size);
    proof {
        let after = list@;
        assert(after == before.insert(at as int, size));
        assert forall|x: u16| #[trigger] after.contains(x) == (before.contains(x) || x == size) by {
            if before.contains(x) {
                let k = choose|k: int| 0 <= k < before.len() && before[k] == x;
                if k < at {
                    assert(after[k] == x);
                } else {
                    assert(after[k + 1] == x);
                }
            }
            if x == size {
                assert(after[at as int] == x);
            }
            if after.contains(x) {
                let k = choose|k: int| 0 <= k < after.len() && after[k] == x;
                if k < at {
                    assert(before[k] == x);
                } else if k > at {
                    assert(before[k - 1] == x);
                }
            }
        }
    }
}

/// The sizes that were not drawn in before, each once and the smallest first.
/// They count as drawn from now on.
pub fn fresh_sizes(sizes: &Vec<u16>, warmed: &mut HashSet<u16>) -> (fresh: Vec<u16>)
    ensures
        rising(fresh@),
        forall|x: u16| #[trigger]
            fresh@.contains(x) == (sizes@.contains(x) && !old(warmed)@.contains(x)),
        forall|x: u16| #[trigger]
            final(warmed)@.contains(x) == (old(warmed)@.contains(x) || sizes@.contains(x)),
{
    let ghost known = warmed@;
    let mut fresh: Vec<u16> = Vec::new();
    for i in 0..sizes.len()
        invariant
            known == old(warmed)@,
            rising(fresh@),
            forall|x: u16| #[trigger]
                fresh@.contains(x) == (sizes@.take(i as int).contains(x) && !known.contains(x)),
            forall|x: u16| #[trigger]
                warmed@.contains(x) == (known.contains(x) || sizes@.take(i as int).contains(x)),
    {
        let size: u16 = sizes[i];
        let ghost here = sizes@.take(i as int);
        let ghost there = sizes@.take(i + 1);
        proof {
            assert(there == here.push(size));
            assert forall|x: u16| #[trigger] there.contains(x) == (here.contains(x) || x == size) by {
                if here.contains(x) {
                    let k = choose|k: int| 0 <= k < here.len() && here[k] == x;
                    assert(there[k] == x);
                }
                if x == size {
                    assert(there[i as int] == x);
                }
                if there.contains(x) {
                    let k = choose|k: int| 0 <= k < there.len() && there[k] == x;
                    if k < i {
                        assert(here[k] == x);
                    }
                }
            }
        }
        if !warmed.contains(&size) {
            add_size(&mut fresh, size);
            warmed.insert(size);
        }
    }
    assert(sizes@.take(sizes@.len() as int) =~= sizes@);
    fresh
}

// ---- Letters ---------------------------------------------------------------

/// Whether letters rise from one to the next.
pub open spec fn letters_rise(list: Seq<char>) -> bool {
    forall|i: int, j: int| 0 <= i < j < list.len() ==> list[i] < list[j]
}

/// Adds a letter to a rising list.
fn add_letter(list: &mut Vec<char>, letter: char)
    requires
        letters_rise(old(list)@),
    ensures
        letters_rise(final(list)@),
        forall|x: char| #[trigger]
            final(list)@.contains(x) == (old(list)@.contains(x) || x == letter),
{
    let ghost before = list@;
    let mut at: usize = 0;
    while at < list.len() && list[at] < letter
        invariant
            at <= list@.len(),
            list@ == before,
            forall|k: int| 0 <= k < at ==> list@[k] < letter,
        decreases list@.len() - at,
    {
        at = at + 1;
    }
    if at < list.len() && list[at] == letter {
        assert(before[at as int] == letter);
        return;
    }
    list.insert(at, letter);
    proof {
        let after = list@;
        assert(after == before.insert(at as int, letter));
        assert forall|x: char| #[trigger]
            after.contains(x) == (before.contains(x) || x == letter) by {
            if before.contains(x) {
                let k = choose|k: int| 0 <= k < before.len() && before[k] == x;
                if k < at {
                    assert(after[k] == x);
                } else {
                    assert(after[k + 1] == x);
                }
            }
            if x == letter {
                assert(after[at as int] == x);
            }
            if after.contains(x) {
                let k = choose|k: int| 0 <= k < after.len() && after[k] == x;
                if k < at {
                    assert(before[k] == x);
                } else if k > at {
                    assert(before[k - 1] == x);
                }
            }
        }
    }
}

/// Adds the letters of a text to a rising list.
fn add_text(list: &mut Vec<char>, text: &str)
    requires
        letters_rise(old(list)@),
    ensures
        letters_rise(final(list)@),
        forall|x: char| #[trigger]
            final(list)@.contains(x) == (old(list)@.contains(x) || text@.contains(x)),
{
    let ghost before = list@;
    let length: usize = text.unicode_len();
    for i in 0..length
        invariant
            length == text@.len(),
            letters_rise(list@),
            forall|x: char| #[trigger]
                list@.contains(x) == (before.contains(x) || text@.take(i as int).contains(x)),
    {
        let letter: char = text.get_char(i);
        let ghost here = text@.take(i as int);
        let ghost there = text@.take(i + 1);
        proof {
            assert(there == here.push(letter));
            assert forall|x: char| #[trigger]
                there.contains(x) == (here.contains(x) || x == letter) by {
                if here.contains(x) {
                    let k = choose|k: int| 0 <= k < here.len() && here[k] == x;
                    assert(there[k] == x);
                }
                if x == letter {
                    assert(there[i as int] == x);
                }
                if there.contains(x) {
                    let k = choose|k: int| 0 <= k < there.len() && there[k] == x;
                    if k < i {
                        assert(here[k] == x);
                    }
                }
            }
        }
        add_letter(list, letter);
    }
    assert(text@.take(text@.len() as int) =~= text@);
}

/// Whether a letter is in the name of one of the first `n` sectors.
pub open spec fn in_sectors(slots: Seq<Option<Sector>>, n: int, x: char) -> bool {
    exists|i: int|
        0 <= i < n && (#[trigger] slots[i]) is Some && (slots[i]->0).name@.contains(x)
}

/// Whether a letter is in the name of one of the first `n` systems.
pub open spec fn in_systems(slots: Seq<Option<System>>, n: int, x: char) -> bool {
    exists|i: int|
        0 <= i < n && (#[trigger] slots[i]) is Some && (slots[i]->0).name@.contains(x)
}

/// Whether the map can show a letter.
pub open spec fn on_the_map(world: GameWorld, x: char) -> bool {
    ||| "REBEL ALLIANCE — COMMAND CENTER"@.contains(x)
    ||| "GALACTIC EMPIRE — COMMAND BRIDGE"@.contains(x)
    ||| "0123456789d"@.contains(x)
    ||| in_sectors(world.sectors@, world.sectors@.len() as int, x)
    ||| in_systems(world.systems@, world.systems@.len() as int, x)
}

/// Every letter that the map can show, each once and in order.
pub fn map_letters(world: &GameWorld) -> (letters: Vec<char>)
    ensures
        letters_rise(letters@),
        forall|x: char| #[trigger] letters@.contains(x) == on_the_map(*world, x),
{
    let mut letters: Vec<char> = Vec::new();
    add_text(&mut letters, "REBEL ALLIANCE — COMMAND CENTER");
    add_text(&mut letters, "GALACTIC EMPIRE — COMMAND BRIDGE");
    add_text(&mut letters, "0123456789d");
    let ghost fixed = letters@;
    let sectors: usize = world.sectors.slot_count();
    for i in 0..sectors
        invariant
            sectors == world.sectors@.len(),
            letters_rise(letters@),
            forall|x: char| #[trigger]
                letters@.contains(x) == (fixed.contains(x) || in_sectors(
                    world.sectors@,
                    i as int,
                    x,
                )),
    {
        proof {
            assert forall|x: char| #[trigger]
                in_sectors(world.sectors@, i + 1, x) == (in_sectors(world.sectors@, i as int, x)
                    || (world.sectors@[i as int] is Some && (
                world.sectors@[i as int]->0).name@.contains(x))) by {
                if in_sectors(world.sectors@, i as int, x) {
                    let k = choose|k: int|
                        0 <= k < i && (#[trigger] world.sectors@[k]) is Some && (
                        world.sectors@[k]->0).name@.contains(x);
                    assert(world.sectors@[k] is Some);
                }
            }
        }
        if let Some(sector) = world.sectors.slot(i) {
            add_text(&mut letters, sector.name.as_str());
        }
    }
    let ghost sofar = letters@;
    let systems: usize = world.systems.slot_count();
    for i in 0..systems
        invariant
            systems == world.systems@.len(),
            letters_rise(letters@),
            forall|x: char| #[trigger]
                letters@.contains(x) == (sofar.contains(x) || in_systems(
                    world.systems@,
                    i as int,
                    x,
                )),
    {
        proof {
            assert forall|x: char| #[trigger]
                in_systems(world.systems@, i + 1, x) == (in_systems(world.systems@, i as int, x)
                    || (world.systems@[i as int] is Some && (
                world.systems@[i as int]->0).name@.contains(x))) by {
                if in_systems(world.systems@, i as int, x) {
                    let k = choose|k: int|
                        0 <= k < i && (#[trigger] world.systems@[k]) is Some && (
                        world.systems@[k]->0).name@.contains(x);
                    assert(world.systems@[k] is Some);
                }
            }
        }
        if let Some(system) = world.systems.slot(i) {
            add_text(&mut letters, system.name.as_str());
        }
    }
    letters
}

} // verus!
