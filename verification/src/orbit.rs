//! Who meets whom: landings, battles and what decides them.

use crate::arena::living;
use crate::combat::CombatSide;
use crate::dat::Faction;
use crate::ground_campaign::{fighting, ground_forces};
use crate::ids::{FleetKey, SystemKey, TroopKey};
use crate::messages::{name_system, note_at, system_name, MessageCategory, MessageLog};
use crate::missions::MissionFaction;
use crate::panel::{living_system, living_systems};
use crate::select::collect;
use crate::text::{decimal, join2, join3, join4, join5, number};
use crate::world::{GameWorld, System};
use std::collections::{HashMap, HashSet};
use vstd::prelude::*;
use vstd::string::*;

verus! {

broadcast use vstd::std_specs::hash::group_hash_axioms;

/// How many days a system is spared after a battle.
pub const COMBAT_COOLDOWN: u64 = 5;

/// The first fleet of a list, from position `from` on, that lives and is of
/// a side.
pub open spec fn first_of_side(
    world: GameWorld,
    fleets: Seq<FleetKey>,
    side: bool,
    from: nat,
) -> Option<FleetKey>
    decreases fleets.len() - from,
{
    if from >= fleets.len() {
        None
    } else if world.fleets.has(fleets[from as int]) && world.fleets.at(
        fleets[from as int],
    ).is_alliance == side {
        Some(fleets[from as int])
    } else {
        first_of_side(world, fleets, side, from + 1)
    }
}

/// The first fleet of a list that lives and is of a side.
pub fn find_of_side(world: &GameWorld, fleets: &Vec<FleetKey>, side: bool) -> (found: Option<
    FleetKey,
>)
    ensures
        found == first_of_side(*world, fleets@, side, 0),
{
    for i in 0..fleets.len()
        invariant
            first_of_side(*world, fleets@, side, 0) == first_of_side(
                *world,
                fleets@,
                side,
                i as nat,
            ),
    {
        if let Some(fleet) = world.fleets.get(fleets[i]) {
            if fleet.is_alliance == side {
                return Some(fleets[i]);
            }
        }
    }
    None
}

// ---- Landings --------------------------------------------------------------

/// The side that alone has fleets over a system.
pub open spec fn sole_side(world: GameWorld, sys: System) -> Option<bool> {
    match (
        first_of_side(world, sys.fleets@, true, 0),
        first_of_side(world, sys.fleets@, false, 0),
    ) {
        (Some(_), None) => Some(true),
        (None, Some(_)) => Some(false),
        _ => None,
    }
}

/// Whether some fleet over a system carries regiments.
pub open spec fn loaded_over(sys: System, loaded: Seq<FleetKey>) -> bool {
    exists|i: int| 0 <= i < sys.fleets@.len() && loaded.contains(#[trigger] sys.fleets@[i])
}

/// The landing at the system of slot `i`, if one can be made there unopposed.
pub open spec fn landing_at(world: GameWorld, loaded: Seq<FleetKey>) -> spec_fn(int) -> Option<
    (SystemKey, bool),
> {
    |i: int|
        match world.systems@[i] {
            None => None,
            Some(sys) => match sole_side(world, sys) {
                Some(side) => if loaded_over(sys, loaded) {
                    Some((SystemKey { slot: i as usize }, side))
                } else {
                    None
                },
                None => None,
            },
        }
}

/// Whether a fleet is in a list.
fn listed(list: &Vec<FleetKey>, key: FleetKey) -> (found: bool)
    ensures
        found == list@.contains(key),
{
    for i in 0..list.len()
        invariant
            forall|j: int| 0 <= j < i ==> list@[j] != key,
    {
        if list[i] == key {
            assert(list@[i as int] == key);
            return true;
        }
    }
    false
}

/// Whether some fleet over a system carries regiments.
fn carries_over(sys: &System, loaded: &Vec<FleetKey>) -> (found: bool)
    ensures
        found == loaded_over(*sys, loaded@),
{
    for i in 0..sys.fleets.len()
        invariant
            forall|j: int| 0 <= j < i ==> !loaded@.contains(#[trigger] sys.fleets@[j]),
    {
        if listed(loaded, sys.fleets[i]) {
            assert(loaded@.contains(sys.fleets@[i as int]));
            return true;
        }
    }
    false
}

/// Lists the systems where one side alone is in orbit and can land, and that
/// side. `loaded` are the fleets that carry regiments. Contested orbits keep
/// their cargo until a battle decides.
pub fn landing_targets(world: &GameWorld, loaded: &Vec<FleetKey>) -> (targets: Vec<
    (SystemKey, bool),
>)
    ensures
        targets@ == collect(world.systems@.len(), landing_at(*world, loaded@)),
{
    let ghost f = landing_at(*world, loaded@);
    let slots: usize = world.systems.slot_count();
    let mut targets: Vec<(SystemKey, bool)> = Vec::new();
    for i in 0..slots
        invariant
            slots == world.systems@.len(),
            f == landing_at(*world, loaded@),
            targets@ == collect(i as nat, f),
    {
        if let Some(sys) = world.systems.slot(i) {
            let alliance: bool = find_of_side(world, &sys.fleets, true).is_some();
            let empire: bool = find_of_side(world, &sys.fleets, false).is_some();
            if alliance != empire && carries_over(sys, loaded) {
                targets.push((SystemKey { slot: i }, alliance));
            }
        }
    }
    targets
}

/// The first fleet of the Empire, from position `from` on, that carries
/// regiments.
pub open spec fn first_invader(
    world: GameWorld,
    fleets: Seq<FleetKey>,
    loaded: Seq<FleetKey>,
    from: nat,
) -> Option<FleetKey>
    decreases fleets.len() - from,
{
    if from >= fleets.len() {
        None
    } else if world.fleets.has(fleets[from as int]) && !world.fleets.at(
        fleets[from as int],
    ).is_alliance && loaded.contains(fleets[from as int]) {
        Some(fleets[from as int])
    } else {
        first_invader(world, fleets, loaded, from + 1)
    }
}

/// The fleet that bombards the headquarters of the Alliance before a landing
/// there.
pub fn headquarters_bombarder(
    world: &GameWorld,
    loaded: &Vec<FleetKey>,
    system: SystemKey,
    is_alliance: bool,
    alliance_hq: SystemKey,
) -> (fleet: Option<FleetKey>)
    ensures
        fleet == if !is_alliance && system == alliance_hq && world.systems.has(system) {
            first_invader(*world, world.systems.at(system).fleets@, loaded@, 0)
        } else {
            None
        },
{
    if is_alliance || system != alliance_hq {
        return None;
    }
    if let Some(sys) = world.systems.get(system) {
        for i in 0..sys.fleets.len()
            invariant
                *sys == world.systems.at(system),
                first_invader(*world, sys.fleets@, loaded@, 0) == first_invader(
                    *world,
                    sys.fleets@,
                    loaded@,
                    i as nat,
                ),
                world.systems.has(system),
                !is_alliance,
                system == alliance_hq,
        {
            if let Some(fleet) = world.fleets.get(sys.fleets[i]) {
                if !fleet.is_alliance && listed(loaded, sys.fleets[i]) {
                    return Some(sys.fleets[i]);
                }
            }
        }
    }
    None
}

// ---- Battles in orbit ------------------------------------------------------

/// Whether a system is still spared after a battle.
pub open spec fn spared(cooldowns: Map<usize, u64>, slot: int, tick: u64) -> bool {
    cooldowns.contains_key(slot as usize) && tick < cooldowns[slot as usize] + COMBAT_COOLDOWN
        && tick < u64::MAX
}

/// The battle over the system of slot `i`, if both sides are there: the first
/// fleet of the Alliance against the first of the Empire.
pub open spec fn battle_at(world: GameWorld, cooldowns: Map<usize, u64>, tick: u64) -> spec_fn(
    int,
) -> Option<(SystemKey, FleetKey, FleetKey)> {
    |i: int|
        match world.systems@[i] {
            None => None,
            Some(sys) => if spared(cooldowns, i, tick) {
                None
            } else {
                match (
                    first_of_side(world, sys.fleets@, true, 0),
                    first_of_side(world, sys.fleets@, false, 0),
                ) {
                    (Some(alliance), Some(empire)) => Some(
                        (SystemKey { slot: i as usize }, alliance, empire),
                    ),
                    _ => None,
                }
            },
        }
}

/// Lists the battles of a day.
pub fn combat_triggers(world: &GameWorld, cooldowns: &HashMap<usize, u64>, tick: u64) -> (battles: Vec<
    (SystemKey, FleetKey, FleetKey),
>)
    ensures
        battles@ == collect(world.systems@.len(), battle_at(*world, cooldowns@, tick)),
{
    let ghost f = battle_at(*world, cooldowns@, tick);
    let slots: usize = world.systems.slot_count();
    let mut battles: Vec<(SystemKey, FleetKey, FleetKey)> = Vec::new();
    for i in 0..slots
        invariant
            slots == world.systems@.len(),
            f == battle_at(*world, cooldowns@, tick),
            battles@ == collect(i as nat, f),
    {
        if let Some(sys) = world.systems.slot(i) {
            let rests: bool = match cooldowns.get(&i) {
                Some(last) => tick < last.saturating_add(COMBAT_COOLDOWN),
                None => false,
            };
            assert(rests == spared(cooldowns@, i as int, tick));
            if !rests {
                if let Some(alliance) = find_of_side(world, &sys.fleets, true) {
                    if let Some(empire) = find_of_side(world, &sys.fleets, false) {
                        battles.push((SystemKey { slot: i }, alliance, empire));
                    }
                }
            }
        }
    }
    battles
}

/// A system that has just seen a battle sees none for the next days, except
/// on the very last day that a counter holds.
pub proof fn law_battles_pause(world: GameWorld, cooldowns: Map<usize, u64>, tick: u64, slot: int)
    requires
        0 <= slot < world.systems@.len(),
        slot <= usize::MAX,
        cooldowns.contains_key(slot as usize),
        tick < u64::MAX,
        cooldowns[slot as usize] <= tick < cooldowns[slot as usize] + COMBAT_COOLDOWN,
    ensures
        battle_at(world, cooldowns, tick)(slot) is None,
{
}

/// Battles are fought between a living fleet of each side.
pub proof fn law_battles_have_two_sides(
    world: GameWorld,
    cooldowns: Map<usize, u64>,
    tick: u64,
    slot: int,
)
    requires
        battle_at(world, cooldowns, tick)(slot) is Some,
    ensures
        ({
            let (system, alliance, empire) = battle_at(world, cooldowns, tick)(slot)->0;
            &&& world.fleets.has(alliance)
            &&& world.fleets.at(alliance).is_alliance
            &&& world.fleets.has(empire)
            &&& !world.fleets.at(empire).is_alliance
        }),
{
    let sys = world.systems@[slot]->0;
    lemma_first_of_side(world, sys.fleets@, true, 0);
    lemma_first_of_side(world, sys.fleets@, false, 0);
}

proof fn lemma_first_of_side(world: GameWorld, fleets: Seq<FleetKey>, side: bool, from: nat)
    ensures
        first_of_side(world, fleets, side, from) matches Some(key) ==> world.fleets.has(key)
            && world.fleets.at(key).is_alliance == side,
    decreases fleets.len() - from,
{
    if from < fleets.len() {
        lemma_first_of_side(world, fleets, side, from + 1);
    }
}

/// Whether a fleet is the Alliance's.
pub open spec fn of_alliance(world: GameWorld, fleet: FleetKey) -> bool {
    world.fleets.has(fleet) && world.fleets.at(fleet).is_alliance
}

/// Whether a fleet is the Alliance's.
fn is_of_alliance(world: &GameWorld, fleet: FleetKey) -> (alliance: bool)
    ensures
        alliance == of_alliance(*world, fleet),
{
    match world.fleets.get(fleet) {
        Some(value) => value.is_alliance,
        None => false,
    }
}

/// Whether the player takes part in a battle, and if so, whether as attacker.
pub fn player_part(
    world: &GameWorld,
    attacker: FleetKey,
    defender: FleetKey,
    player: MissionFaction,
) -> (part: Option<bool>)
    ensures
        part == {
            let rebel = player == MissionFaction::Alliance;
            if rebel == of_alliance(*world, attacker) || rebel == of_alliance(*world, defender) {
                Some(rebel == of_alliance(*world, attacker))
            } else {
                None
            }
        },
{
    let rebel: bool = player == MissionFaction::Alliance;
    let atk: bool = is_of_alliance(world, attacker);
    let def: bool = is_of_alliance(world, defender);
    if rebel == atk || rebel == def {
        Some(rebel == atk)
    } else {
        None
    }
}

/// The player takes part in every battle between the two sides.
pub proof fn law_player_always_takes_part(
    world: GameWorld,
    alliance: FleetKey,
    empire: FleetKey,
    player: MissionFaction,
)
    requires
        of_alliance(world, alliance),
        !of_alliance(world, empire),
    ensures
        ({
            let rebel = player == MissionFaction::Alliance;
            rebel == of_alliance(world, alliance) || rebel == of_alliance(world, empire)
        }),
{
}

/// How the winner of a battle in orbit is told, the attacker being the
/// Alliance.
pub open spec fn orbit_winner_words(winner: CombatSide) -> Seq<char> {
    match winner {
        CombatSide::Attacker => "Alliance victory"@,
        CombatSide::Defender => "Empire victory"@,
        CombatSide::Draw => "Draw"@,
    }
}

/// How the winner of a tactical battle is told.
pub open spec fn tactical_winner_words(winner: CombatSide) -> Seq<char> {
    match winner {
        CombatSide::Attacker => "Attacker victory"@,
        CombatSide::Defender => "Defender victory"@,
        CombatSide::Draw => "Draw"@,
    }
}

/// How a battle was fought.
#[derive(Debug, Clone, Copy, PartialEq, Eq, Structural)]
pub enum BattleStyle {
    /// Without the player.
    Unseen,
    /// With the player, who left it to others.
    AutoResolved,
    /// With the player.
    Tactical,
}

/// How a battle in orbit is told.
pub open spec fn battle_words(name: Seq<char>, winner: CombatSide, style: BattleStyle) -> Seq<char> {
    let start = "Space battle at "@ + name + " — "@;
    match style {
        BattleStyle::Unseen => start + orbit_winner_words(winner),
        BattleStyle::AutoResolved => start + orbit_winner_words(winner) + " (auto-resolved)"@,
        BattleStyle::Tactical => start + tactical_winner_words(winner) + " (tactical)"@,
    }
}

/// Tells how a battle in orbit ended.
pub fn report_battle(
    name: &str,
    system: SystemKey,
    winner: CombatSide,
    style: BattleStyle,
    tick: u64,
    log: &mut MessageLog,
)
    ensures
        final(log)@ == old(log)@.push(
            note_at(tick, battle_words(name@, winner, style), MessageCategory::Combat, system),
        ),
{
    let orbit: &'static str = match winner {
        CombatSide::Attacker => "Alliance victory",
        CombatSide::Defender => "Empire victory",
        CombatSide::Draw => "Draw",
    };
    let tactical: &'static str = match winner {
        CombatSide::Attacker => "Attacker victory",
        CombatSide::Defender => "Defender victory",
        CombatSide::Draw => "Draw",
    };
    let text: String = match style {
        BattleStyle::Unseen => join4("Space battle at ", name, " — ", orbit),
        BattleStyle::AutoResolved => join5(
            "Space battle at ",
            name,
            " — ",
            orbit,
            " (auto-resolved)",
        ),
        BattleStyle::Tactical => join5("Space battle at ", name, " — ", tactical, " (tactical)"),
    };
    log.say_at(tick, text, MessageCategory::Combat, system);
}

/// Tells that the player enters a battle.
pub fn report_tactical_start(
    world: &GameWorld,
    system: SystemKey,
    tick: u64,
    log: &mut MessageLog,
)
    ensures
        final(log)@ == old(log)@.push(
            note_at(
                tick,
                "Battle at "@ + system_name(*world, system, "Unknown"@)
                    + " — entering tactical combat!"@,
                MessageCategory::Combat,
                system,
            ),
        ),
{
    let text: String = join3(
        "Battle at ",
        name_system(world, system, "Unknown"),
        " — entering tactical combat!",
    );
    log.say_at(tick, text, MessageCategory::Combat, system);
}

/// Whether the player won a battle.
pub fn player_won_battle(winner: CombatSide, player_is_attacker: bool) -> (won: bool)
    ensures
        won == match winner {
            CombatSide::Attacker => player_is_attacker,
            CombatSide::Defender => !player_is_attacker,
            CombatSide::Draw => false,
        },
{
    match winner {
        CombatSide::Attacker => player_is_attacker,
        CombatSide::Defender => !player_is_attacker,
        CombatSide::Draw => false,
    }
}

/// The fleet that may land after a battle in orbit.
pub fn landing_party(winner: CombatSide, attacker: FleetKey, defender: FleetKey) -> (fleet: Option<
    FleetKey,
>)
    ensures
        fleet == match winner {
            CombatSide::Attacker => Some(attacker),
            CombatSide::Defender => Some(defender),
            CombatSide::Draw => None,
        },
{
    match winner {
        CombatSide::Attacker => Some(attacker),
        CombatSide::Defender => Some(defender),
        CombatSide::Draw => None,
    }
}

// ---- Battles on the ground -------------------------------------------------

/// The ground battle that goes on at the system of slot `i`, and whether the
/// Alliance attacks. The Empire attacks only where it alone has fleets.
pub open spec fn ground_battle_at(world: GameWorld, resolved: Set<usize>) -> spec_fn(int) -> Option<
    (SystemKey, bool),
> {
    |i: int|
        match world.systems@[i] {
            None => None,
            Some(sys) => {
                let key = SystemKey { slot: i as usize };
                if !resolved.contains(i as usize) && fighting(world, key, true) > 0 && fighting(
                    world,
                    key,
                    false,
                ) > 0 {
                    Some((key, sole_side(world, sys) != Some(false)))
                } else {
                    None
                }
            },
        }
}

/// Lists the ground battles that go on although nobody lands, except those
/// that were fought today.
pub fn continuing_ground_battles(world: &GameWorld, resolved: &HashSet<usize>) -> (battles: Vec<
    (SystemKey, bool),
>)
    ensures
        battles@ == collect(world.systems@.len(), ground_battle_at(*world, resolved@)),
{
    let ghost f = ground_battle_at(*world, resolved@);
    let slots: usize = world.systems.slot_count();
    let mut battles: Vec<(SystemKey, bool)> = Vec::new();
    for i in 0..slots
        invariant
            slots == world.systems@.len(),
            f == ground_battle_at(*world, resolved@),
            battles@ == collect(i as nat, f),
    {
        if let Some(sys) = world.systems.slot(i) {
            if !resolved.contains(&i) {
                let key: SystemKey = SystemKey { slot: i };
                let (alliance, empire): (usize, usize) = ground_forces(world, key);
                if alliance > 0 && empire > 0 {
                    let rebels: bool = find_of_side(world, &sys.fleets, true).is_some();
                    let imperials: bool = find_of_side(world, &sys.fleets, false).is_some();
                    battles.push((key, rebels || !imperials));
                }
            }
        }
    }
    battles
}

/// A regiment in a ground battle that the player watches.
#[derive(Debug)]
pub struct Contender {
    pub troop: TroopKey,
    pub name: String,
    pub strength: i16,
}

/// What a contender is.
pub struct ContenderView {
    pub troop: TroopKey,
    pub name: Seq<char>,
    pub strength: i16,
}

impl View for Contender {
    type V = ContenderView;

    open spec fn view(&self) -> ContenderView {
        ContenderView { troop: self.troop, name: self.name@, strength: self.strength }
    }
}

/// The regiments of a side among the first `n` of a garrison, numbered from
/// one under a title.
pub open spec fn contenders(
    world: GameWorld,
    garrison: Seq<TroopKey>,
    side: bool,
    title: Seq<char>,
    n: nat,
) -> Seq<ContenderView>
    decreases n,
{
    if n == 0 {
        Seq::empty()
    } else {
        let before = contenders(world, garrison, side, title, (n - 1) as nat);
        let troop = garrison[n - 1];
        if world.troops.has(troop) && world.troops.at(troop).is_alliance == side
            && world.troops.at(troop).regiment_strength > 0 {
            before.push(
                ContenderView {
                    troop,
                    name: title + decimal(before.len() + 1),
                    strength: world.troops.at(troop).regiment_strength,
                },
            )
        } else {
            before
        }
    }
}

/// What a list of contenders is.
pub open spec fn lineup(list: Seq<Contender>) -> Seq<ContenderView> {
    Seq::new(list.len(), |i: int| list[i]@)
}

/// Lists the regiments of a side at a system, numbered under a title.
fn list_contenders(world: &GameWorld, sys: &System, side: bool, title: &str) -> (list: Vec<
    Contender,
>)
    ensures
        lineup(list@) == contenders(
            *world,
            sys.ground_units@,
            side,
            title@,
            sys.ground_units@.len(),
        ),
{
    let mut list: Vec<Contender> = Vec::new();
    assert(lineup(list@) =~= Seq::<ContenderView>::empty());
    for n in 0..sys.ground_units.len()
        invariant
            list@.len() <= n,
            lineup(list@) == contenders(*world, sys.ground_units@, side, title@, n as nat),
    {
        let key: TroopKey = sys.ground_units[n];
        let ghost before = list@;
        if let Some(troop) = world.troops.get(key) {
            if troop.is_alliance == side && troop.regiment_strength > 0 {
                let count: String = number(list.len() as u64 + 1);
                let name: String = join2(title, count.as_str());
                let one: Contender = Contender {
                    troop: key,
                    name,
                    strength: troop.regiment_strength,
                };
                list.push(one);
                assert(lineup(list@) =~= lineup(before).push(one@));
                assert(lineup(before).len() == before.len());
            }
        }
    }
    list
}

/// What follows a battle in orbit that the player won or lost: a ground
/// battle, an occupation, or nothing.
#[derive(Debug)]
#[allow(inconsistent_fields)]
pub enum Aftermath {
    Ground { attackers: Vec<Contender>, defenders: Vec<Contender> },
    Occupy(Faction),
    Nothing,
}

/// The attackers at a system.
pub open spec fn attackers_at(world: GameWorld, system: SystemKey, side: bool) -> Seq<
    ContenderView,
> {
    let garrison = world.systems.at(system).ground_units@;
    contenders(world, garrison, side, "Attacker Regiment "@, garrison.len())
}

/// The defenders at a system.
pub open spec fn defenders_at(world: GameWorld, system: SystemKey, side: bool) -> Seq<
    ContenderView,
> {
    let garrison = world.systems.at(system).ground_units@;
    contenders(world, garrison, !side, "Defender Regiment "@, garrison.len())
}

/// Decides what follows once `landed` regiments are ashore.
pub fn aftermath(
    world: &GameWorld,
    system: SystemKey,
    attacker_is_alliance: bool,
    landed: usize,
) -> (next: Aftermath)
    ensures
        !world.systems.has(system) ==> next is Nothing,
        world.systems.has(system) ==> {
            let atk = attackers_at(*world, system, attacker_is_alliance);
            let def = defenders_at(*world, system, attacker_is_alliance);
            match next {
                Aftermath::Ground { attackers, defenders } => {
                    &&& atk.len() > 0 && def.len() > 0
                    &&& lineup(attackers@) == atk
                    &&& lineup(defenders@) == def
                },
                Aftermath::Occupy(winner) => {
                    &&& def.len() == 0 && atk.len() > 0 && landed > 0
                    &&& winner == if attacker_is_alliance {
                        Faction::Alliance
                    } else {
                        Faction::Empire
                    }
                },
                Aftermath::Nothing => atk.len() == 0 || (def.len() == 0 && landed == 0),
            }
        },
{
    let sys: &System = match world.systems.get(system) {
        Some(sys) => sys,
        None => {
            return Aftermath::Nothing;
        },
    };
    let attackers: Vec<Contender> = list_contenders(
        world,
        sys,
        attacker_is_alliance,
        "Attacker Regiment ",
    );
    let defenders: Vec<Contender> = list_contenders(
        world,
        sys,
        !attacker_is_alliance,
        "Defender Regiment ",
    );
    assert(lineup(attackers@).len() == attackers@.len());
    assert(lineup(defenders@).len() == defenders@.len());
    if defenders.len() > 0 && attackers.len() > 0 {
        Aftermath::Ground { attackers, defenders }
    } else if landed > 0 && attackers.len() > 0 {
        Aftermath::Occupy(
            if attacker_is_alliance {
                Faction::Alliance
            } else {
                Faction::Empire
            },
        )
    } else {
        Aftermath::Nothing
    }
}

/// How the winner of a ground battle is told.
pub open spec fn ground_winner_words(winner: CombatSide) -> Seq<char> {
    match winner {
        CombatSide::Attacker => "Attacker ground victory"@,
        CombatSide::Defender => "Defender holds ground"@,
        CombatSide::Draw => "Ground combat draw"@,
    }
}

/// Tells how a ground battle that the player watched ended.
pub fn report_ground_battle(
    name: &str,
    system: SystemKey,
    winner: CombatSide,
    tick: u64,
    log: &mut MessageLog,
)
    ensures
        final(log)@ == old(log)@.push(
            note_at(
                tick,
                "Ground battle at "@ + name@ + " — "@ + ground_winner_words(winner),
                MessageCategory::Combat,
                system,
            ),
        ),
{
    let words: &'static str = match winner {
        CombatSide::Attacker => "Attacker ground victory",
        CombatSide::Defender => "Defender holds ground",
        CombatSide::Draw => "Ground combat draw",
    };
    log.say_at(
        tick,
        join4("Ground battle at ", name, " — ", words),
        MessageCategory::Combat,
        system,
    );
}

// ---- Headquarters ----------------------------------------------------------

/// The first headquarters of a faction, from slot `from` on.
pub open spec fn headquarters_of(world: GameWorld, faction: Faction, from: nat) -> Option<SystemKey>
    decreases world.systems@.len() - from,
{
    if from >= world.systems@.len() {
        None
    } else if world.systems@[from as int] matches Some(sys) && sys.is_headquarters
        && sys.control.held_by(faction) {
        Some(SystemKey { slot: from as usize })
    } else {
        headquarters_of(world, faction, from + 1)
    }
}

/// The first headquarters of a faction.
pub fn find_headquarters(world: &GameWorld, faction: Faction) -> (found: Option<SystemKey>)
    ensures
        found == headquarters_of(*world, faction, 0),
{
    let slots: usize = world.systems.slot_count();
    for i in 0..slots
        invariant
            slots == world.systems@.len(),
            headquarters_of(*world, faction, 0) == headquarters_of(*world, faction, i as nat),
    {
        if let Some(sys) = world.systems.slot(i) {
            if sys.is_headquarters && sys.control.is_controlled_by(faction) {
                return Some(SystemKey { slot: i });
            }
        }
    }
    None
}

/// The headquarters to watch for victory, the Alliance's first. Where one is
/// not marked, the first two systems stand in for both.
pub fn watched_headquarters(world: &GameWorld) -> (pair: (SystemKey, SystemKey))
    requires
        living(world.systems@, world.systems@.len()) >= 2 || (headquarters_of(
            *world,
            Faction::Alliance,
            0,
        ) is Some && headquarters_of(*world, Faction::Empire, 0) is Some),
    ensures
        ({
            let alliance = headquarters_of(*world, Faction::Alliance, 0);
            let empire = headquarters_of(*world, Faction::Empire, 0);
            let all = collect(world.systems@.len(), living_system(*world));
            pair == if alliance is Some && empire is Some {
                (alliance->0, empire->0)
            } else {
                (all[0], all[1])
            }
        }),
{
    if let Some(alliance) = find_headquarters(world, Faction::Alliance) {
        if let Some(empire) = find_headquarters(world, Faction::Empire) {
            return (alliance, empire);
        }
    }
    let all: Vec<SystemKey> = living_systems(world);
    proof {
        lemma_living_listed(*world, world.systems@.len());
    }
    (all[0], all[1])
}

proof fn lemma_living_listed(world: GameWorld, n: nat)
    requires
        n <= world.systems@.len(),
    ensures
        collect(n, living_system(world)).len() == living(world.systems@, n),
    decreases n,
{
    if n > 0 {
        lemma_living_listed(world, (n - 1) as nat);
    }
}

} // verus!
