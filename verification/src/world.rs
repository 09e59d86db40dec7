//! The world model: systems, fleets, characters, classes and tables.

use crate::arena::Arena;
use crate::dat::{ExplorationStatus, Faction, SectorGroup};
use crate::ids::{
    CapitalShipKey, CharacterKey, DatId, DefenseFacilityKey, FighterKey, FleetKey,
    ManufacturingFacilityKey, ProductionFacilityKey, SectorKey, SpecialForceKey, SystemKey,
    TroopKey,
};
use crate::missions::MissionKind;
use vstd::prelude::*;

verus! {

/// Who holds a system.
#[derive(Debug, Clone, Copy, PartialEq, Eq, Structural)]
pub enum ControlKind {
    Controlled(Faction),
    Contested,
    Uncontrolled,
}

impl ControlKind {
    /// Whether `faction` holds the system outright.
    pub open spec fn held_by(self, faction: Faction) -> bool {
        self == ControlKind::Controlled(faction)
    }

    /// Whether `faction` holds the system outright.
    pub fn is_controlled_by(&self, faction: Faction) -> (held: bool)
        ensures
            held == self.held_by(faction),
    {
        match self {
            ControlKind::Controlled(holder) => *holder == faction,
            _ => false,
        }
    }
}

/// A region of the galaxy.
#[derive(Debug, Clone)]
pub struct Sector {
    pub dat_id: DatId,
    pub name: String,
    pub group: SectorGroup,
    pub x: u16,
    pub y: u16,
    pub systems: Vec<SystemKey>,
}

/// A star system.
///
/// Support and the espionage rating are shares between zero and one, held as
/// the bit pattern of a non-negative single-precision number. Such patterns
/// order as the numbers do, so a larger pattern is a larger share.
#[derive(Debug, Clone)]
pub struct System {
    pub dat_id: DatId,
    pub name: String,
    pub sector: SectorKey,
    pub x: u16,
    pub y: u16,
    pub exploration_status: ExplorationStatus,
    pub popularity_alliance: u32,
    pub popularity_empire: u32,
    pub is_populated: bool,
    pub total_energy: u32,
    pub raw_materials: u32,
    pub espionage_rating: u32,
    pub fleets: Vec<FleetKey>,
    pub ground_units: Vec<TroopKey>,
    pub special_forces: Vec<SpecialForceKey>,
    pub defense_facilities: Vec<DefenseFacilityKey>,
    pub manufacturing_facilities: Vec<ManufacturingFacilityKey>,
    pub production_facilities: Vec<ProductionFacilityKey>,
    pub is_headquarters: bool,
    pub is_destroyed: bool,
    pub control: ControlKind,
}

/// The squared distance between two systems.
pub open spec fn distance_squared(a: System, b: System) -> int {
    (a.x - b.x) * (a.x - b.x) + (a.y - b.y) * (a.y - b.y)
}

/// The square of a difference of two coordinates fits comfortably.
pub proof fn lemma_square_bound(d: int)
    requires
        -65535 <= d <= 65535,
    ensures
        0 <= d * d <= 0xfffe_0001,
{
    assert(0 <= d * d <= 0xfffe_0001) by (nonlinear_arith)
        requires
            -65535 <= d <= 65535,
    ;
}

impl System {
    /// The squared distance to another system.
    pub fn distance_squared_to(&self, other: &System) -> (d: u64)
        ensures
            d == distance_squared(*self, *other),
            d <= 0x1_fffc_0002,
    {
        let dx: i64 = self.x as i64 - other.x as i64;
        let dy: i64 = self.y as i64 - other.y as i64;
        proof {
            lemma_square_bound(dx as int);
            lemma_square_bound(dy as int);
        }
        (dx * dx + dy * dy) as u64
    }
}

/// A skill: a base value and a spread.
#[derive(Debug, Clone, Copy, PartialEq, Eq, Structural)]
pub struct SkillPair {
    pub base: u32,
    pub variance: u32,
}

impl SkillPair {
    /// The middle of the skill's range.
    pub open spec fn score_spec(self) -> int {
        self.base + self.variance / 2
    }

    /// Whether the middle of the range fits its field.
    pub open spec fn wf(self) -> bool {
        self.score_spec() <= u32::MAX
    }

    /// The middle of the skill's range.
    pub fn score(self) -> (score: u32)
        requires
            self.wf(),
        ensures
            score == self.score_spec(),
    {
        self.base + self.variance / 2
    }
}

/// How far a character has come in the Force.
#[derive(Debug, Clone, Copy, PartialEq, Eq, Structural)]
pub enum ForceTier {
    Untrained,
    Aware,
    Training,
    Experienced,
}

/// A named character.
#[derive(Debug, Clone)]
pub struct Character {
    pub dat_id: DatId,
    pub name: String,
    pub is_alliance: bool,
    pub is_empire: bool,
    pub is_major: bool,
    pub diplomacy: SkillPair,
    pub espionage: SkillPair,
    pub ship_design: SkillPair,
    pub troop_training: SkillPair,
    pub facility_design: SkillPair,
    pub combat: SkillPair,
    pub leadership: SkillPair,
    pub loyalty: SkillPair,
    pub jedi_probability: u32,
    pub force_tier: ForceTier,
    pub force_experience: u32,
    pub is_discovered_jedi: bool,
    /// Whether the character knows whose child it is.
    pub heritage_known: bool,
    pub can_be_admiral: bool,
    pub can_be_commander: bool,
    pub can_be_general: bool,
    pub is_unable_to_betray: bool,
    pub on_mission: bool,
    pub on_hidden_mission: bool,
    pub on_mandatory_mission: bool,
    pub is_captive: bool,
    pub captured_by: Option<Faction>,
    pub capture_tick: Option<u64>,
    pub current_system: Option<SystemKey>,
    pub current_fleet: Option<FleetKey>,
    /// A killed character keeps its record so that later story events can still name it.
    pub is_killed: bool,
}

impl Default for Character {
    fn default() -> (blank: Self)
        ensures
            blank.name@ == Seq::<char>::empty(),
            blank == (Character {
                dat_id: DatId(0),
                name: blank.name,
                is_alliance: false,
                is_empire: false,
                is_major: false,
                diplomacy: SkillPair { base: 0, variance: 0 },
                espionage: SkillPair { base: 0, variance: 0 },
                ship_design: SkillPair { base: 0, variance: 0 },
                troop_training: SkillPair { base: 0, variance: 0 },
                facility_design: SkillPair { base: 0, variance: 0 },
                combat: SkillPair { base: 0, variance: 0 },
                leadership: SkillPair { base: 0, variance: 0 },
                loyalty: SkillPair { base: 0, variance: 0 },
                jedi_probability: 0,
                force_tier: ForceTier::Untrained,
                force_experience: 0,
                is_discovered_jedi: false,
                heritage_known: false,
                can_be_admiral: false,
                can_be_commander: false,
                can_be_general: false,
                is_unable_to_betray: false,
                on_mission: false,
                on_hidden_mission: false,
                on_mandatory_mission: false,
                is_captive: false,
                captured_by: None,
                capture_tick: None,
                current_system: None,
                current_fleet: None,
                is_killed: false,
            }),
    {
        Character {
            dat_id: DatId(0),
            name: String::new(),
            is_alliance: false,
            is_empire: false,
            is_major: false,
            diplomacy: SkillPair { base: 0, variance: 0 },
            espionage: SkillPair { base: 0, variance: 0 },
            ship_design: SkillPair { base: 0, variance: 0 },
            troop_training: SkillPair { base: 0, variance: 0 },
            facility_design: SkillPair { base: 0, variance: 0 },
            combat: SkillPair { base: 0, variance: 0 },
            leadership: SkillPair { base: 0, variance: 0 },
            loyalty: SkillPair { base: 0, variance: 0 },
            jedi_probability: 0,
            force_tier: ForceTier::Untrained,
            force_experience: 0,
            is_discovered_jedi: false,
            heritage_known: false,
            can_be_admiral: false,
            can_be_commander: false,
            can_be_general: false,
            is_unable_to_betray: false,
            on_mission: false,
            on_hidden_mission: false,
            on_mandatory_mission: false,
            is_captive: false,
            captured_by: None,
            capture_tick: None,
            current_system: None,
            current_fleet: None,
            is_killed: false,
        }
    }
}

impl Character {
    /// Whether every skill's middle value fits its field.
    pub open spec fn wf(self) -> bool {
        &&& self.diplomacy.wf()
        &&& self.espionage.wf()
        &&& self.ship_design.wf()
        &&& self.troop_training.wf()
        &&& self.facility_design.wf()
        &&& self.combat.wf()
    }

    /// Marks the character as killed.
    pub fn mark_killed(&mut self)
        ensures
            *final(self) == (Character { is_killed: true, ..*old(self) }),
    {
        self.is_killed = true;
    }
}

/// One capital ship hull of a fleet.
#[derive(Debug, Clone, Copy, PartialEq, Eq, Structural)]
pub struct ShipInstance {
    pub class: CapitalShipKey,
    pub hull_current: i32,
    pub alive: bool,
    pub is_alliance: bool,
}

impl ShipInstance {
    /// A fresh hull.
    pub fn new(class: CapitalShipKey, hull: i32, is_alliance: bool) -> (ship: Self)
        ensures
            ship == (ShipInstance { class, hull_current: hull, alive: true, is_alliance }),
    {
        ShipInstance { class, hull_current: hull, alive: true, is_alliance }
    }

    /// `count` fresh hulls of one class.
    pub fn make(class: CapitalShipKey, hull: i32, is_alliance: bool, count: u32) -> (ships: Vec<
        Self,
    >)
        ensures
            ships@ == Seq::new(
                count as nat,
                |i: int| ShipInstance { class, hull_current: hull, alive: true, is_alliance },
            ),
    {
        let mut ships: Vec<ShipInstance> = Vec::new();
        let mut made: u32 = 0;
        while made < count
            invariant
                made <= count,
                ships@ == Seq::new(
                    made as nat,
                    |i: int| ShipInstance { class, hull_current: hull, alive: true, is_alliance },
                ),
            decreases count - made,
        {
            ships.push(ShipInstance::new(class, hull, is_alliance));
            made = made + 1;
        }
        ships
    }
}

/// Squadrons of one fighter class in a fleet.
#[derive(Debug, Clone, Copy, PartialEq, Eq, Structural)]
pub struct FighterEntry {
    pub class: FighterKey,
    pub count: u32,
}

/// A task force.
#[derive(Debug, Clone)]
pub struct Fleet {
    pub location: SystemKey,
    pub capital_ships: Vec<ShipInstance>,
    pub fighters: Vec<FighterEntry>,
    pub characters: Vec<CharacterKey>,
    pub is_alliance: bool,
    pub has_death_star: bool,
}

/// How many of the first `n` ships are alive.
pub open spec fn alive_ships(ships: Seq<ShipInstance>, n: nat) -> nat
    decreases n,
{
    if n == 0 {
        0
    } else {
        alive_ships(ships, (n - 1) as nat) + if ships[n - 1].alive {
            1nat
        } else {
            0nat
        }
    }
}

impl Fleet {
    /// Whether the fleet lists neither ships nor fighters.
    pub open spec fn bare(self) -> bool {
        self.capital_ships@.len() == 0 && self.fighters@.len() == 0
    }

    /// Whether the fleet lists neither ships nor fighters.
    pub fn is_empty(&self) -> (bare: bool)
        ensures
            bare == self.bare(),
    {
        self.capital_ships.len() == 0 && self.fighters.len() == 0
    }

    /// How many capital ships are alive.
    pub fn ship_count(&self) -> (count: usize)
        ensures
            count == alive_ships(self.capital_ships@, self.capital_ships@.len()),
    {
        let mut count: usize = 0;
        for i in 0..self.capital_ships.len()
            invariant
                count <= i,
                count == alive_ships(self.capital_ships@, i as nat),
        {
            if self.capital_ships[i].alive {
                count = count + 1;
            }
        }
        count
    }
}

/// A capital ship design.
#[derive(Debug, Clone)]
pub struct CapitalShipClass {
    pub dat_id: DatId,
    pub name: String,
    pub is_alliance: bool,
    pub is_empire: bool,
    pub hull: u32,
    pub shield_strength: u32,
    pub sub_light_engine: u32,
    pub maneuverability: u32,
    pub hyperdrive: u32,
    pub fighter_capacity: u32,
    pub troop_capacity: u32,
    pub detection: u32,
    pub turbolaser_fore: u32,
    pub turbolaser_aft: u32,
    pub turbolaser_port: u32,
    pub turbolaser_starboard: u32,
    pub turbolaser_attack_strength: u32,
    pub ion_cannon_fore: u32,
    pub ion_cannon_aft: u32,
    pub ion_cannon_port: u32,
    pub ion_cannon_starboard: u32,
    pub ion_cannon_attack_strength: u32,
    pub laser_cannon_fore: u32,
    pub laser_cannon_aft: u32,
    pub laser_cannon_port: u32,
    pub laser_cannon_starboard: u32,
    pub laser_cannon_attack_strength: u32,
    pub shield_recharge_rate: u32,
    pub damage_control: u32,
    pub bombardment_modifier: u32,
    pub refined_material_cost: u32,
}

impl Default for CapitalShipClass {
    fn default() -> (blank: Self)
        ensures
            blank.name@ == Seq::<char>::empty(),
            blank == (CapitalShipClass {
                dat_id: DatId(0),
                name: blank.name,
                is_alliance: false,
                is_empire: false,
                hull: 0,
                shield_strength: 0,
                sub_light_engine: 0,
                maneuverability: 0,
                hyperdrive: 0,
                fighter_capacity: 0,
                troop_capacity: 0,
                detection: 0,
                turbolaser_fore: 0,
                turbolaser_aft: 0,
                turbolaser_port: 0,
                turbolaser_starboard: 0,
                turbolaser_attack_strength: 0,
                ion_cannon_fore: 0,
                ion_cannon_aft: 0,
                ion_cannon_port: 0,
                ion_cannon_starboard: 0,
                ion_cannon_attack_strength: 0,
                laser_cannon_fore: 0,
                laser_cannon_aft: 0,
                laser_cannon_port: 0,
                laser_cannon_starboard: 0,
                laser_cannon_attack_strength: 0,
                shield_recharge_rate: 0,
                damage_control: 0,
                bombardment_modifier: 0,
                refined_material_cost: 0,
            }),
    {
        CapitalShipClass {
            dat_id: DatId(0),
            name: String::new(),
            is_alliance: false,
            is_empire: false,
            hull: 0,
            shield_strength: 0,
            sub_light_engine: 0,
            maneuverability: 0,
            hyperdrive: 0,
            fighter_capacity: 0,
            troop_capacity: 0,
            detection: 0,
            turbolaser_fore: 0,
            turbolaser_aft: 0,
            turbolaser_port: 0,
            turbolaser_starboard: 0,
            turbolaser_attack_strength: 0,
            ion_cannon_fore: 0,
            ion_cannon_aft: 0,
            ion_cannon_port: 0,
            ion_cannon_starboard: 0,
            ion_cannon_attack_strength: 0,
            laser_cannon_fore: 0,
            laser_cannon_aft: 0,
            laser_cannon_port: 0,
            laser_cannon_starboard: 0,
            laser_cannon_attack_strength: 0,
            shield_recharge_rate: 0,
            damage_control: 0,
            bombardment_modifier: 0,
            refined_material_cost: 0,
        }
    }
}

/// A fighter design.
#[derive(Debug, Clone)]
pub struct FighterClass {
    pub dat_id: DatId,
    pub name: String,
    pub is_alliance: bool,
    pub is_empire: bool,
    pub refined_material_cost: u32,
    pub maintenance_cost: u32,
    pub squadron_size: u32,
    pub torpedoes: u32,
    pub overall_attack_strength: u32,
    pub turbolaser_attack_strength: u32,
    pub ion_cannon_attack_strength: u32,
    pub laser_cannon_attack_strength: u32,
    pub maneuverability: u32,
    /// Bomber attack capability, under the name the data files give it.
    pub bombardment_defense: u32,
}

impl Default for FighterClass {
    fn default() -> (blank: Self)
        ensures
            blank.name@ == Seq::<char>::empty(),
            blank == (FighterClass {
                dat_id: DatId(0),
                name: blank.name,
                is_alliance: false,
                is_empire: false,
                refined_material_cost: 0,
                maintenance_cost: 0,
                squadron_size: 0,
                torpedoes: 0,
                overall_attack_strength: 0,
                turbolaser_attack_strength: 0,
                ion_cannon_attack_strength: 0,
                laser_cannon_attack_strength: 0,
                maneuverability: 0,
                bombardment_defense: 0,
            }),
    {
        FighterClass {
            dat_id: DatId(0),
            name: String::new(),
            is_alliance: false,
            is_empire: false,
            refined_material_cost: 0,
            maintenance_cost: 0,
            squadron_size: 0,
            torpedoes: 0,
            overall_attack_strength: 0,
            turbolaser_attack_strength: 0,
            ion_cannon_attack_strength: 0,
            laser_cannon_attack_strength: 0,
            maneuverability: 0,
            bombardment_defense: 0,
        }
    }
}

/// A ground regiment.
#[derive(Debug, Clone, Copy, PartialEq, Eq, Structural)]
pub struct TroopUnit {
    pub class_dat_id: DatId,
    pub is_alliance: bool,
    pub regiment_strength: i16,
}

/// A special forces unit.
#[derive(Debug, Clone, Copy, PartialEq, Eq, Structural)]
pub struct SpecialForceUnit {
    pub class_dat_id: DatId,
    pub is_alliance: bool,
}

/// A planetary shield or battery.
#[derive(Debug, Clone, Copy, PartialEq, Eq, Structural)]
pub struct DefenseFacilityInstance {
    pub class_dat_id: DatId,
    pub is_alliance: bool,
}

/// A construction yard or shipyard.
#[derive(Debug, Clone, Copy, PartialEq, Eq, Structural)]
pub struct ManufacturingFacilityInstance {
    pub class_dat_id: DatId,
    pub is_alliance: bool,
    pub is_shipyard: bool,
}

/// A mine or refinery.
#[derive(Debug, Clone, Copy, PartialEq, Eq, Structural)]
pub struct ProductionFacilityInstance {
    pub class_dat_id: DatId,
    pub is_alliance: bool,
}

/// Ground combat ratings of a regiment class.
#[derive(Debug, Clone, Copy, PartialEq, Eq, Structural)]
pub struct TroopClassDef {
    pub attack_strength: u32,
    pub defense_strength: u32,
}

/// Ratings of a defense facility class.
#[derive(Debug, Clone, Copy, PartialEq, Eq, Structural)]
pub struct DefenseFacilityClassDef {
    pub bombardment_defense: i32,
}

/// One row of the general parameter table: a value for each difficulty.
#[derive(Debug, Clone, Copy, PartialEq, Eq, Structural)]
pub struct GnprtbEntry {
    pub parameter_id: u16,
    pub development: i32,
    pub alliance_sp_easy: i32,
    pub alliance_sp_medium: i32,
    pub alliance_sp_hard: i32,
    pub empire_sp_easy: i32,
    pub empire_sp_medium: i32,
    pub empire_sp_hard: i32,
    pub multiplayer: i32,
}

impl GnprtbEntry {
    /// The value for a difficulty: 0 for development, 1 to 3 for an Alliance
    /// player on easy, medium and hard, 4 to 6 for an Empire player, and the
    /// multiplayer column beyond.
    pub open spec fn column(self, difficulty: u8) -> i32 {
        match difficulty {
            0 => self.development,
            1 => self.alliance_sp_easy,
            2 => self.alliance_sp_medium,
            3 => self.alliance_sp_hard,
            4 => self.empire_sp_easy,
            5 => self.empire_sp_medium,
            6 => self.empire_sp_hard,
            _ => self.multiplayer,
        }
    }
}

/// The general parameter table.
#[derive(Debug, Clone, Default)]
pub struct GnprtbParams {
    pub entries: Vec<GnprtbEntry>,
}

/// The value of parameter `id` in the rows from `from` on; zero if no row has it.
pub open spec fn parameter_value(
    rows: Seq<GnprtbEntry>,
    from: nat,
    id: u16,
    difficulty: u8,
) -> i32
    decreases rows.len() - from,
{
    if from >= rows.len() {
        0
    } else if rows[from as int].parameter_id == id {
        rows[from as int].column(difficulty)
    } else {
        parameter_value(rows, from + 1, id, difficulty)
    }
}

impl GnprtbParams {
    /// A table with the given rows.
    pub fn new(entries: Vec<GnprtbEntry>) -> (table: Self)
        ensures
            table.entries == entries,
    {
        GnprtbParams { entries }
    }

    /// The value of the first row with the id; zero if the table lacks it.
    pub open spec fn value_spec(self, id: u16, difficulty: u8) -> i32 {
        parameter_value(self.entries@, 0, id, difficulty)
    }

    /// The value of the first row with the id; zero if the table lacks it.
    pub fn value(&self, id: u16, difficulty: u8) -> (value: i32)
        ensures
            value == self.value_spec(id, difficulty),
    {
        let mut i: usize = 0;
        while i < self.entries.len()
            invariant
                i <= self.entries@.len(),
                self.value_spec(id, difficulty) == parameter_value(
                    self.entries@,
                    i as nat,
                    id,
                    difficulty,
                ),
            decreases self.entries@.len() - i,
        {
            if self.entries[i].parameter_id == id {
                let row: GnprtbEntry = self.entries[i];
                return match difficulty {
                    0 => row.development,
                    1 => row.alliance_sp_easy,
                    2 => row.alliance_sp_medium,
                    3 => row.alliance_sp_hard,
                    4 => row.empire_sp_easy,
                    5 => row.empire_sp_medium,
                    6 => row.empire_sp_hard,
                    _ => row.multiplayer,
                };
            }
            i = i + 1;
        }
        0
    }
}

/// A table of chances by score, one row for each whole score from `first` on.
///
/// A score below the first row reads the first row, one above the last row
/// reads the last row, and a table without rows gives zero.
#[derive(Debug, Clone)]
pub struct MstbTable {
    pub first: i32,
    pub values: Vec<i32>,
}

impl MstbTable {
    /// A table whose rows start at score `first`.
    pub fn new(first: i32, values: Vec<i32>) -> (table: Self)
        ensures
            table.first == first,
            table.values == values,
    {
        MstbTable { first, values }
    }

    /// The row that `score` reads.
    pub open spec fn lookup_spec(self, score: int) -> i32 {
        let rows = self.values@;
        let row = score - self.first;
        if rows.len() == 0 {
            0
        } else if row < 0 {
            rows[0]
        } else if row >= rows.len() {
            rows[rows.len() - 1]
        } else {
            rows[row]
        }
    }

    /// The row that `score` reads.
    pub fn lookup(&self, score: i64) -> (value: i32)
        ensures
            value == self.lookup_spec(score as int),
    {
        let rows: usize = self.values.len();
        if rows == 0 {
            return 0;
        }
        let row: i128 = score as i128 - self.first as i128;
        if row < 0 {
            self.values[0]
        } else if row >= rows as i128 {
            self.values[rows - 1]
        } else {
            self.values[row as usize]
        }
    }
}

/// The whole campaign world.
pub struct GameWorld {
    pub systems: Arena<SystemKey, System>,
    pub sectors: Arena<SectorKey, Sector>,
    pub capital_ship_classes: Arena<CapitalShipKey, CapitalShipClass>,
    pub fighter_classes: Arena<FighterKey, FighterClass>,
    pub characters: Arena<CharacterKey, Character>,
    pub fleets: Arena<FleetKey, Fleet>,
    pub troops: Arena<TroopKey, TroopUnit>,
    pub special_forces: Arena<SpecialForceKey, SpecialForceUnit>,
    pub defense_facilities: Arena<DefenseFacilityKey, DefenseFacilityInstance>,
    pub manufacturing_facilities: Arena<ManufacturingFacilityKey, ManufacturingFacilityInstance>,
    pub production_facilities: Arena<ProductionFacilityKey, ProductionFacilityInstance>,
    pub gnprtb: GnprtbParams,
    /// Success chances by mission kind and skill score.
    pub mission_tables: Vec<(MissionKind, MstbTable)>,
    pub troop_classes: Vec<(DatId, TroopClassDef)>,
    pub defense_facility_classes: Vec<(DatId, DefenseFacilityClassDef)>,
    pub difficulty_index: u8,
}

impl Default for GameWorld {
    fn default() -> (world: Self)
        ensures
            world.systems@.len() == 0,
            world.sectors@.len() == 0,
            world.capital_ship_classes@.len() == 0,
            world.fighter_classes@.len() == 0,
            world.characters@.len() == 0,
            world.fleets@.len() == 0,
            world.troops@.len() == 0,
            world.special_forces@.len() == 0,
            world.defense_facilities@.len() == 0,
            world.manufacturing_facilities@.len() == 0,
            world.production_facilities@.len() == 0,
            world.gnprtb.entries@.len() == 0,
            world.mission_tables@.len() == 0,
            world.troop_classes@.len() == 0,
            world.defense_facility_classes@.len() == 0,
            world.difficulty_index == 2,
    {
        GameWorld {
            systems: Arena::new(),
            sectors: Arena::new(),
            capital_ship_classes: Arena::new(),
            fighter_classes: Arena::new(),
            characters: Arena::new(),
            fleets: Arena::new(),
            troops: Arena::new(),
            special_forces: Arena::new(),
            defense_facilities: Arena::new(),
            manufacturing_facilities: Arena::new(),
            production_facilities: Arena::new(),
            gnprtb: GnprtbParams::new(Vec::new()),
            mission_tables: Vec::new(),
            troop_classes: Vec::new(),
            defense_facility_classes: Vec::new(),
            difficulty_index: 2,
        }
    }
}

/// The first row of `rows`, from `from` on, that carries the id.
pub open spec fn class_row<T>(rows: Seq<(DatId, T)>, from: nat, id: DatId) -> Option<T>
    decreases rows.len() - from,
{
    if from >= rows.len() {
        None
    } else if rows[from as int].0 == id {
        Some(rows[from as int].1)
    } else {
        class_row(rows, from + 1, id)
    }
}

/// Finds the first row with the id.
pub fn find_class<T: Copy>(rows: &Vec<(DatId, T)>, id: DatId) -> (row: Option<T>)
    ensures
        row == class_row(rows@, 0, id),
{
    let mut i: usize = 0;
    while i < rows.len()
        invariant
            i <= rows@.len(),
            class_row(rows@, 0, id) == class_row(rows@, i as nat, id),
        decreases rows@.len() - i,
    {
        if rows[i].0 == id {
            return Some(rows[i].1);
        }
        i = i + 1;
    }
    None
}

impl GameWorld {
    /// Whether every character's skills are well formed.
    pub open spec fn wf(&self) -> bool {
        forall|i: int| #[trigger]
            occupied_character(self, i) ==> (self.characters@[i]->0).wf()
    }

    /// Checks that every character's skills are well formed.
    pub fn skills_fit(&self) -> (fit: bool)
        ensures
            fit == self.wf(),
    {
        for i in 0..self.characters.slot_count()
            invariant
                forall|j: int| 0 <= j < i ==> #[trigger] occupied_character(self, j) ==> (
                self.characters@[j]->0).wf(),
        {
            if let Some(c) = self.characters.slot(i) {
                assert(occupied_character(self, i as int));
                if !(pair_fits(&c.diplomacy) && pair_fits(&c.espionage) && pair_fits(&c.ship_design)
                    && pair_fits(&c.troop_training) && pair_fits(&c.facility_design)
                    && pair_fits(&c.combat)) {
                    return false;
                }
            }
        }
        true
    }
}

/// Whether slot `i` holds a character.
pub open spec fn occupied_character(world: &GameWorld, i: int) -> bool {
    crate::arena::occupied(world.characters@, i)
}

/// Checks that a skill's middle value fits its field.
fn pair_fits(pair: &SkillPair) -> (fits: bool)
    ensures
        fits == pair.wf(),
{
    pair.base as u64 + (pair.variance / 2) as u64 <= u32::MAX as u64
}

// ---- Laws ------------------------------------------------------------------

/// Every row of a table is read by its own score; scores below the first row
/// read that one, scores above the last row read that one, and a table without
/// rows gives nothing.
pub proof fn law_every_row_is_read(table: MstbTable, k: int, score: int)
    ensures
        0 <= k < table.values@.len() ==> table.lookup_spec(table.first + k) == table.values@[k],
        table.values@.len() > 0 && score <= table.first ==> table.lookup_spec(score)
            == table.values@.first(),
        table.values@.len() > 0 && score >= table.first + table.values@.len() - 1
            ==> table.lookup_spec(score) == table.values@.last(),
        table.values@.len() == 0 ==> table.lookup_spec(score) == 0,
{
}

/// Of several rows with one id the first counts, and an id without a row has
/// no class.
pub proof fn law_first_row_counts<T>(rows: Seq<(DatId, T)>, id: DatId, k: int)
    requires
        0 <= k <= rows.len(),
        forall|j: int| 0 <= j < k ==> (#[trigger] rows[j]).0 != id,
    ensures
        k < rows.len() && rows[k].0 == id ==> class_row(rows, 0, id) == Some(rows[k].1),
        k == rows.len() ==> class_row(rows, 0, id) is None,
{
    lemma_skipped_rows(rows, id, k as nat, k as nat);
}

proof fn lemma_skipped_rows<T>(rows: Seq<(DatId, T)>, id: DatId, k: nat, left: nat)
    requires
        left <= k <= rows.len(),
        forall|j: int| 0 <= j < k ==> (#[trigger] rows[j]).0 != id,
    ensures
        class_row(rows, (k - left) as nat, id) == class_row(rows, k, id),
    decreases left,
{
    if left > 0 {
        assert(rows[k - left].0 != id);
        lemma_skipped_rows(rows, id, k, (left - 1) as nat);
    }
}

/// Of several rows for one parameter the first counts, each difficulty reads
/// its own column, and a parameter without a row is zero.
pub proof fn law_parameters_by_difficulty(table: GnprtbParams, id: u16, difficulty: u8, k: int)
    requires
        0 <= k <= table.entries@.len(),
        forall|j: int| 0 <= j < k ==> (#[trigger] table.entries@[j]).parameter_id != id,
    ensures
        k == table.entries@.len() ==> table.value_spec(id, difficulty) == 0,
        k < table.entries@.len() && table.entries@[k].parameter_id == id ==> ({
            let row = table.entries@[k];
            let value = table.value_spec(id, difficulty);
            &&& difficulty == 0 ==> value == row.development
            &&& difficulty == 1 ==> value == row.alliance_sp_easy
            &&& difficulty == 2 ==> value == row.alliance_sp_medium
            &&& difficulty == 3 ==> value == row.alliance_sp_hard
            &&& difficulty == 4 ==> value == row.empire_sp_easy
            &&& difficulty == 5 ==> value == row.empire_sp_medium
            &&& difficulty == 6 ==> value == row.empire_sp_hard
            &&& difficulty > 6 ==> value == row.multiplayer
        }),
{
    lemma_skipped_parameters(table.entries@, id, difficulty, k as nat, k as nat);
}

proof fn lemma_skipped_parameters(
    rows: Seq<GnprtbEntry>,
    id: u16,
    difficulty: u8,
    k: nat,
    left: nat,
)
    requires
        left <= k <= rows.len(),
        forall|j: int| 0 <= j < k ==> (#[trigger] rows[j]).parameter_id != id,
    ensures
        parameter_value(rows, (k - left) as nat, id, difficulty) == parameter_value(
            rows,
            k,
            id,
            difficulty,
        ),
    decreases left,
{
    if left > 0 {
        assert(rows[k - left].parameter_id != id);
        lemma_skipped_parameters(rows, id, difficulty, k, (left - 1) as nat);
    }
}

/// A skill's score lies half its spread above its base.
pub proof fn law_score_is_the_middle(skill: SkillPair)
    ensures
        2 * (skill.score_spec() - skill.base) <= skill.variance < 2 * (skill.score_spec()
            - skill.base) + 2,
{
}

/// Distances are symmetric, nothing is apart from itself, and moving along one
/// axis counts by the square of the way.
pub proof fn law_distances(a: System, b: System)
    ensures
        distance_squared(a, b) == distance_squared(b, a),
        distance_squared(a, a) == 0,
        a.y == b.y ==> distance_squared(a, b) == (a.x - b.x) * (a.x - b.x),
        a.x == b.x ==> distance_squared(a, b) == (a.y - b.y) * (a.y - b.y),
        a.x != b.x || a.y != b.y ==> distance_squared(a, b) > 0,
{
    let dx = a.x - b.x;
    let dy = a.y - b.y;
    assert(dx * dx == (-dx) * (-dx)) by (nonlinear_arith);
    assert(dy * dy == (-dy) * (-dy)) by (nonlinear_arith);
    assert(dx != 0 || dy != 0 ==> dx * dx + dy * dy > 0) by (nonlinear_arith);
    assert(dx == 0 ==> dx * dx == 0) by (nonlinear_arith);
    assert(dy == 0 ==> dy * dy == 0) by (nonlinear_arith);
}

/// One ship more at the end of a list counts exactly if it is alive.
pub proof fn law_living_ships_count(ships: Seq<ShipInstance>, ship: ShipInstance)
    ensures
        alive_ships(Seq::empty(), 0) == 0,
        alive_ships(ships.push(ship), ships.len() + 1) == alive_ships(ships, ships.len())
            + if ship.alive {
            1nat
        } else {
            0nat
        },
{
    lemma_alive_prefix(ships, ships.push(ship), ships.len());
}

pub(crate) proof fn lemma_alive_prefix(a: Seq<ShipInstance>, b: Seq<ShipInstance>, n: nat)
    requires
        n <= a.len(),
        n <= b.len(),
        forall|i: int| 0 <= i < n ==> (#[trigger] a[i]).alive == b[i].alive,
    ensures
        alive_ships(a, n) == alive_ships(b, n),
    decreases n,
{
    if n > 0 {
        assert(a[n - 1].alive == b[n - 1].alive);
        lemma_alive_prefix(a, b, (n - 1) as nat);
    }
}

} // verus!
