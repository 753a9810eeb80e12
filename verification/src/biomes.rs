//! Biomes and the rule that decides what a column spawns.
//!
//! Rates are whole numbers of ten-thousandths, samples whole numbers of
//! millionths, and a column's draw is a whole number of billionths.

use crate::field::{normalize, sample_of, scale_point, scaled, NoisePoint, ONE};
use crate::terrain::SpawnType;
use vstd::prelude::*;

verus! {

/// One, in the unit of rates.
pub const RATE_ONE: u32 = 10_000;

/// A column's draw is taken from `0 .. DRAW_ONE`.
pub const DRAW_ONE: i32 = 1_000_000_000;

/// The sample up to which a column is desert: a fifth.
pub const DESERT_LIMIT: u32 = 200_000;

/// The sample up to which a column that is no desert is field: a half.
pub const FIELD_LIMIT: u32 = 500_000;

/// The clustering boost counts only above six tenths, in the unit of
/// weights.
pub const BOOST_LIMIT: u64 = 6_000_000_000;

/// A weight of `w` is taken by the draws `d` with `w >= WEIGHT_PER_DRAW * d`:
/// five thousandths of the weight, as a chance.
pub const WEIGHT_PER_DRAW: u64 = 2_000;

/// One entry of a biome's spawn table.
#[derive(Clone, Copy, Debug, PartialEq, Eq, Structural)]
pub struct BiomeSpawnData {
    pub spawn_type: SpawnType,
    /// The base rate, in ten-thousandths.
    pub spawn_rate: u32,
    /// The clustering rate, in ten-thousandths.
    pub group_spawn_rate: u32,
}

impl BiomeSpawnData {
    /// The entry with the given fields.
    pub fn new(spawn_type: SpawnType, spawn_rate: u32, group_spawn_rate: u32) -> (e:
        BiomeSpawnData)
        ensures
            e == (BiomeSpawnData { spawn_type, spawn_rate, group_spawn_rate }),
    {
        BiomeSpawnData { spawn_type, spawn_rate, group_spawn_rate }
    }
}

/// The coarse kind of land of a column.
#[derive(Clone, Copy, Debug, PartialEq, Eq, Structural)]
pub enum Biome {
    Forest,
    Field,
    Desert,
}

/// The biome of a biome sample: up to a fifth desert, up to a half field,
/// above that forest. A sample on a bound belongs to the lower band.
pub open spec fn biome_of(sample: int) -> Biome {
    if sample <= DESERT_LIMIT {
        Biome::Desert
    } else if sample <= FIELD_LIMIT {
        Biome::Field
    } else {
        Biome::Forest
    }
}

/// The spawn table of a biome, in its order of priority.
pub open spec fn spawn_table(biome: Biome) -> Seq<BiomeSpawnData> {
    match biome {
        Biome::Forest => seq![
            BiomeSpawnData { spawn_type: SpawnType::Tree, spawn_rate: 1, group_spawn_rate: 3300 },
            BiomeSpawnData {
                spawn_type: SpawnType::Flower,
                spawn_rate: 100,
                group_spawn_rate: 1000,
            },
        ],
        Biome::Field => seq![
            BiomeSpawnData {
                spawn_type: SpawnType::Flower,
                spawn_rate: 200,
                group_spawn_rate: 7000,
            },
        ],
        Biome::Desert => seq![
            BiomeSpawnData {
                spawn_type: SpawnType::Cactus,
                spawn_rate: 200,
                group_spawn_rate: 3000,
            },
        ],
    }
}

/// The clustering boost of an entry at a plant sample, as a weight: twice
/// the clustering rate times the sample where that is above `BOOST_LIMIT`,
/// else nothing.
pub open spec fn group_boost(group_rate: int, plant: int) -> int {
    let boost = 2 * group_rate * plant;
    if boost > BOOST_LIMIT {
        boost
    } else {
        0
    }
}

/// The weight of an entry that is reached with the rates `before` passed
/// over: those rates and its own base rate, and its clustering boost.
pub open spec fn weight(before: int, entry: BiomeSpawnData, plant: int) -> int {
    (before + entry.spawn_rate) * ONE + group_boost(entry.group_spawn_rate as int, plant)
}

/// Whether an entry reached with the rates `before` passed over is taken by
/// the draw.
pub open spec fn takes(before: int, entry: BiomeSpawnData, plant: int, draw: int) -> bool {
    weight(before, entry, plant) >= WEIGHT_PER_DRAW * draw
}

/// The walk over `table` from entry `from` on, with the rates `before`
/// passed over: the first entry that takes the draw wins, and an entry that
/// does not adds its base rate to what is passed over.
pub open spec fn walk(
    table: Seq<BiomeSpawnData>,
    from: int,
    before: int,
    plant: int,
    draw: int,
) -> Option<SpawnType>
    decreases table.len() - from,
{
    if from < 0 || from >= table.len() {
        None
    } else if takes(before, table[from], plant, draw) {
        Some(table[from].spawn_type)
    } else {
        walk(table, from + 1, before + table[from].spawn_rate, plant, draw)
    }
}

/// What `table` spawns at a plant sample for a draw.
pub open spec fn spawn_of(table: Seq<BiomeSpawnData>, plant: int, draw: int) -> Option<SpawnType> {
    walk(table, 0, 0, plant, draw)
}

/// What a column spawns whose noise readings are `biome_reading` and
/// `plant_reading` and whose draw is `draw`.
pub open spec fn spawn_choice(biome_reading: int, plant_reading: int, draw: int) -> Option<
    SpawnType,
> {
    spawn_of(spawn_table(biome_of(sample_of(biome_reading))), sample_of(plant_reading), draw)
}

impl Biome {
    /// The spawn table of the biome, in its order of priority.
    pub fn get_spawn_data(&self) -> (table: Vec<BiomeSpawnData>)
        ensures
            table@ == spawn_table(*self),
    {
        let mut table: Vec<BiomeSpawnData> = Vec::new();
        match self {
            Biome::Forest => {
                table.push(BiomeSpawnData::new(SpawnType::Tree, 1, 3300));
                table.push(BiomeSpawnData::new(SpawnType::Flower, 100, 1000));
            },
            Biome::Field => {
                table.push(BiomeSpawnData::new(SpawnType::Flower, 200, 7000));
            },
            Biome::Desert => {
                table.push(BiomeSpawnData::new(SpawnType::Cactus, 200, 3000));
            },
        }
        table
    }
}

fn boost_of(group_rate: u32, plant: u32) -> (boost: u64)
    requires
        plant <= ONE,
    ensures
        boost == group_boost(group_rate as int, plant as int),
        boost <= 2 * 0xffff_ffff * ONE,
{
    assert(0 <= 2 * (group_rate as int) * (plant as int) <= 2 * 0xffff_ffff * 1_000_000)
        by (nonlinear_arith)
        requires
            0 <= group_rate <= 0xffff_ffff,
            0 <= plant <= 1_000_000,
    ;
    let boost: u64 = 2 * (group_rate as u64) * (plant as u64);
    if boost > BOOST_LIMIT {
        boost
    } else {
        0
    }
}

/// Walks `table` for one column: `plant` is the column's plant sample and
/// `draw` its one draw. The first entry that takes the draw gives the spawn
/// type; where none does, the column spawns nothing.
pub fn pick_spawn(table: &Vec<BiomeSpawnData>, plant: u32, draw: i32) -> (choice: Option<
    SpawnType,
>)
    requires
        plant <= ONE,
    ensures
        choice == spawn_of(table@, plant as int, draw as int),
{
    let mut before: u128 = 0;
    let mut i: usize = 0;
    while i < table.len()
        invariant
            0 <= i <= table.len(),
            plant <= ONE,
            before <= i * 0xffff_ffff,
            spawn_of(table@, plant as int, draw as int) == walk(
                table@,
                i as int,
                before as int,
                plant as int,
                draw as int,
            ),
        decreases table.len() - i,
    {
        let entry = table[i];
        let boost = boost_of(entry.group_spawn_rate, plant);
        assert((i + 1) * 0xffff_ffff <= 0x1_0000_0000_0000_0000 * 0xffff_ffff) by (nonlinear_arith)
            requires
                0 <= i < 0x1_0000_0000_0000_0000,
        ;
        let reached: u128 = before + entry.spawn_rate as u128;
        assert(reached * 1_000_000 <= 0x1_0000_0000_0000_0000 * 0xffff_ffff * 1_000_000)
            by (nonlinear_arith)
            requires
                0 <= reached <= 0x1_0000_0000_0000_0000 * 0xffff_ffff,
        ;
        let total: u128 = reached * 1_000_000 + boost as u128;
        let taken = if draw <= 0 {
            true
        } else {
            total >= (WEIGHT_PER_DRAW as u128) * (draw as u128)
        };
        assert(taken == takes(before as int, entry, plant as int, draw as int)) by {
            if draw <= 0 {
                assert(WEIGHT_PER_DRAW * draw <= 0) by (nonlinear_arith)
                    requires
                        draw <= 0,
                ;
            }
        }
        if taken {
            return Some(entry.spawn_type);
        }
        before = reached;
        i = i + 1;
    }
    None
}

/// How the biome field and the plant field are sampled.
#[derive(Clone, Copy, Debug, PartialEq, Eq, Structural)]
pub struct BiomeConfig {
    /// The step of the biome field per column, in millionths.
    pub biome_sample_rate: u32,
    /// The step of the plant field per column, in millionths.
    pub plant_sample_rate: u32,
}

impl BiomeConfig {
    /// The sample of a reading of one of the two fields.
    pub fn sample(&self, reading: i32) -> (s: u32)
        ensures
            s == sample_of(reading as int),
            s <= ONE,
    {
        normalize(reading)
    }

    /// Where the column `(x, z)` samples the biome field.
    pub fn sample_biome(&self, x: i32, z: i32) -> (p: NoisePoint)
        ensures
            p == scaled(self.biome_sample_rate, x, z),
    {
        scale_point(self.biome_sample_rate, x, z)
    }

    /// Where the column `(x, z)` samples the plant field.
    pub fn sample_plant(&self, x: i32, z: i32) -> (p: NoisePoint)
        ensures
            p == scaled(self.plant_sample_rate, x, z),
    {
        scale_point(self.plant_sample_rate, x, z)
    }

    /// The biome of a column whose reading of the biome field is
    /// `biome_reading`.
    pub fn get_biome(&self, biome_reading: i32) -> (biome: Biome)
        ensures
            biome == biome_of(sample_of(biome_reading as int)),
    {
        let s = self.sample(biome_reading);
        if s <= DESERT_LIMIT {
            Biome::Desert
        } else if s <= FIELD_LIMIT {
            Biome::Field
        } else {
            Biome::Forest
        }
    }

    /// What a column spawns: its biome's table is walked with the sample of
    /// `plant_reading` and the column's one draw.
    pub fn get_spawn_type(&self, biome_reading: i32, plant_reading: i32, draw: i32) -> (choice:
        Option<SpawnType>)
        ensures
            choice == spawn_choice(biome_reading as int, plant_reading as int, draw as int),
    {
        let biome = self.get_biome(biome_reading);
        let table = biome.get_spawn_data();
        pick_spawn(&table, self.sample(plant_reading), draw)
    }
}

/// The base rates of the first `i` entries of `table`, added up: what a
/// walk has passed over when it reaches entry `i`.
pub open spec fn passed(table: Seq<BiomeSpawnData>, i: int) -> int
    decreases i,
{
    if i <= 0 {
        0
    } else {
        passed(table, i - 1) + table[i - 1].spawn_rate
    }
}

proof fn lemma_walk_from(table: Seq<BiomeSpawnData>, from: int, plant: int, draw: int, i: int)
    requires
        0 <= from <= i <= table.len(),
        forall|j: int| from <= j < i ==> !takes(passed(table, j), #[trigger] table[j], plant, draw),
        i < table.len() ==> takes(passed(table, i), table[i], plant, draw),
    ensures
        walk(table, from, passed(table, from), plant, draw) == if i < table.len() {
            Some(table[i].spawn_type)
        } else {
            None
        },
    decreases i - from,
{
    if from < i {
        lemma_walk_from(table, from + 1, plant, draw, i);
    }
}

/// First match wins: a column spawns the type of the first entry of its
/// table that takes the draw, with the base rates of the entries before it
/// passed over.
pub proof fn lemma_first_match_wins(table: Seq<BiomeSpawnData>, plant: int, draw: int, i: int)
    requires
        0 <= i < table.len(),
        forall|j: int| 0 <= j < i ==> !takes(passed(table, j), #[trigger] table[j], plant, draw),
        takes(passed(table, i), table[i], plant, draw),
    ensures
        spawn_of(table, plant, draw) == Some(table[i].spawn_type),
{
    lemma_walk_from(table, 0, plant, draw, i);
}

/// A column spawns nothing exactly where no entry of its table takes the
/// draw.
pub proof fn lemma_no_match(table: Seq<BiomeSpawnData>, plant: int, draw: int)
    requires
        forall|j: int|
            0 <= j < table.len() ==> !takes(passed(table, j), #[trigger] table[j], plant, draw),
    ensures
        spawn_of(table, plant, draw) is None,
{
    lemma_walk_from(table, 0, plant, draw, table.len() as int);
}

/// A greater draw is harder to take: an entry that takes a draw takes every
/// smaller one.
pub proof fn lemma_takes_smaller_draws(
    before: int,
    entry: BiomeSpawnData,
    plant: int,
    draw: int,
    smaller: int,
)
    requires
        takes(before, entry, plant, draw),
        smaller <= draw,
    ensures
        takes(before, entry, plant, smaller),
{
}

} // verus!
