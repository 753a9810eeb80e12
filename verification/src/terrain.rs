//! Chunk generation: ground, spawn points and placed objects.
//!
//! A chunk is a rectangle of columns. Each column has one ground voxel at
//! its surface and at most one spawn point on top of it; a spawn point of a
//! tree or of a flower comes with the object that stands there. What the
//! noise fields read at the columns and what was drawn for them come in as
//! plain values, so a chunk is a function of its inputs.

use crate::biomes::{biome_of, spawn_choice, Biome, BiomeConfig, DRAW_ONE};
use crate::chunk::{ChunkCoord, CHUNK_SIZE};
use crate::color::Color;
use crate::field::{sample_of, scale_point, scaled, normalize, NoisePoint, ONE};
use crate::flower::{flower_dice_ok, flower_from, flower_models, roll_flower, FlowerDice};
use crate::model::{model_views, voxel, InstanceData, Model, ModelView, Translation};
use crate::point::Point;
use crate::random::{draw_range, seeded};
use crate::tree::{roll_tree, tree_dice_ok, tree_from, tree_models, Jitter};
use rand::rngs::StdRng;
use vstd::prelude::*;

verus! {

/// What a column may host.
#[derive(Clone, Copy, Debug, PartialEq, Eq, Structural)]
pub enum SpawnType {
    Tree,
    Flower,
    Cactus,
}

/// The shape of a chunk and of the land in it.
#[derive(Clone, Copy, Debug, PartialEq, Eq, Structural)]
pub struct TerrainConfig {
    /// The step of the height field per column, in millionths.
    pub sample_rate: u32,
    /// The number of columns of a chunk along `x`.
    pub width: i32,
    /// A ceiling that generation does not read.
    pub height: i32,
    /// The number of columns of a chunk along `z`.
    pub depth: i32,
    /// The surface height at a sample of one.
    pub max_height: i32,
    /// The lowest surface height.
    pub min_height: i32,
}

/// The number of columns along an axis of the given extent: none where the
/// extent is negative.
pub open spec fn span(extent: int) -> nat {
    if extent > 0 {
        extent as nat
    } else {
        0
    }
}

/// The surface height at a reading of the height field: the sample's share
/// of `max_height`, cut to a whole cell, not below `min_height`, and held
/// below the top of the grid so that something can stand on it.
pub open spec fn surface(config: TerrainConfig, reading: int) -> int {
    let top = span(config.max_height as int) as int;
    let raw = top * sample_of(reading) / (ONE as int);
    let floored = if raw < config.min_height {
        config.min_height as int
    } else {
        raw
    };
    if floored >= i32::MAX {
        i32::MAX - 1
    } else {
        floored
    }
}

impl TerrainConfig {
    /// The number of columns of a chunk.
    pub open spec fn columns(self) -> nat {
        span(self.width as int) * span(self.depth as int)
    }

    /// Whether the chunk whose first column is `(x, z)` lies in the grid.
    pub open spec fn fits(self, x: i32, z: i32) -> bool {
        &&& x + span(self.width as int) <= i32::MAX + 1
        &&& z + span(self.depth as int) <= i32::MAX + 1
    }

    /// Where the column `(x, z)` samples the height field.
    pub fn sample_point(&self, x: i32, z: i32) -> (p: NoisePoint)
        ensures
            p == scaled(self.sample_rate, x, z),
    {
        scale_point(self.sample_rate, x, z)
    }

    /// The surface height of a column whose reading of the height field is
    /// `reading`.
    pub fn sample(&self, reading: i32) -> (h: i32)
        ensures
            h == surface(*self, reading as int),
            h < i32::MAX,
    {
        let top: i64 = if self.max_height > 0 {
            self.max_height as i64
        } else {
            0
        };
        let s: i64 = normalize(reading) as i64;
        assert(0 <= top * s <= 0x7fff_ffff * 1_000_000) by (nonlinear_arith)
            requires
                0 <= top <= 0x7fff_ffff,
                0 <= s <= 1_000_000,
        ;
        let raw: i64 = top * s / (ONE as i64);
        let floored: i64 = if raw < self.min_height as i64 {
            self.min_height as i64
        } else {
            raw
        };
        if floored >= i32::MAX as i64 {
            i32::MAX - 1
        } else {
            floored as i32
        }
    }
}

/// A column flagged to host an object: the voxel that marks it, one cell
/// above the surface, and what it hosts.
#[derive(Clone, Copy, Debug, PartialEq, Eq, Structural)]
pub struct SpawnPoint {
    pub instance_data: InstanceData,
    pub spawn_type: SpawnType,
}

impl SpawnPoint {
    /// The spawn point with the given fields.
    pub fn new(instance_data: InstanceData, spawn_type: SpawnType) -> (p: SpawnPoint)
        ensures
            p == (SpawnPoint { instance_data, spawn_type }),
    {
        SpawnPoint { instance_data, spawn_type }
    }
}

/// What the three noise fields read at one column, in millionths.
#[derive(Clone, Copy, Debug, PartialEq, Eq, Structural)]
pub struct Readings {
    pub terrain: i32,
    pub biome: i32,
    pub plant: i32,
}

/// Where one column samples the three noise fields.
#[derive(Clone, Copy, Debug, PartialEq, Eq, Structural)]
pub struct ColumnQuery {
    pub terrain: NoisePoint,
    pub biome: NoisePoint,
    pub plant: NoisePoint,
}

/// What was drawn for one column.
#[derive(Clone, Debug, PartialEq, Eq)]
pub struct Roll {
    /// The column's one draw for the spawn decision, from `0 .. DRAW_ONE`.
    pub spawn: i32,
    /// The dice of the flower, should one grow here.
    pub flower: FlowerDice,
    /// The jitters of the tree, should one grow here.
    pub tree: Vec<Jitter>,
}

/// One generated chunk.
#[derive(Clone, Debug, PartialEq, Eq)]
pub struct GenerationPositions {
    /// One voxel for each column, row by row.
    pub ground: Vec<InstanceData>,
    /// The spawn points, in the order of their columns.
    pub spawn_points: Vec<SpawnPoint>,
    /// The objects of the spawn points that have one, in the same order.
    pub objects: Vec<Vec<Model>>,
}

/// What a `GenerationPositions` holds, as a mathematical value.
pub struct ChunkView {
    pub ground: Seq<InstanceData>,
    pub spawn_points: Seq<SpawnPoint>,
    pub objects: Seq<Seq<ModelView>>,
}

/// The views of the objects of `objects`, in order.
pub open spec fn object_views(objects: Seq<Vec<Model>>) -> Seq<Seq<ModelView>> {
    Seq::new(objects.len(), |i: int| model_views(objects[i]@))
}

impl View for GenerationPositions {
    type V = ChunkView;

    open spec fn view(&self) -> ChunkView {
        ChunkView {
            ground: self.ground@,
            spawn_points: self.spawn_points@,
            objects: object_views(self.objects@),
        }
    }
}

impl GenerationPositions {
    /// A chunk with ground and spawn points and no objects.
    pub fn new(ground: Vec<InstanceData>, spawn_points: Vec<SpawnPoint>) -> (chunk:
        GenerationPositions)
        ensures
            chunk@ == (ChunkView {
                ground: ground@,
                spawn_points: spawn_points@,
                objects: Seq::empty(),
            }),
    {
        let objects: Vec<Vec<Model>> = Vec::new();
        assert(object_views(objects@) =~= Seq::empty());
        GenerationPositions { ground, spawn_points, objects }
    }

    /// A chunk with the given ground, spawn points and objects.
    pub fn new_with_object(
        ground: Vec<InstanceData>,
        spawn_points: Vec<SpawnPoint>,
        objects: Vec<Vec<Model>>,
    ) -> (chunk: GenerationPositions)
        ensures
            chunk@ == (ChunkView {
                ground: ground@,
                spawn_points: spawn_points@,
                objects: object_views(objects@),
            }),
    {
        GenerationPositions { ground, spawn_points, objects }
    }
}

/// The colour of the ground of a biome.
pub open spec fn ground_color(biome: Biome) -> Color {
    match biome {
        Biome::Forest | Biome::Field => Color::Grass,
        Biome::Desert => Color::Sand,
    }
}

/// The colour of the voxel that marks a spawn point.
pub open spec fn spawn_color(spawn_type: SpawnType) -> Color {
    match spawn_type {
        SpawnType::Flower => Color::Red,
        SpawnType::Tree => Color::Brown,
        SpawnType::Cactus => Color::Green,
    }
}

/// The `x` of column `k` of a chunk that starts at `x`: columns run along
/// `x` first.
pub open spec fn column_x(x: int, config: TerrainConfig, k: int) -> int {
    x + k % (span(config.width as int) as int)
}

/// The `z` of column `k` of a chunk that starts at `z`.
pub open spec fn column_z(z: int, config: TerrainConfig, k: int) -> int {
    z + k / (span(config.width as int) as int)
}

/// The ground voxel of column `k`: at the surface, in the colour of the
/// column's biome.
pub open spec fn ground_of(x: int, z: int, config: TerrainConfig, k: int, r: Readings)
    -> InstanceData {
    voxel(
        Point {
            x: column_x(x, config, k) as i32,
            y: surface(config, r.terrain as int) as i32,
            z: column_z(z, config, k) as i32,
        },
        ground_color(biome_of(sample_of(r.biome as int))),
    )
}

/// The cell on top of column `k`, where what it spawns stands.
pub open spec fn site_of(x: int, z: int, config: TerrainConfig, k: int, r: Readings) -> Point {
    Point {
        x: column_x(x, config, k) as i32,
        y: (surface(config, r.terrain as int) + 1) as i32,
        z: column_z(z, config, k) as i32,
    }
}

/// What column `k` spawns, if anything.
pub open spec fn choice_of(r: Readings, roll: Roll) -> Option<SpawnType> {
    spawn_choice(r.biome as int, r.plant as int, roll.spawn as int)
}

/// The spawn point of column `k`, if it spawns anything.
pub open spec fn spawn_point_of(
    x: int,
    z: int,
    config: TerrainConfig,
    k: int,
    r: Readings,
    roll: Roll,
) -> Option<SpawnPoint> {
    match choice_of(r, roll) {
        Some(spawn_type) => Some(
            SpawnPoint {
                instance_data: voxel(site_of(x, z, config, k, r), spawn_color(spawn_type)),
                spawn_type,
            },
        ),
        None => None,
    }
}

/// The object of column `k`, if it spawns one: a flower or a tree built from
/// the column's roll, standing on the column's site. A cactus has no object.
pub open spec fn object_of(x: int, z: int, config: TerrainConfig, k: int, r: Readings, roll: Roll)
    -> Option<Seq<ModelView>> {
    match choice_of(r, roll) {
        Some(SpawnType::Flower) => Some(
            flower_models(roll.flower, Translation::at(site_of(x, z, config, k, r))),
        ),
        Some(SpawnType::Tree) => Some(
            tree_models(roll.tree@, Translation::at(site_of(x, z, config, k, r))),
        ),
        _ => None,
    }
}

/// The ground of the first `n` columns.
pub open spec fn ground_upto(
    x: int,
    z: int,
    config: TerrainConfig,
    readings: Seq<Readings>,
    n: int,
) -> Seq<InstanceData> {
    Seq::new(span(n), |k: int| ground_of(x, z, config, k, readings[k]))
}

/// The spawn points of the first `n` columns, in the order of the columns.
pub open spec fn spawns_upto(
    x: int,
    z: int,
    config: TerrainConfig,
    readings: Seq<Readings>,
    rolls: Seq<Roll>,
    n: int,
) -> Seq<SpawnPoint>
    decreases n,
{
    if n <= 0 {
        Seq::empty()
    } else {
        let before = spawns_upto(x, z, config, readings, rolls, n - 1);
        match spawn_point_of(x, z, config, n - 1, readings[n - 1], rolls[n - 1]) {
            Some(p) => before.push(p),
            None => before,
        }
    }
}

/// The objects of the first `n` columns, in the order of the columns.
pub open spec fn objects_upto(
    x: int,
    z: int,
    config: TerrainConfig,
    readings: Seq<Readings>,
    rolls: Seq<Roll>,
    n: int,
) -> Seq<Seq<ModelView>>
    decreases n,
{
    if n <= 0 {
        Seq::empty()
    } else {
        let before = objects_upto(x, z, config, readings, rolls, n - 1);
        match object_of(x, z, config, n - 1, readings[n - 1], rolls[n - 1]) {
            Some(o) => before.push(o),
            None => before,
        }
    }
}

/// The chunk whose first column is `(x, z)`, from what the noise fields
/// read at its columns and what was drawn for them.
pub open spec fn chunk_of(
    x: int,
    z: int,
    config: TerrainConfig,
    readings: Seq<Readings>,
    rolls: Seq<Roll>,
) -> ChunkView {
    ChunkView {
        ground: ground_upto(x, z, config, readings, config.columns() as int),
        spawn_points: spawns_upto(x, z, config, readings, rolls, config.columns() as int),
        objects: objects_upto(x, z, config, readings, rolls, config.columns() as int),
    }
}

/// The colour of the ground of `biome`.
pub fn ground_color_of(biome: Biome) -> (c: Color)
    ensures
        c == ground_color(biome),
{
    match biome {
        Biome::Forest | Biome::Field => Color::Grass,
        Biome::Desert => Color::Sand,
    }
}

/// The colour of the voxel that marks a spawn point of `spawn_type`.
pub fn spawn_color_of(spawn_type: SpawnType) -> (c: Color)
    ensures
        c == spawn_color(spawn_type),
{
    match spawn_type {
        SpawnType::Flower => Color::Red,
        SpawnType::Tree => Color::Brown,
        SpawnType::Cactus => Color::Green,
    }
}

fn extent(n: i32) -> (e: usize)
    ensures
        e == span(n as int),
{
    if n > 0 {
        n as usize
    } else {
        0
    }
}

/// Generates the chunk whose first column is `(x, z)` from what the noise
/// fields read at its columns and what was drawn for them, row by row.
pub fn generate_from_rolls(
    x: i32,
    z: i32,
    config: &TerrainConfig,
    biome_config: &BiomeConfig,
    readings: &Vec<Readings>,
    rolls: &Vec<Roll>,
) -> (chunk: GenerationPositions)
    requires
        config.fits(x, z),
        readings.len() == config.columns(),
        rolls.len() == config.columns(),
    ensures
        chunk@ == chunk_of(x as int, z as int, *config, readings@, rolls@),
        chunk.ground.len() == config.columns(),
{
    let mut ground: Vec<InstanceData> = Vec::new();
    let mut spawn_points: Vec<SpawnPoint> = Vec::new();
    let mut objects: Vec<Vec<Model>> = Vec::new();
    let cols = extent(config.width);
    let rows = extent(config.depth);
    let n = readings.len();
    let mut k: usize = 0;
    while k < n
        invariant
            0 <= k <= n,
            n == config.columns(),
            n == readings.len(),
            n == rolls.len(),
            cols == span(config.width as int),
            rows == span(config.depth as int),
            config.fits(x, z),
            ground@ == ground_upto(x as int, z as int, *config, readings@, k as int),
            spawn_points@ == spawns_upto(x as int, z as int, *config, readings@, rolls@, k as int),
            object_views(objects@) == objects_upto(
                x as int,
                z as int,
                *config,
                readings@,
                rolls@,
                k as int,
            ),
        decreases n - k,
    {
        assert(cols > 0 && k / cols < rows) by (nonlinear_arith)
            requires
                k < cols * rows,
                0 <= rows,
                0 <= cols,
        ;
        let r = readings[k];
        let cx: i32 = (x as i64 + (k % cols) as i64) as i32;
        let cz: i32 = (z as i64 + (k / cols) as i64) as i32;
        let h = config.sample(r.terrain);
        let biome = biome_config.get_biome(r.biome);
        ground.push(InstanceData::new(Point::new(cx, h, cz), ground_color_of(biome)));
        let site = Point::new(cx, h + 1, cz);
        match biome_config.get_spawn_type(r.biome, r.plant, rolls[k].spawn) {
            Some(spawn_type) => {
                spawn_points.push(
                    SpawnPoint::new(
                        InstanceData::new(site, spawn_color_of(spawn_type)),
                        spawn_type,
                    ),
                );
                match spawn_type {
                    SpawnType::Flower => {
                        let object = flower_from(rolls[k].flower, Translation::of_cell(site));
                        objects.push(object);
                    },
                    SpawnType::Tree => {
                        let object = tree_from(&rolls[k].tree, Translation::of_cell(site));
                        objects.push(object);
                    },
                    SpawnType::Cactus => {},
                }
            },
            None => {},
        }
        k = k + 1;
    }
    GenerationPositions::new_with_object(ground, spawn_points, objects)
}

/// Where column `k` of the chunk that starts at `(x, z)` samples the three
/// noise fields.
pub open spec fn query_of(
    x: int,
    z: int,
    config: TerrainConfig,
    biome_config: BiomeConfig,
    k: int,
) -> ColumnQuery {
    let cx = column_x(x, config, k) as i32;
    let cz = column_z(z, config, k) as i32;
    ColumnQuery {
        terrain: scaled(config.sample_rate, cx, cz),
        biome: scaled(biome_config.biome_sample_rate, cx, cz),
        plant: scaled(biome_config.plant_sample_rate, cx, cz),
    }
}

/// Lists where each column of the chunk that starts at `(x, z)` samples the
/// three noise fields, row by row: the readings taken there, in this order,
/// are what `generate_terrain` takes.
pub fn sample_points(x: i32, z: i32, config: &TerrainConfig, biome_config: &BiomeConfig) -> (queries:
    Vec<ColumnQuery>)
    requires
        config.fits(x, z),
        config.columns() <= usize::MAX,
    ensures
        queries.len() == config.columns(),
        forall|k: int|
            0 <= k < queries.len() ==> queries[k] == query_of(
                x as int,
                z as int,
                *config,
                *biome_config,
                k,
            ),
{
    let cols = extent(config.width);
    let rows = extent(config.depth);
    let n = cols * rows;
    let mut queries: Vec<ColumnQuery> = Vec::new();
    let mut k: usize = 0;
    while k < n
        invariant
            0 <= k <= n,
            n == config.columns(),
            cols == span(config.width as int),
            rows == span(config.depth as int),
            config.fits(x, z),
            queries.len() == k,
            forall|j: int|
                0 <= j < k ==> queries[j] == query_of(
                    x as int,
                    z as int,
                    *config,
                    *biome_config,
                    j,
                ),
        decreases n - k,
    {
        assert(cols > 0 && k / cols < rows) by (nonlinear_arith)
            requires
                k < cols * rows,
                0 <= rows,
                0 <= cols,
        ;
        let cx: i32 = (x as i64 + (k % cols) as i64) as i32;
        let cz: i32 = (z as i64 + (k / cols) as i64) as i32;
        queries.push(
            ColumnQuery {
                terrain: config.sample_point(cx, cz),
                biome: biome_config.sample_biome(cx, cz),
                plant: biome_config.sample_plant(cx, cz),
            },
        );
        k = k + 1;
    }
    queries
}

/// Whether `roll` is what `roll_column` may draw for a column with the
/// readings `r`: the spawn draw is in its range, and the dice of the object
/// that the column spawns are in theirs. Dice that the column has no use
/// for are not drawn and may hold anything.
pub open spec fn roll_fits(r: Readings, roll: Roll) -> bool {
    &&& 0 <= roll.spawn < DRAW_ONE
    &&& choice_of(r, roll) == Some(SpawnType::Flower) ==> flower_dice_ok(roll.flower)
    &&& choice_of(r, roll) == Some(SpawnType::Tree) ==> tree_dice_ok(roll.tree@)
}

/// Whether `rolls` holds one roll for each of `readings` that `roll_columns`
/// may draw.
pub open spec fn rolls_fit(readings: Seq<Readings>, rolls: Seq<Roll>) -> bool {
    &&& rolls.len() == readings.len()
    &&& forall|k: int| 0 <= k < rolls.len() ==> roll_fits(readings[k], #[trigger] rolls[k])
}

/// Draws the roll of a column with the readings `r`: the one draw of the
/// spawn decision, and then only the dice of the object that the column
/// spawns. The other dice stay blank.
pub fn roll_column(rng: &mut StdRng, biome_config: &BiomeConfig, r: Readings) -> (roll: Roll)
    ensures
        roll_fits(r, roll),
        choice_of(r, roll) != Some(SpawnType::Flower) ==> roll.flower == (FlowerDice {
            stem: 0,
            bloom: 0,
            lean_x: 0,
            lean_z: 0,
        }),
        choice_of(r, roll) != Some(SpawnType::Tree) ==> roll.tree@.len() == 0,
{
    let spawn = draw_range(rng, 0, DRAW_ONE);
    let mut flower = FlowerDice { stem: 0, bloom: 0, lean_x: 0, lean_z: 0 };
    let mut tree: Vec<Jitter> = Vec::new();
    match biome_config.get_spawn_type(r.biome, r.plant, spawn) {
        Some(SpawnType::Flower) => {
            flower = roll_flower(rng);
        },
        Some(SpawnType::Tree) => {
            tree = roll_tree(rng);
        },
        _ => {},
    }
    Roll { spawn, flower, tree }
}

/// Draws the rolls of the columns with the readings `readings`, in order.
pub fn roll_columns(rng: &mut StdRng, biome_config: &BiomeConfig, readings: &Vec<Readings>) -> (rolls:
    Vec<Roll>)
    ensures
        rolls_fit(readings@, rolls@),
{
    let mut rolls: Vec<Roll> = Vec::new();
    let mut k: usize = 0;
    while k < readings.len()
        invariant
            0 <= k <= readings.len(),
            rolls.len() == k,
            forall|j: int| 0 <= j < k ==> roll_fits(readings[j], #[trigger] rolls[j]),
        decreases readings.len() - k,
    {
        let roll = roll_column(rng, biome_config, readings[k]);
        rolls.push(roll);
        k = k + 1;
    }
    rolls
}

/// Generates the chunk whose first column is `(x, z)`. `readings` holds what
/// the noise fields read at its columns, row by row; the rolls of the
/// columns are drawn from a generator seeded with `seed`.
///
/// The ground is fixed by the readings. Spawn points and objects are those
/// of `chunk_of` for the rolls that were drawn.
pub fn generate_terrain(
    x: i32,
    z: i32,
    config: &TerrainConfig,
    biome_config: &BiomeConfig,
    readings: &Vec<Readings>,
    seed: u64,
) -> (chunk: GenerationPositions)
    requires
        config.fits(x, z),
        readings.len() == config.columns(),
    ensures
        exists|rolls: Seq<Roll>|
            rolls_fit(readings@, rolls) && chunk@ == chunk_of(
                x as int,
                z as int,
                *config,
                readings@,
                rolls,
            ),
        chunk.ground@ == ground_upto(
            x as int,
            z as int,
            *config,
            readings@,
            config.columns() as int,
        ),
        chunk.ground.len() == config.columns(),
{
    let mut rng = seeded(seed);
    let rolls = roll_columns(&mut rng, biome_config, readings);
    generate_from_rolls(x, z, config, biome_config, readings, &rolls)
}

/// The seed of the chunk `coord` in a world with the seed `world_seed`.
pub open spec fn chunk_seed_of(world_seed: u64, coord: ChunkCoord) -> u64 {
    ((world_seed + coord.key_of()) % 0x1_0000_0000_0000_0000) as u64
}

/// The seed from which the rolls of one chunk are drawn: the world's seed
/// moved on by the chunk's key, so that no two chunks of a world share one.
pub fn chunk_seed(world_seed: u64, coord: ChunkCoord) -> (seed: u64)
    ensures
        seed == chunk_seed_of(world_seed, coord),
{
    world_seed.wrapping_add(coord.key())
}

/// Two chunks of one world have different seeds.
pub proof fn lemma_chunk_seeds_apart(world_seed: u64, a: ChunkCoord, b: ChunkCoord)
    requires
        a != b,
    ensures
        chunk_seed_of(world_seed, a) != chunk_seed_of(world_seed, b),
{
    ChunkCoord::lemma_key_injective(a, b);
}

/// Generates the chunk `chunk` of a world with the seed `world_seed`, from
/// what the noise fields read at its columns.
pub fn generate_chunk(
    biome_config: &BiomeConfig,
    terrain_config: &TerrainConfig,
    chunk: ChunkCoord,
    readings: &Vec<Readings>,
    world_seed: u64,
) -> (data: GenerationPositions)
    requires
        chunk.in_grid(),
        terrain_config.fits((chunk.x * CHUNK_SIZE) as i32, (chunk.z * CHUNK_SIZE) as i32),
        readings.len() == terrain_config.columns(),
    ensures
        exists|rolls: Seq<Roll>|
            rolls_fit(readings@, rolls) && data@ == chunk_of(
                chunk.x * CHUNK_SIZE,
                chunk.z * CHUNK_SIZE,
                *terrain_config,
                readings@,
                rolls,
            ),
        data.ground@ == ground_upto(
            chunk.x * CHUNK_SIZE,
            chunk.z * CHUNK_SIZE,
            *terrain_config,
            readings@,
            terrain_config.columns() as int,
        ),
        data.ground.len() == terrain_config.columns(),
{
    let origin = chunk.origin();
    generate_terrain(
        origin.0,
        origin.1,
        terrain_config,
        biome_config,
        readings,
        chunk_seed(world_seed, chunk),
    )
}

/// The columns of the spawn points of the first `n` columns, in order.
pub open spec fn spawn_columns(readings: Seq<Readings>, rolls: Seq<Roll>, n: int) -> Seq<int>
    decreases n,
{
    if n <= 0 {
        Seq::empty()
    } else {
        let before = spawn_columns(readings, rolls, n - 1);
        match choice_of(readings[n - 1], rolls[n - 1]) {
            Some(_) => before.push(n - 1),
            None => before,
        }
    }
}

/// Every spawn point among the first `n` columns belongs to one of them, and
/// to a later one than the spawn point before it: no column has two. An
/// object belongs to a spawn point, so there are no more objects than spawn
/// points, and no more spawn points than columns.
pub proof fn lemma_spawns_by_column(
    x: int,
    z: int,
    config: TerrainConfig,
    readings: Seq<Readings>,
    rolls: Seq<Roll>,
    n: int,
)
    requires
        0 <= n,
    ensures
        ({
            let points = spawns_upto(x, z, config, readings, rolls, n);
            let columns = spawn_columns(readings, rolls, n);
            let objects = objects_upto(x, z, config, readings, rolls, n);
            &&& columns.len() == points.len()
            &&& objects.len() <= points.len() <= n
            &&& forall|i: int|
                0 <= i < points.len() ==> 0 <= #[trigger] columns[i] < n && spawn_point_of(
                    x,
                    z,
                    config,
                    columns[i],
                    readings[columns[i]],
                    rolls[columns[i]],
                ) == Some(points[i])
            &&& forall|i: int, j: int|
                0 <= i < j < points.len() ==> #[trigger] columns[i] < #[trigger] columns[j]
        }),
    decreases n,
{
    if n > 0 {
        lemma_spawns_by_column(x, z, config, readings, rolls, n - 1);
    }
}

/// Two columns of a chunk that lies in the grid do not share their place.
pub proof fn lemma_columns_apart(x: i32, z: i32, config: TerrainConfig, a: int, b: int)
    requires
        config.fits(x, z),
        0 <= a < b < config.columns(),
    ensures
        column_x(x as int, config, a) as i32 != column_x(x as int, config, b) as i32 || column_z(
            z as int,
            config,
            a,
        ) as i32 != column_z(z as int, config, b) as i32,
{
    let cols = span(config.width as int) as int;
    let rows = span(config.depth as int) as int;
    assert(cols > 0 && a / cols < rows && b / cols < rows) by (nonlinear_arith)
        requires
            0 <= a < b < cols * rows,
            0 <= rows,
            0 <= cols,
    ;
    vstd::arithmetic::div_mod::lemma_fundamental_div_mod(a, cols);
    vstd::arithmetic::div_mod::lemma_fundamental_div_mod(b, cols);
}

/// Spawn exclusivity: no two spawn points of a chunk stand on the same
/// column.
pub proof fn lemma_spawn_exclusive(
    x: i32,
    z: i32,
    config: TerrainConfig,
    readings: Seq<Readings>,
    rolls: Seq<Roll>,
    i: int,
    j: int,
)
    requires
        config.fits(x, z),
        0 <= i < j < chunk_of(x as int, z as int, config, readings, rolls).spawn_points.len(),
    ensures
        ({
            let points = chunk_of(x as int, z as int, config, readings, rolls).spawn_points;
            points[i].instance_data.position.x != points[j].instance_data.position.x
                || points[i].instance_data.position.z != points[j].instance_data.position.z
        }),
{
    let n = config.columns() as int;
    lemma_spawns_by_column(x as int, z as int, config, readings, rolls, n);
    let columns = spawn_columns(readings, rolls, n);
    lemma_columns_apart(x, z, config, columns[i], columns[j]);
}

/// Coverage: a chunk has one ground voxel for each of its columns, and no
/// more spawn points or objects than columns.
pub proof fn lemma_coverage(
    x: int,
    z: int,
    config: TerrainConfig,
    readings: Seq<Readings>,
    rolls: Seq<Roll>,
)
    ensures
        chunk_of(x, z, config, readings, rolls).ground.len() == span(config.width as int) * span(
            config.depth as int,
        ),
        chunk_of(x, z, config, readings, rolls).spawn_points.len() <= config.columns(),
        chunk_of(x, z, config, readings, rolls).objects.len() <= chunk_of(
            x,
            z,
            config,
            readings,
            rolls,
        ).spawn_points.len(),
{
    lemma_spawns_by_column(x, z, config, readings, rolls, config.columns() as int);
}

/// Determinism: two chunks generated from the same inputs hold the same
/// ground, spawn points and objects.
pub proof fn lemma_generation_deterministic(
    a: GenerationPositions,
    b: GenerationPositions,
    x: int,
    z: int,
    config: TerrainConfig,
    readings: Seq<Readings>,
    rolls: Seq<Roll>,
)
    requires
        a@ == chunk_of(x, z, config, readings, rolls),
        b@ == chunk_of(x, z, config, readings, rolls),
    ensures
        a@ == b@,
        a.ground@ == b.ground@,
        a.spawn_points@ == b.spawn_points@,
        object_views(a.objects@) == object_views(b.objects@),
{
}

} // verus!
