use voxel_garden::biomes::BiomeConfig;
use voxel_garden::chunk::ChunkCoord;
use voxel_garden::color::Color;
use voxel_garden::field::NoisePoint;
use voxel_garden::flower::{flower_from, FlowerDice};
use voxel_garden::model::{InstanceData, Translation};
use voxel_garden::point::Point;
use rand::rngs::StdRng;
use rand::SeedableRng;
use voxel_garden::terrain::{
    chunk_seed, generate_chunk, generate_from_rolls, generate_terrain, ground_color_of,
    roll_column, roll_columns, sample_points, spawn_color_of, ColumnQuery, GenerationPositions,
    Readings, Roll, SpawnPoint, SpawnType, TerrainConfig,
};
use voxel_garden::tree::{tree_from, Jitter};
use voxel_garden::biomes::Biome;

fn p(x: i32, y: i32, z: i32) -> Point {
    Point { x, y, z }
}

fn terrain(width: i32, depth: i32) -> TerrainConfig {
    TerrainConfig { sample_rate: 4_000, width, height: 20, depth, max_height: 40, min_height: 6 }
}

fn biomes() -> BiomeConfig {
    BiomeConfig { biome_sample_rate: 1_000, plant_sample_rate: 300_000 }
}

/// The reading whose sample is `sample`.
fn reading(sample: i32) -> i32 {
    2 * sample - 1_000_000
}

fn readings(terrain: i32, biome: i32, plant: i32) -> Readings {
    Readings { terrain: reading(terrain), biome: reading(biome), plant: reading(plant) }
}

fn roll(spawn: i32) -> Roll {
    Roll {
        spawn,
        flower: FlowerDice { stem: 4, bloom: 40, lean_x: -3, lean_z: 9 },
        tree: (0..12).map(|k| Jitter { x: k % 3 - 1, z: 1 - k % 3 }).collect(),
    }
}

#[test]
fn surface_height_is_the_share_of_max_height() {
    let c = terrain(32, 32);
    assert_eq!(c.sample(reading(500_000)), 20);
    assert_eq!(c.sample(reading(1_000_000)), 40);
    assert_eq!(c.sample(reading(524_999)), 20);
    assert_eq!(c.sample(reading(525_000)), 21);
}

#[test]
fn surface_height_is_not_below_min_height() {
    let c = terrain(32, 32);
    assert_eq!(c.sample(reading(0)), 6);
    assert_eq!(c.sample(reading(150_000)), 6);
    assert_eq!(c.sample(reading(175_000)), 7);
}

#[test]
fn surface_height_of_a_degenerate_sample_is_held_in_bounds() {
    let c = terrain(32, 32);
    assert_eq!(c.sample(i32::MAX), 40);
    assert_eq!(c.sample(i32::MIN), 6);
    let odd = TerrainConfig { max_height: -5, min_height: i32::MAX, ..terrain(1, 1) };
    assert_eq!(odd.sample(0), i32::MAX - 1);
    let low = TerrainConfig { max_height: -5, min_height: -9, ..terrain(1, 1) };
    assert_eq!(low.sample(0), 0);
}

#[test]
fn colours_of_ground_and_spawn_points() {
    assert_eq!(ground_color_of(Biome::Forest), Color::Grass);
    assert_eq!(ground_color_of(Biome::Field), Color::Grass);
    assert_eq!(ground_color_of(Biome::Desert), Color::Sand);
    assert_eq!(spawn_color_of(SpawnType::Flower), Color::Red);
    assert_eq!(spawn_color_of(SpawnType::Tree), Color::Brown);
    assert_eq!(spawn_color_of(SpawnType::Cactus), Color::Green);
}

#[test]
fn sample_points_lists_the_columns_row_by_row() {
    let queries = sample_points(10, -20, &terrain(2, 2), &biomes());
    let q = |x: i64, z: i64| ColumnQuery {
        terrain: NoisePoint { x: 4_000 * x, z: 4_000 * z },
        biome: NoisePoint { x: 1_000 * x, z: 1_000 * z },
        plant: NoisePoint { x: 300_000 * x, z: 300_000 * z },
    };
    assert_eq!(queries, vec![q(10, -20), q(11, -20), q(10, -19), q(11, -19)]);
}

#[test]
fn sample_points_of_an_empty_chunk() {
    assert!(sample_points(0, 0, &terrain(0, 5), &biomes()).is_empty());
    assert!(sample_points(0, 0, &terrain(5, -1), &biomes()).is_empty());
}

#[test]
fn chunk_from_rolls() {
    let config = terrain(2, 2);
    let r = vec![
        readings(500_000, 100_000, 0),
        readings(500_000, 300_000, 0),
        readings(1_000_000, 800_000, 0),
        readings(0, 800_000, 0),
    ];
    let rolls = vec![roll(100_000), roll(100_000), roll(500), roll(60_000)];
    let chunk = generate_from_rolls(10, -20, &config, &biomes(), &r, &rolls);
    assert_eq!(
        chunk.ground,
        vec![
            InstanceData::new(p(10, 20, -20), Color::Sand),
            InstanceData::new(p(11, 20, -20), Color::Grass),
            InstanceData::new(p(10, 40, -19), Color::Grass),
            InstanceData::new(p(11, 6, -19), Color::Grass),
        ]
    );
    assert_eq!(
        chunk.spawn_points,
        vec![
            SpawnPoint::new(InstanceData::new(p(10, 21, -20), Color::Green), SpawnType::Cactus),
            SpawnPoint::new(InstanceData::new(p(11, 21, -20), Color::Red), SpawnType::Flower),
            SpawnPoint::new(InstanceData::new(p(10, 41, -19), Color::Brown), SpawnType::Tree),
        ]
    );
    assert_eq!(chunk.objects.len(), 2);
    assert_eq!(
        chunk.objects[0],
        flower_from(rolls[1].flower, Translation { x: 110, y: 210, z: -200 })
    );
    assert_eq!(chunk.objects[1], tree_from(&rolls[2].tree, Translation { x: 100, y: 410, z: -190 }));
}

#[test]
fn chunk_without_spawns_has_ground_only() {
    let config = terrain(3, 1);
    let r = vec![readings(500_000, 300_000, 0); 3];
    let rolls = vec![roll(999_999_999); 3];
    let chunk = generate_from_rolls(0, 0, &config, &biomes(), &r, &rolls);
    assert_eq!(chunk.ground.len(), 3);
    assert!(chunk.spawn_points.is_empty());
    assert!(chunk.objects.is_empty());
    assert_eq!(chunk, GenerationPositions::new(chunk.ground.clone(), Vec::new()));
}

#[test]
fn chunk_from_rolls_is_deterministic() {
    let config = terrain(4, 4);
    let r: Vec<Readings> =
        (0..16).map(|k| readings(60_000 * k, 62_500 * k, 1_000_000 - 50_000 * k)).collect();
    let rolls: Vec<Roll> = (0..16).map(|k| roll(40_000 * k)).collect();
    let a = generate_from_rolls(-64, 32, &config, &biomes(), &r, &rolls);
    let b = generate_from_rolls(-64, 32, &config, &biomes(), &r, &rolls);
    assert_eq!(a, b);
}

#[test]
fn generate_terrain_is_deterministic_for_a_seed() {
    let config = terrain(32, 32);
    let r: Vec<Readings> = (0..1024)
        .map(|k| readings(900 * k, (977 * k) % 1_000_000, (7_919 * k) % 1_000_000))
        .collect();
    let a = generate_terrain(0, 0, &config, &biomes(), &r, 555);
    let b = generate_terrain(0, 0, &config, &biomes(), &r, 555);
    assert_eq!(a, b);
}

#[test]
fn generate_terrain_covers_every_column_once() {
    let config = terrain(32, 32);
    let r: Vec<Readings> = (0..1024)
        .map(|k| readings(900 * k, (977 * k) % 1_000_000, (7_919 * k) % 1_000_000))
        .collect();
    let chunk = generate_terrain(64, -32, &config, &biomes(), &r, 1);
    assert_eq!(chunk.ground.len(), 32 * 32);
    for (k, v) in chunk.ground.iter().enumerate() {
        assert_eq!(v.position.x, 64 + (k % 32) as i32);
        assert_eq!(v.position.z, -32 + (k / 32) as i32);
        assert_eq!(v.position.y, config.sample(r[k].terrain));
    }
    let wide = terrain(5, 3);
    let few = vec![readings(0, 0, 0); 15];
    assert_eq!(generate_terrain(0, 0, &wide, &biomes(), &few, 1).ground.len(), 15);
}

#[test]
fn generate_terrain_spawns_at_most_once_per_column() {
    let config = terrain(32, 32);
    let r = vec![readings(500_000, 800_000, 1_000_000); 1024];
    let mut spawned = 0;
    for seed in 0..20u64 {
        let chunk = generate_terrain(0, 0, &config, &biomes(), &r, seed);
        let columns: Vec<(i32, i32)> =
            chunk.spawn_points.iter().map(|s| (s.instance_data.position.z, s.instance_data.position.x)).collect();
        for pair in columns.windows(2) {
            assert!(pair[0] < pair[1]);
        }
        assert!(chunk.spawn_points.len() <= 1024);
        let with_object =
            chunk.spawn_points.iter().filter(|s| s.spawn_type != SpawnType::Cactus).count();
        assert_eq!(chunk.objects.len(), with_object);
        for s in &chunk.spawn_points {
            assert_eq!(s.instance_data.position.y, 21);
            assert_eq!(s.instance_data.color, spawn_color_of(s.spawn_type));
        }
        spawned += chunk.spawn_points.len();
    }
    assert!(spawned > 0);
    assert!(spawned < 20 * 1024);
}

#[test]
fn chunk_seeds_differ_between_chunks() {
    let a = chunk_seed(555, ChunkCoord::new(0, 0));
    assert_eq!(a, 555 + (1u64 << 63) + (1u64 << 31));
    assert_eq!(chunk_seed(555, ChunkCoord::new(0, 1)), a + 1);
    assert_eq!(chunk_seed(555, ChunkCoord::new(1, 0)), a + (1u64 << 32));
    assert_eq!(chunk_seed(u64::MAX, ChunkCoord::new(i32::MIN, i32::MIN)), u64::MAX);
    assert_eq!(chunk_seed(u64::MAX, ChunkCoord::new(i32::MIN, i32::MIN + 2)), 1);
}

#[test]
fn generate_chunk_starts_at_the_origin_of_the_chunk() {
    let config = terrain(32, 32);
    let r = vec![readings(500_000, 300_000, 0); 1024];
    let chunk = generate_chunk(&biomes(), &config, ChunkCoord::new(-2, 3), &r, 555);
    assert_eq!(chunk.ground.len(), 1024);
    assert_eq!(chunk.ground[0], InstanceData::new(p(-64, 20, 96), Color::Grass));
    assert_eq!(chunk.ground[1023], InstanceData::new(p(-33, 20, 127), Color::Grass));
    assert_eq!(chunk, generate_chunk(&biomes(), &config, ChunkCoord::new(-2, 3), &r, 555));
    assert_eq!(
        chunk,
        generate_terrain(-64, 96, &config, &biomes(), &r, chunk_seed(555, ChunkCoord::new(-2, 3)))
    );
}

#[test]
fn rolls_hold_dice_only_for_what_the_column_spawns() {
    let mut rng = StdRng::seed_from_u64(1);
    let mut spawns = Vec::new();
    let mut kinds = [0, 0, 0, 0];
    for k in 0..3000 {
        let r = readings(500_000, [100_000, 300_000, 800_000][k % 3], 1_000_000);
        let roll = roll_column(&mut rng, &biomes(), r);
        assert!((0..1_000_000_000).contains(&roll.spawn));
        match biomes().get_spawn_type(r.biome, r.plant, roll.spawn) {
            Some(SpawnType::Flower) => {
                assert!((3..9).contains(&roll.flower.stem));
                assert!((0..100).contains(&roll.flower.bloom));
                assert!((-1000..1000).contains(&roll.flower.lean_x));
                assert!((-1000..1000).contains(&roll.flower.lean_z));
                assert!(roll.tree.is_empty());
                kinds[0] += 1;
            }
            Some(SpawnType::Tree) => {
                assert_eq!(roll.tree.len(), 12);
                for (i, j) in roll.tree.iter().enumerate() {
                    let reach = [7, 7, 7, 7, 7, 7, 5, 5, 5, 5, 3, 3][i];
                    assert!((-reach..reach).contains(&j.x));
                    assert!((-reach..reach).contains(&j.z));
                }
                assert_eq!(roll.flower, FlowerDice { stem: 0, bloom: 0, lean_x: 0, lean_z: 0 });
                kinds[1] += 1;
            }
            Some(SpawnType::Cactus) => {
                assert!(roll.tree.is_empty());
                kinds[2] += 1;
            }
            None => {
                assert!(roll.tree.is_empty());
                assert_eq!(roll.flower, FlowerDice { stem: 0, bloom: 0, lean_x: 0, lean_z: 0 });
                kinds[3] += 1;
            }
        }
        spawns.push(roll.spawn);
    }
    assert!(spawns.iter().any(|s| *s != spawns[0]));
    assert!(spawns.iter().any(|s| *s != 0));
    assert!(kinds[3] > kinds[0] + kinds[1] + kinds[2]);
}

#[test]
fn generate_terrain_is_the_chunk_of_the_rolls_of_its_seed() {
    let config = terrain(8, 8);
    let r: Vec<Readings> =
        (0..64).map(|k| readings(15_000 * k, 15_000 * k, 1_000_000)).collect();
    let mut rng = StdRng::seed_from_u64(4242);
    let rolls = roll_columns(&mut rng, &biomes(), &r);
    assert_eq!(rolls.len(), 64);
    assert_eq!(
        generate_terrain(5, 5, &config, &biomes(), &r, 4242),
        generate_from_rolls(5, 5, &config, &biomes(), &r, &rolls)
    );
}
