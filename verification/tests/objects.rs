use voxel_garden::color::Color;
use voxel_garden::flower::{
    choose_bloom, flower_from, gen_blue_flower, gen_purple_flower, gen_red_flower,
    proc_gen_flower, Bloom, FlowerDice,
};
use voxel_garden::model::{painted, InstanceData, Model, Rotation, Translation};
use voxel_garden::point::Point;
use voxel_garden::primitives::{circle, sphere};
use voxel_garden::rock::{rock, rock_from, Pebble};
use voxel_garden::tree::{tree, tree_from, Jitter};

fn p(x: i32, y: i32, z: i32) -> Point {
    Point { x, y, z }
}

fn at(x: i64, y: i64, z: i64) -> Translation {
    Translation { x, y, z }
}

#[test]
fn instance_data_is_dry_land() {
    let v = InstanceData::new(p(1, 2, 3), Color::Sand);
    assert_eq!(v, InstanceData { position: p(1, 2, 3), color: Color::Sand, is_water: 0 });
}

#[test]
fn painted_keeps_the_order_of_the_cells() {
    let voxels = painted(&vec![p(1, 0, 0), p(0, 1, 0)], Color::Grey);
    assert_eq!(
        voxels,
        vec![InstanceData::new(p(1, 0, 0), Color::Grey), InstanceData::new(p(0, 1, 0), Color::Grey)]
    );
}

#[test]
fn translation_counts_tenths_of_a_cell() {
    assert_eq!(Translation::of_cell(p(3, -4, 5)), at(30, -40, 50));
    assert_eq!(at(30, -40, 50).step(1, 2, -3), at(31, -38, 47));
}

#[test]
fn bloom_draw_bands() {
    assert_eq!(choose_bloom(0), Bloom::Red);
    assert_eq!(choose_bloom(32), Bloom::Red);
    assert_eq!(choose_bloom(33), Bloom::Blue);
    assert_eq!(choose_bloom(66), Bloom::Blue);
    assert_eq!(choose_bloom(67), Bloom::Purple);
    assert_eq!(choose_bloom(99), Bloom::Purple);
}

#[test]
fn blue_bloom_is_a_cross_around_a_yellow_heart() {
    let m = gen_blue_flower(Rotation::Identity, at(1, 2, 3));
    assert_eq!(
        m.points,
        vec![
            InstanceData::new(p(0, 0, 0), Color::Yellow),
            InstanceData::new(p(1, 0, 0), Color::Blue),
            InstanceData::new(p(-1, 0, 0), Color::Blue),
            InstanceData::new(p(0, 0, 1), Color::Blue),
            InstanceData::new(p(0, 0, -1), Color::Blue),
        ]
    );
    assert_eq!(m.rotation, Rotation::Identity);
    assert_eq!(m.translation, at(1, 2, 3));
}

#[test]
fn red_and_purple_blooms_have_thirteen_voxels() {
    let red = gen_red_flower(Rotation::Lean { x: 1, z: 2 }, at(0, 0, 0));
    assert_eq!(red.points.len(), 13);
    assert_eq!(red.points[0], InstanceData::new(p(0, 0, 0), Color::Orange));
    assert_eq!(red.points[2], InstanceData::new(p(1, 0, 1), Color::Red));
    assert_eq!(red.points[12], InstanceData::new(p(0, 1, -1), Color::Red));
    assert_eq!(red.rotation, Rotation::Lean { x: 1, z: 2 });
    let purple = gen_purple_flower(Rotation::Identity, at(0, 0, 0));
    assert_eq!(purple.points.len(), 13);
    assert_eq!(purple.points[0], InstanceData::new(p(0, 0, 0), Color::Yellow));
    assert_eq!(purple.points[9], InstanceData::new(p(2, 1, 0), Color::Purple));
    assert_eq!(purple.points[12], InstanceData::new(p(0, 1, -2), Color::Purple));
}

#[test]
fn flower_is_a_stem_under_a_leaning_bloom() {
    let dice = FlowerDice { stem: 3, bloom: 10, lean_x: 5, lean_z: -7 };
    let models = flower_from(dice, at(100, 200, 300));
    assert_eq!(models.len(), 2);
    let stem = Model {
        points: vec![
            InstanceData::new(p(0, 0, 0), Color::Brown),
            InstanceData::new(p(0, 1, 0), Color::Brown),
            InstanceData::new(p(0, 2, 0), Color::Brown),
        ],
        rotation: Rotation::Identity,
        translation: at(100, 200, 300),
    };
    assert_eq!(models[0], stem);
    assert_eq!(models[1], gen_red_flower(Rotation::Lean { x: 5, z: -7 }, at(100, 228, 300)));
}

#[test]
fn flower_bloom_follows_the_draw() {
    let blue = flower_from(FlowerDice { stem: 8, bloom: 50, lean_x: 0, lean_z: 0 }, at(0, 0, 0));
    assert_eq!(blue[0].points.len(), 8);
    assert_eq!(blue[1], gen_blue_flower(Rotation::Lean { x: 0, z: 0 }, at(0, 78, 0)));
    let purple = flower_from(FlowerDice { stem: 4, bloom: 67, lean_x: 0, lean_z: 0 }, at(0, 0, 0));
    assert_eq!(purple[1], gen_purple_flower(Rotation::Lean { x: 0, z: 0 }, at(0, 38, 0)));
}

#[test]
fn flower_without_stem_has_an_empty_stem_model() {
    let models = flower_from(FlowerDice { stem: 0, bloom: 0, lean_x: 0, lean_z: 0 }, at(0, 0, 0));
    assert_eq!(models.len(), 2);
    assert!(models[0].points.is_empty());
    assert_eq!(models[1].translation, at(0, -2, 0));
}

#[test]
fn proc_gen_flower_draws_dice_in_their_ranges() {
    let mut stems = Vec::new();
    for seed in 0..40u64 {
        let models = proc_gen_flower(seed, at(10, 20, 30));
        assert_eq!(models.len(), 2);
        let stem = models[0].points.len() as i64;
        assert!((3..9).contains(&stem));
        assert_eq!(models[0].translation, at(10, 20, 30));
        assert_eq!(models[1].translation, at(10, 20 + 10 * stem - 2, 30));
        match models[1].rotation {
            Rotation::Lean { x, z } => {
                assert!((-1000..1000).contains(&x));
                assert!((-1000..1000).contains(&z));
            }
            Rotation::Identity => panic!("a bloom leans"),
        }
        assert!(matches!(models[1].points.len(), 5 | 13));
        stems.push(stem);
    }
    assert!(stems.iter().any(|s| *s != stems[0]));
    assert!(stems.iter().any(|s| *s != 3));
}

#[test]
fn proc_gen_flower_repeats_for_a_seed() {
    assert_eq!(proc_gen_flower(7, at(0, 0, 0)), proc_gen_flower(7, at(0, 0, 0)));
}

fn jitters() -> Vec<Jitter> {
    (0..12).map(|k| Jitter { x: k - 6, z: 2 * k }).collect()
}

#[test]
fn tree_is_twelve_shrubs_and_a_trunk() {
    let models = tree_from(&jitters(), at(1000, 50, -1000));
    assert_eq!(models.len(), 13);
    let radii = [13, 13, 13, 13, 13, 13, 11, 11, 11, 11, 9, 9];
    let lifts = [400, 400, 400, 400, 400, 400, 450, 450, 450, 450, 500, 500];
    for k in 0..12 {
        let cells = sphere(p(0, 0, 0), radii[k]);
        assert_eq!(models[k].points, painted(&cells, Color::Green));
        assert_eq!(models[k].rotation, Rotation::Identity);
        let j = jitters()[k];
        assert_eq!(
            models[k].translation,
            at(1000 + 10 * j.x as i64, 50 + lifts[k], -1000 + 10 * j.z as i64)
        );
    }
    let trunk = &models[12];
    assert_eq!(trunk.points.len(), 40 * 45);
    assert_eq!(trunk.rotation, Rotation::Identity);
    assert_eq!(trunk.translation, at(1000, 50, -1000));
    let mut expected = Vec::new();
    for y in 0..40 {
        expected.extend(painted(&circle(p(0, y, 0), 4), Color::Brown));
    }
    assert_eq!(trunk.points, expected);
}

#[test]
fn tree_shrub_without_jitter_sits_on_the_axis() {
    let models = tree_from(&vec![Jitter { x: 3, z: 4 }], at(0, 0, 0));
    assert_eq!(models.len(), 13);
    assert_eq!(models[0].translation, at(30, 400, 40));
    assert_eq!(models[1].translation, at(0, 400, 0));
    assert_eq!(models[11].translation, at(0, 500, 0));
}

#[test]
fn tree_draws_jitters_within_the_reach_of_each_layer() {
    let reach = [7, 7, 7, 7, 7, 7, 5, 5, 5, 5, 3, 3];
    let lifts = [400, 400, 400, 400, 400, 400, 450, 450, 450, 450, 500, 500];
    let mut seen = Vec::new();
    for seed in 0..10u64 {
        let models = tree(seed, at(0, 0, 0));
        assert_eq!(models.len(), 13);
        for k in 0..12 {
            let t = models[k].translation;
            assert_eq!(t.y, lifts[k]);
            assert_eq!(t.x % 10, 0);
            assert_eq!(t.z % 10, 0);
            assert!((-reach[k]..reach[k]).contains(&(t.x / 10)));
            assert!((-reach[k]..reach[k]).contains(&(t.z / 10)));
            seen.push(t.x / 10);
        }
    }
    assert!(seen.iter().any(|x| *x != seen[0]));
    assert!(seen.iter().any(|x| *x != -7));
}

#[test]
fn tree_repeats_for_a_seed() {
    assert_eq!(tree(99, at(5, 5, 5)), tree(99, at(5, 5, 5)));
}

#[test]
fn rock_has_one_grey_ball_for_each_pebble() {
    let pebbles = vec![Pebble { radius: 2, x: 1, z: -1 }, Pebble { radius: 1, x: 0, z: 0 }];
    let models = rock_from(&pebbles, at(7, 8, 9));
    assert_eq!(models.len(), 2);
    assert_eq!(models[0].points, painted(&sphere(p(1, 0, -1), 2), Color::Grey));
    assert_eq!(models[0].points.len(), 26);
    assert_eq!(models[0].points[0], InstanceData::new(p(0, -1, -2), Color::Grey));
    assert_eq!(models[1].points, vec![InstanceData::new(p(0, 0, 0), Color::Grey)]);
    for m in &models {
        assert_eq!(m.rotation, Rotation::Identity);
        assert_eq!(m.translation, at(7, 8, 9));
    }
}

#[test]
fn rock_of_no_pebbles_is_empty() {
    assert!(rock_from(&Vec::new(), at(0, 0, 0)).is_empty());
}

#[test]
fn rock_draws_one_to_five_pebbles() {
    let mut counts = Vec::new();
    for seed in 0..30u64 {
        let models = rock(seed, at(1, 2, 3));
        assert!((1..=5).contains(&models.len()));
        for m in &models {
            assert!(!m.points.is_empty());
            assert!(m.points.iter().all(|v| v.color == Color::Grey));
            assert_eq!(m.translation, at(1, 2, 3));
        }
        counts.push(models.len());
    }
    assert!(counts.iter().any(|c| *c != counts[0]));
    assert_eq!(rock(3, at(0, 0, 0)), rock(3, at(0, 0, 0)));
}
