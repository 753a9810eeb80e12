//! Flowers: a brown stem under one of three fixed blooms.

use crate::color::Color;
use crate::model::{model_views, voxel, InstanceData, Model, ModelView, Rotation, Translation, LEAN_ONE};
use crate::point::Point;
use crate::random::{draw_range, seeded};
use rand::rngs::StdRng;
use vstd::prelude::*;

verus! {

/// The bloom draw is taken from `0 .. BLOOM_ONE`.
pub const BLOOM_ONE: i32 = 100;

/// The three blooms.
#[derive(Clone, Copy, Debug, PartialEq, Eq, Structural)]
pub enum Bloom {
    Red,
    Blue,
    Purple,
}

/// The draws that decide one flower.
#[derive(Clone, Copy, Debug, PartialEq, Eq, Structural)]
pub struct FlowerDice {
    /// The number of cells of the stem.
    pub stem: i32,
    /// Chooses the bloom: see `bloom_of`.
    pub bloom: i32,
    /// The lean of the bloom along `x`, in the steps of `LEAN_ONE`.
    pub lean_x: i32,
    /// The lean of the bloom along `z`, in the steps of `LEAN_ONE`.
    pub lean_z: i32,
}

/// Whether `dice` is what `roll_flower` may draw.
pub open spec fn flower_dice_ok(dice: FlowerDice) -> bool {
    &&& 3 <= dice.stem < 9
    &&& 0 <= dice.bloom < BLOOM_ONE
    &&& -LEAN_ONE <= dice.lean_x < LEAN_ONE
    &&& -LEAN_ONE <= dice.lean_z < LEAN_ONE
}

/// The bloom that a draw chooses: below 33 the red one, below 67 the blue
/// one, else the purple one.
pub open spec fn bloom_of(draw: int) -> Bloom {
    if draw < 33 {
        Bloom::Red
    } else if draw < 67 {
        Bloom::Blue
    } else {
        Bloom::Purple
    }
}

/// The dry voxel at `(x, y, z)` in `color`.
pub open spec fn petal(x: int, y: int, z: int, color: Color) -> InstanceData {
    voxel(Point { x: x as i32, y: y as i32, z: z as i32 }, color)
}

/// The voxels of the blue bloom: a yellow heart in a cross of four petals.
pub open spec fn blue_bloom() -> Seq<InstanceData> {
    seq![
        petal(0, 0, 0, Color::Yellow),
        petal(1, 0, 0, Color::Blue),
        petal(-1, 0, 0, Color::Blue),
        petal(0, 0, 1, Color::Blue),
        petal(0, 0, -1, Color::Blue),
    ]
}

/// The voxels of the red bloom: an orange heart in a ring of eight petals,
/// under a cross of four.
pub open spec fn red_bloom() -> Seq<InstanceData> {
    seq![
        petal(0, 0, 0, Color::Orange),
        petal(1, 0, 0, Color::Red),
        petal(1, 0, 1, Color::Red),
        petal(1, 0, -1, Color::Red),
        petal(-1, 0, 1, Color::Red),
        petal(-1, 0, -1, Color::Red),
        petal(-1, 0, 0, Color::Red),
        petal(0, 0, 1, Color::Red),
        petal(0, 0, -1, Color::Red),
        petal(1, 1, 0, Color::Red),
        petal(-1, 1, 0, Color::Red),
        petal(0, 1, 1, Color::Red),
        petal(0, 1, -1, Color::Red),
    ]
}

/// The voxels of the purple bloom: a yellow heart in a cross of four petals,
/// under four corner petals and a wider cross of four.
pub open spec fn purple_bloom() -> Seq<InstanceData> {
    seq![
        petal(0, 0, 0, Color::Yellow),
        petal(1, 0, 0, Color::Purple),
        petal(-1, 0, 0, Color::Purple),
        petal(0, 0, 1, Color::Purple),
        petal(0, 0, -1, Color::Purple),
        petal(1, 1, -1, Color::Purple),
        petal(1, 1, 1, Color::Purple),
        petal(-1, 1, -1, Color::Purple),
        petal(-1, 1, 1, Color::Purple),
        petal(2, 1, 0, Color::Purple),
        petal(-2, 1, 0, Color::Purple),
        petal(0, 1, 2, Color::Purple),
        petal(0, 1, -2, Color::Purple),
    ]
}

/// The voxels of `bloom`.
pub open spec fn bloom_points(bloom: Bloom) -> Seq<InstanceData> {
    match bloom {
        Bloom::Red => red_bloom(),
        Bloom::Blue => blue_bloom(),
        Bloom::Purple => purple_bloom(),
    }
}

/// The voxels of a stem of `n` cells, from the foot upwards; none for an `n`
/// of zero or less.
pub open spec fn stem_points(n: int) -> Seq<InstanceData> {
    Seq::new(
        if n > 0 {
            n as nat
        } else {
            0
        },
        |y: int| petal(0, y, 0, Color::Brown),
    )
}

/// The stem of a flower that stands at `translation`.
pub open spec fn stem_model(dice: FlowerDice, translation: Translation) -> ModelView {
    ModelView {
        points: stem_points(dice.stem as int),
        rotation: Rotation::Identity,
        translation,
    }
}

/// The bloom of a flower that stands at `translation`: it leans as the dice
/// say and sits a fifth of a cell below the top of the stem.
pub open spec fn bloom_model(dice: FlowerDice, translation: Translation) -> ModelView {
    ModelView {
        points: bloom_points(bloom_of(dice.bloom as int)),
        rotation: Rotation::Lean { x: dice.lean_x, z: dice.lean_z },
        translation: translation.moved(0, 10 * dice.stem - 2, 0),
    }
}

/// The models of a flower: its stem, then its bloom.
pub open spec fn flower_models(dice: FlowerDice, translation: Translation) -> Seq<ModelView> {
    seq![stem_model(dice, translation), bloom_model(dice, translation)]
}

fn new_petal(x: i32, y: i32, z: i32, color: Color) -> (v: InstanceData)
    ensures
        v == petal(x as int, y as int, z as int, color),
{
    InstanceData::new(Point::new(x, y, z), color)
}

/// The blue bloom, turned by `rotation` and placed at `translation`.
pub fn gen_blue_flower(rotation: Rotation, translation: Translation) -> (m: Model)
    ensures
        m@ == (ModelView { points: blue_bloom(), rotation, translation }),
{
    let mut points: Vec<InstanceData> = Vec::new();
    points.push(new_petal(0, 0, 0, Color::Yellow));
    points.push(new_petal(1, 0, 0, Color::Blue));
    points.push(new_petal(-1, 0, 0, Color::Blue));
    points.push(new_petal(0, 0, 1, Color::Blue));
    points.push(new_petal(0, 0, -1, Color::Blue));
    assert(points@ =~= blue_bloom());
    Model { points, rotation, translation }
}

/// The red bloom, turned by `rotation` and placed at `translation`.
pub fn gen_red_flower(rotation: Rotation, translation: Translation) -> (m: Model)
    ensures
        m@ == (ModelView { points: red_bloom(), rotation, translation }),
{
    let mut points: Vec<InstanceData> = Vec::new();
    points.push(new_petal(0, 0, 0, Color::Orange));
    points.push(new_petal(1, 0, 0, Color::Red));
    points.push(new_petal(1, 0, 1, Color::Red));
    points.push(new_petal(1, 0, -1, Color::Red));
    points.push(new_petal(-1, 0, 1, Color::Red));
    points.push(new_petal(-1, 0, -1, Color::Red));
    points.push(new_petal(-1, 0, 0, Color::Red));
    points.push(new_petal(0, 0, 1, Color::Red));
    points.push(new_petal(0, 0, -1, Color::Red));
    points.push(new_petal(1, 1, 0, Color::Red));
    points.push(new_petal(-1, 1, 0, Color::Red));
    points.push(new_petal(0, 1, 1, Color::Red));
    points.push(new_petal(0, 1, -1, Color::Red));
    assert(points@ =~= red_bloom());
    Model { points, rotation, translation }
}

/// The purple bloom, turned by `rotation` and placed at `translation`.
pub fn gen_purple_flower(rotation: Rotation, translation: Translation) -> (m: Model)
    ensures
        m@ == (ModelView { points: purple_bloom(), rotation, translation }),
{
    let mut points: Vec<InstanceData> = Vec::new();
    points.push(new_petal(0, 0, 0, Color::Yellow));
    points.push(new_petal(1, 0, 0, Color::Purple));
    points.push(new_petal(-1, 0, 0, Color::Purple));
    points.push(new_petal(0, 0, 1, Color::Purple));
    points.push(new_petal(0, 0, -1, Color::Purple));
    points.push(new_petal(1, 1, -1, Color::Purple));
    points.push(new_petal(1, 1, 1, Color::Purple));
    points.push(new_petal(-1, 1, -1, Color::Purple));
    points.push(new_petal(-1, 1, 1, Color::Purple));
    points.push(new_petal(2, 1, 0, Color::Purple));
    points.push(new_petal(-2, 1, 0, Color::Purple));
    points.push(new_petal(0, 1, 2, Color::Purple));
    points.push(new_petal(0, 1, -2, Color::Purple));
    assert(points@ =~= purple_bloom());
    Model { points, rotation, translation }
}

/// The bloom that `draw` chooses.
pub fn choose_bloom(draw: i32) -> (bloom: Bloom)
    ensures
        bloom == bloom_of(draw as int),
{
    if draw < 33 {
        Bloom::Red
    } else if draw < 67 {
        Bloom::Blue
    } else {
        Bloom::Purple
    }
}

/// Builds the flower that `dice` describes, standing at `translation`.
pub fn flower_from(dice: FlowerDice, translation: Translation) -> (models: Vec<Model>)
    requires
        translation.in_world(),
    ensures
        model_views(models@) == flower_models(dice, translation),
{
    let mut stem_voxels: Vec<InstanceData> = Vec::new();
    let mut y: i32 = 0;
    while y < dice.stem
        invariant
            0 <= y,
            y <= dice.stem || y == 0,
            stem_voxels@ == stem_points(y as int),
        decreases dice.stem - y,
    {
        stem_voxels.push(new_petal(0, y, 0, Color::Brown));
        y = y + 1;
    }
    let stem = Model { points: stem_voxels, rotation: Rotation::Identity, translation };
    let rotation = Rotation::Lean { x: dice.lean_x, z: dice.lean_z };
    let top = translation.step(0, 10 * (dice.stem as i64) - 2, 0);
    let bloom = match choose_bloom(dice.bloom) {
        Bloom::Red => gen_red_flower(rotation, top),
        Bloom::Blue => gen_blue_flower(rotation, top),
        Bloom::Purple => gen_purple_flower(rotation, top),
    };
    let mut models: Vec<Model> = Vec::new();
    models.push(stem);
    models.push(bloom);
    models
}

/// Draws the lean of one bloom.
pub fn generate_rand_rot(rng: &mut StdRng) -> (lean: (i32, i32))
    ensures
        -LEAN_ONE <= lean.0 < LEAN_ONE,
        -LEAN_ONE <= lean.1 < LEAN_ONE,
{
    let x = draw_range(rng, -LEAN_ONE, LEAN_ONE);
    let z = draw_range(rng, -LEAN_ONE, LEAN_ONE);
    (x, z)
}

/// Draws the dice of one flower.
pub fn roll_flower(rng: &mut StdRng) -> (dice: FlowerDice)
    ensures
        flower_dice_ok(dice),
{
    let stem = draw_range(rng, 3, 9);
    let bloom = draw_range(rng, 0, BLOOM_ONE);
    let lean = generate_rand_rot(rng);
    FlowerDice { stem, bloom, lean_x: lean.0, lean_z: lean.1 }
}

/// Grows a flower at `translation`, drawing its dice from a generator seeded
/// with `seed`.
pub fn proc_gen_flower(seed: u64, translation: Translation) -> (models: Vec<Model>)
    requires
        translation.in_world(),
    ensures
        exists|dice: FlowerDice|
            flower_dice_ok(dice) && model_views(models@) == flower_models(dice, translation),
{
    let mut rng = seeded(seed);
    let dice = roll_flower(&mut rng);
    flower_from(dice, translation)
}

} // verus!
