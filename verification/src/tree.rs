//! Trees: a trunk of stacked discs under three layers of leafy shrubs.

use crate::color::Color;
use crate::model::{paint, painted, model_views, Model, ModelView, Rotation, Translation};
use crate::point::Point;
use crate::primitives::{circle, disc, shell, sphere};
use crate::random::{draw_range, seeded};
use rand::rngs::StdRng;
use vstd::prelude::*;

verus! {

/// The number of discs in a trunk.
pub const TREE_HEIGHT: i32 = 40;

/// The radius of each disc of a trunk.
pub const TRUNK_RADIUS: i32 = 4;

/// The number of shrubs in a canopy: six in the lowest layer, four in the
/// middle one and two on top.
pub const SHRUBS: usize = 12;

/// How far a shrub is moved off the trunk's axis, in cells.
#[derive(Clone, Copy, Debug, PartialEq, Eq, Structural)]
pub struct Jitter {
    pub x: i32,
    pub z: i32,
}

/// The layer of shrub `k`, counted from the lowest.
pub open spec fn shrub_layer(k: int) -> int {
    if k < 6 {
        0
    } else if k < 10 {
        1
    } else {
        2
    }
}

/// Drawn jitters of a shrub in `layer` lie in `-reach .. reach`.
pub open spec fn layer_reach(layer: int) -> int {
    7 - 2 * layer
}

/// The radius of the shrubs of `layer`.
pub open spec fn layer_radius(layer: int) -> int {
    13 - 2 * layer
}

/// The height of the shrubs of `layer` over the foot of the trunk, in cells.
pub open spec fn layer_lift(layer: int) -> int {
    TREE_HEIGHT + 5 * layer
}

/// The jitter of shrub `k`: entry `k` of `dice`, or none where `dice` is too
/// short to have one.
pub open spec fn jitter_of(dice: Seq<Jitter>, k: int) -> Jitter {
    if 0 <= k < dice.len() {
        dice[k]
    } else {
        Jitter { x: 0, z: 0 }
    }
}

/// Whether `dice` is what `roll_tree` may draw: one jitter for each shrub,
/// within the reach of its layer.
pub open spec fn tree_dice_ok(dice: Seq<Jitter>) -> bool {
    &&& dice.len() == SHRUBS
    &&& forall|k: int|
        0 <= k < dice.len() ==> {
            &&& -layer_reach(shrub_layer(k)) <= (#[trigger] dice[k]).x < layer_reach(shrub_layer(k))
            &&& -layer_reach(shrub_layer(k)) <= dice[k].z < layer_reach(shrub_layer(k))
        }
}

/// The cells of the lowest `n` discs of a trunk, from the foot upwards.
pub open spec fn trunk_cells(n: int) -> Seq<Point>
    decreases n,
{
    if n <= 0 {
        Seq::empty()
    } else {
        trunk_cells(n - 1) + disc(Point { x: 0, y: (n - 1) as i32, z: 0 }, TRUNK_RADIUS as int)
    }
}

/// The trunk of a tree whose foot stands at `translation`.
pub open spec fn trunk_model(translation: Translation) -> ModelView {
    ModelView {
        points: paint(trunk_cells(TREE_HEIGHT as int), Color::Brown),
        rotation: Rotation::Identity,
        translation,
    }
}

/// Shrub `k` of a tree whose foot stands at `translation`: a hollow green
/// ball, lifted to its layer and moved off the axis by its jitter.
pub open spec fn shrub_model(dice: Seq<Jitter>, k: int, translation: Translation) -> ModelView {
    let layer = shrub_layer(k);
    let jitter = jitter_of(dice, k);
    ModelView {
        points: paint(shell(Point { x: 0, y: 0, z: 0 }, layer_radius(layer)), Color::Green),
        rotation: Rotation::Identity,
        translation: translation.moved(10 * jitter.x, 10 * layer_lift(layer), 10 * jitter.z),
    }
}

/// The models of a tree: its twelve shrubs from the lowest layer up, then
/// its trunk.
pub open spec fn tree_models(dice: Seq<Jitter>, translation: Translation) -> Seq<ModelView> {
    Seq::new(
        SHRUBS as nat + 1,
        |k: int|
            if k < SHRUBS {
                shrub_model(dice, k, translation)
            } else {
                trunk_model(translation)
            },
    )
}

fn append_cells(cells: &mut Vec<Point>, more: &Vec<Point>)
    ensures
        final(cells)@ == old(cells)@ + more@,
{
    let mut i: usize = 0;
    while i < more.len()
        invariant
            0 <= i <= more.len(),
            cells@ == old(cells)@ + more@.take(i as int),
        decreases more.len() - i,
    {
        cells.push(more[i]);
        i = i + 1;
    }
}

fn build_trunk(translation: Translation) -> (trunk: Model)
    ensures
        trunk@ == trunk_model(translation),
{
    let mut cells: Vec<Point> = Vec::new();
    let mut y: i32 = 0;
    while y < TREE_HEIGHT
        invariant
            0 <= y <= TREE_HEIGHT,
            cells@ == trunk_cells(y as int),
        decreases TREE_HEIGHT - y,
    {
        let ring = circle(Point::new(0, y, 0), TRUNK_RADIUS);
        append_cells(&mut cells, &ring);
        y = y + 1;
    }
    Model { points: painted(&cells, Color::Brown), rotation: Rotation::Identity, translation }
}

fn build_shrub(dice: &Vec<Jitter>, k: usize, translation: Translation) -> (shrub: Model)
    requires
        k < SHRUBS,
        translation.in_world(),
    ensures
        shrub@ == shrub_model(dice@, k as int, translation),
{
    let layer: i64 = if k < 6 {
        0
    } else if k < 10 {
        1
    } else {
        2
    };
    let jitter = if k < dice.len() {
        dice[k]
    } else {
        Jitter { x: 0, z: 0 }
    };
    let radius: i32 = (13 - 2 * layer) as i32;
    let cells = sphere(Point::new(0, 0, 0), radius);
    Model {
        points: painted(&cells, Color::Green),
        rotation: Rotation::Identity,
        translation: translation.step(
            10 * (jitter.x as i64),
            10 * (TREE_HEIGHT as i64 + 5 * layer),
            10 * (jitter.z as i64),
        ),
    }
}

/// Builds the tree that the jitters `dice` describe, with its foot at
/// `translation`. A shrub for which `dice` has no entry is not moved off the
/// axis.
pub fn tree_from(dice: &Vec<Jitter>, translation: Translation) -> (models: Vec<Model>)
    requires
        translation.in_world(),
    ensures
        model_views(models@) == tree_models(dice@, translation),
{
    let mut models: Vec<Model> = Vec::new();
    let mut k: usize = 0;
    while k < SHRUBS
        invariant
            0 <= k <= SHRUBS,
            translation.in_world(),
            models.len() == k,
            forall|j: int| 0 <= j < k ==> (#[trigger] models[j])@ == shrub_model(dice@, j, translation),
        decreases SHRUBS - k,
    {
        let shrub = build_shrub(dice, k, translation);
        models.push(shrub);
        k = k + 1;
    }
    let trunk = build_trunk(translation);
    models.push(trunk);
    models
}

/// Draws the jitters of one tree.
pub fn roll_tree(rng: &mut StdRng) -> (dice: Vec<Jitter>)
    ensures
        tree_dice_ok(dice@),
{
    let mut dice: Vec<Jitter> = Vec::new();
    let mut k: usize = 0;
    while k < SHRUBS
        invariant
            0 <= k <= SHRUBS,
            dice.len() == k,
            forall|j: int|
                0 <= j < k ==> {
                    &&& -layer_reach(shrub_layer(j)) <= (#[trigger] dice[j]).x < layer_reach(
                        shrub_layer(j),
                    )
                    &&& -layer_reach(shrub_layer(j)) <= dice[j].z < layer_reach(shrub_layer(j))
                },
        decreases SHRUBS - k,
    {
        let reach: i32 = if k < 6 {
            7
        } else if k < 10 {
            5
        } else {
            3
        };
        let x = draw_range(rng, -reach, reach);
        let z = draw_range(rng, -reach, reach);
        dice.push(Jitter { x, z });
        k = k + 1;
    }
    dice
}

/// Grows a tree with its foot at `translation`, drawing its jitters from a
/// generator seeded with `seed`.
pub fn tree(seed: u64, translation: Translation) -> (models: Vec<Model>)
    requires
        translation.in_world(),
    ensures
        exists|dice: Seq<Jitter>|
            tree_dice_ok(dice) && model_views(models@) == tree_models(dice, translation),
{
    let mut rng = seeded(seed);
    let dice = roll_tree(&mut rng);
    tree_from(&dice, translation)
}

} // verus!
