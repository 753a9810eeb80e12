//! Rocks: a handful of grey pebbles, each a hollow ball.

use crate::color::Color;
use crate::model::{model_views, paint, painted, Model, ModelView, Rotation, Translation};
use crate::point::Point;
use crate::primitives::{axis_fits, shell, sphere};
use crate::random::{draw_range, seeded};
use rand::rngs::StdRng;
use vstd::prelude::*;

verus! {

/// One pebble of a rock: its radius and where it lies beside the rock's
/// origin, in cells.
#[derive(Clone, Copy, Debug, PartialEq, Eq, Structural)]
pub struct Pebble {
    pub radius: i32,
    pub x: i32,
    pub z: i32,
}

/// Whether the pebble stays inside the grid's integer range.
pub open spec fn pebble_fits(pebble: Pebble) -> bool {
    axis_fits(pebble.x, pebble.radius as int) && axis_fits(pebble.z, pebble.radius as int)
}

/// Whether `pebbles` is what `roll_rock` may draw: one to five pebbles of
/// radius one to seven, each moved by less than its radius.
pub open spec fn rock_dice_ok(pebbles: Seq<Pebble>) -> bool {
    &&& 1 <= pebbles.len() <= 5
    &&& forall|i: int|
        0 <= i < pebbles.len() ==> {
            &&& 1 <= (#[trigger] pebbles[i]).radius <= 7
            &&& -pebbles[i].radius <= pebbles[i].x < pebbles[i].radius
            &&& -pebbles[i].radius <= pebbles[i].z < pebbles[i].radius
        }
}

/// The model of one pebble of a rock that lies at `translation`.
pub open spec fn pebble_model(pebble: Pebble, translation: Translation) -> ModelView {
    ModelView {
        points: paint(
            shell(Point { x: pebble.x, y: 0, z: pebble.z }, pebble.radius as int),
            Color::Grey,
        ),
        rotation: Rotation::Identity,
        translation,
    }
}

/// The models of a rock: one for each pebble, in order.
pub open spec fn rock_models(pebbles: Seq<Pebble>, translation: Translation) -> Seq<ModelView> {
    Seq::new(pebbles.len(), |i: int| pebble_model(pebbles[i], translation))
}

/// Builds the rock that `pebbles` describes, lying at `translation`.
pub fn rock_from(pebbles: &Vec<Pebble>, translation: Translation) -> (models: Vec<Model>)
    requires
        forall|i: int| 0 <= i < pebbles.len() ==> pebble_fits(#[trigger] pebbles[i]),
    ensures
        model_views(models@) == rock_models(pebbles@, translation),
{
    let mut models: Vec<Model> = Vec::new();
    let mut i: usize = 0;
    while i < pebbles.len()
        invariant
            0 <= i <= pebbles.len(),
            models.len() == i,
            forall|j: int| 0 <= j < pebbles.len() ==> pebble_fits(#[trigger] pebbles[j]),
            forall|j: int|
                0 <= j < i ==> (#[trigger] models[j])@ == pebble_model(pebbles[j], translation),
        decreases pebbles.len() - i,
    {
        let pebble = pebbles[i];
        let cells = sphere(Point::new(pebble.x, 0, pebble.z), pebble.radius);
        models.push(
            Model {
                points: painted(&cells, Color::Grey),
                rotation: Rotation::Identity,
                translation,
            },
        );
        i = i + 1;
    }
    models
}

/// Draws the pebbles of one rock.
pub fn roll_rock(rng: &mut StdRng) -> (pebbles: Vec<Pebble>)
    ensures
        rock_dice_ok(pebbles@),
{
    let count = draw_range(rng, 1, 6);
    let mut pebbles: Vec<Pebble> = Vec::new();
    let mut i: i32 = 0;
    while i < count
        invariant
            1 <= count <= 5,
            0 <= i <= count,
            pebbles.len() == i,
            forall|j: int|
                0 <= j < pebbles.len() ==> {
                    &&& 1 <= (#[trigger] pebbles[j]).radius <= 7
                    &&& -pebbles[j].radius <= pebbles[j].x < pebbles[j].radius
                    &&& -pebbles[j].radius <= pebbles[j].z < pebbles[j].radius
                },
        decreases count - i,
    {
        let radius = draw_range(rng, 1, 8);
        let x = draw_range(rng, -radius, radius);
        let z = draw_range(rng, -radius, radius);
        pebbles.push(Pebble { radius, x, z });
        i = i + 1;
    }
    pebbles
}

/// Piles up a rock at `translation`, drawing its pebbles from a generator
/// seeded with `seed`.
pub fn rock(seed: u64, translation: Translation) -> (models: Vec<Model>)
    ensures
        exists|pebbles: Seq<Pebble>|
            rock_dice_ok(pebbles) && model_views(models@) == rock_models(pebbles, translation),
{
    let mut rng = seeded(seed);
    let pebbles = roll_rock(&mut rng);
    rock_from(&pebbles, translation)
}

} // verus!
