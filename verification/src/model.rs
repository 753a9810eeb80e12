//! Painted voxels and the rigid clusters that placed objects are made of.

use crate::color::Color;
use crate::point::Point;
use vstd::prelude::*;

verus! {

/// How many steps of a `Translation` make one cell.
pub const STEPS_PER_CELL: i64 = 10;

/// How many steps of a `Rotation::Lean` make a horizontal component of one.
pub const LEAN_ONE: i32 = 1000;

/// The vertical component of every lean direction, in the steps of
/// `LEAN_ONE`.
pub const LEAN_RISE: i32 = 800;

/// One voxel as the renderer draws it.
#[derive(Clone, Copy, Debug, PartialEq, Eq, Structural)]
pub struct InstanceData {
    pub position: Point,
    pub color: Color,
    pub is_water: u32,
}

impl InstanceData {
    /// A voxel of dry land at `position`.
    pub fn new(position: Point, color: Color) -> (v: InstanceData)
        ensures
            v == voxel(position, color),
    {
        InstanceData { position, color, is_water: 0 }
    }
}

/// The dry voxel at `position` in `color`.
pub open spec fn voxel(position: Point, color: Color) -> InstanceData {
    InstanceData { position, color, is_water: 0 }
}

/// The cells of `cells`, each as a dry voxel in `color`.
pub open spec fn paint(cells: Seq<Point>, color: Color) -> Seq<InstanceData> {
    Seq::new(cells.len(), |i: int| voxel(cells[i], color))
}

/// Paints every cell of `cells` in `color`, keeping their order.
pub fn painted(cells: &Vec<Point>, color: Color) -> (voxels: Vec<InstanceData>)
    ensures
        voxels@ == paint(cells@, color),
{
    let mut voxels: Vec<InstanceData> = Vec::new();
    let mut i: usize = 0;
    while i < cells.len()
        invariant
            0 <= i <= cells.len(),
            voxels@ == paint(cells@.take(i as int), color),
        decreases cells.len() - i,
    {
        voxels.push(InstanceData::new(cells[i], color));
        i = i + 1;
    }
    voxels
}

/// Where a model's own origin sits in the world, in tenths of a cell.
#[derive(Clone, Copy, Debug, PartialEq, Eq, Structural)]
pub struct Translation {
    pub x: i64,
    pub y: i64,
    pub z: i64,
}

impl Translation {
    /// The translation that puts a model's origin on the cell `p`.
    pub open spec fn at(p: Point) -> Translation {
        Translation {
            x: (STEPS_PER_CELL * p.x) as i64,
            y: (STEPS_PER_CELL * p.y) as i64,
            z: (STEPS_PER_CELL * p.z) as i64,
        }
    }

    /// The translation that puts a model's origin on the cell `p`.
    pub fn of_cell(p: Point) -> (t: Translation)
        ensures
            t == Translation::at(p),
            t.in_world(),
    {
        Translation {
            x: STEPS_PER_CELL * (p.x as i64),
            y: STEPS_PER_CELL * (p.y as i64),
            z: STEPS_PER_CELL * (p.z as i64),
        }
    }

    /// Whether every component is within the span of the grid's cells, so
    /// that any move by a whole number of cells stays in the integer range.
    pub open spec fn in_world(self) -> bool {
        &&& -0x8_0000_0000 <= self.x <= 0x8_0000_0000
        &&& -0x8_0000_0000 <= self.y <= 0x8_0000_0000
        &&& -0x8_0000_0000 <= self.z <= 0x8_0000_0000
    }

    /// Whether `self` moved by `(dx, dy, dz)` steps fits the integer range.
    pub open spec fn can_move(self, dx: int, dy: int, dz: int) -> bool {
        &&& i64::MIN <= self.x + dx <= i64::MAX
        &&& i64::MIN <= self.y + dy <= i64::MAX
        &&& i64::MIN <= self.z + dz <= i64::MAX
    }

    /// `self` moved by `(dx, dy, dz)` steps.
    pub open spec fn moved(self, dx: int, dy: int, dz: int) -> Translation {
        Translation { x: (self.x + dx) as i64, y: (self.y + dy) as i64, z: (self.z + dz) as i64 }
    }

    /// Moves the translation by `(dx, dy, dz)` steps.
    pub fn step(self, dx: i64, dy: i64, dz: i64) -> (t: Translation)
        requires
            self.can_move(dx as int, dy as int, dz as int),
        ensures
            t == self.moved(dx as int, dy as int, dz as int),
    {
        Translation { x: self.x + dx, y: self.y + dy, z: self.z + dz }
    }
}

/// How a model is turned before it is translated.
#[derive(Clone, Copy, Debug, PartialEq, Eq, Structural)]
pub enum Rotation {
    /// The model stands upright.
    Identity,
    /// The model's up axis is turned onto the direction
    /// `(x / LEAN_ONE, LEAN_RISE / LEAN_ONE, z / LEAN_ONE)`.
    Lean { x: i32, z: i32 },
}

/// A rigid cluster of voxels with its placement.
#[derive(Clone, Debug, PartialEq, Eq)]
pub struct Model {
    pub points: Vec<InstanceData>,
    pub rotation: Rotation,
    pub translation: Translation,
}

/// What a `Model` holds, as a mathematical value.
pub struct ModelView {
    pub points: Seq<InstanceData>,
    pub rotation: Rotation,
    pub translation: Translation,
}

impl View for Model {
    type V = ModelView;

    open spec fn view(&self) -> ModelView {
        ModelView { points: self.points@, rotation: self.rotation, translation: self.translation }
    }
}

/// The views of the models of `models`, in order.
pub open spec fn model_views(models: Seq<Model>) -> Seq<ModelView> {
    Seq::new(models.len(), |i: int| models[i]@)
}

} // verus!
