//! Terrain on the wide grid: a level sheet of cells, and stacked columns
//! under a height field.

use crate::field::{normalize, sample_of, ONE};
use crate::terrain::span;
use vstd::prelude::*;

verus! {

/// A cell of a wide grid.
#[derive(Clone, Copy, Debug, PartialEq, Eq, Structural, Hash)]
pub struct Voxel {
    pub x: i64,
    pub y: i64,
    pub z: i64,
}

impl Voxel {
    /// The cell `(x, y, z)`.
    pub fn new(x: i64, y: i64, z: i64) -> (v: Voxel)
        ensures
            v == (Voxel { x, y, z }),
    {
        Voxel { x, y, z }
    }
}

/// Row `z` of the flat terrain at `pos`: `width` cells by rising `x`.
pub open spec fn flat_row(pos: int, width: int, z: int) -> Seq<Voxel> {
    Seq::new(
        span(width),
        |x: int| Voxel { x: (pos + x) as i64, y: pos as i64, z: (pos + z) as i64 },
    )
}

/// The first `n` rows of the flat terrain at `pos`.
pub open spec fn flat_rows(pos: int, width: int, n: int) -> Seq<Voxel>
    decreases n,
{
    if n <= 0 {
        Seq::empty()
    } else {
        flat_rows(pos, width, n - 1) + flat_row(pos, width, n - 1)
    }
}

/// A level sheet of `width` by `depth` cells at the height `pos`, with its
/// first cell at `(pos, pos, pos)`, row by row. It is empty where `width` or
/// `depth` is zero or less.
pub fn generate_flat_terrain(pos: i64, width: i64, depth: i64) -> (voxels: Vec<Voxel>)
    requires
        pos + span(width as int) <= i64::MAX + 1,
        pos + span(depth as int) <= i64::MAX + 1,
    ensures
        voxels@ == flat_rows(pos as int, width as int, depth as int),
        voxels.len() == span(width as int) * span(depth as int),
{
    let mut voxels: Vec<Voxel> = Vec::new();
    let mut z: i64 = 0;
    while z < depth
        invariant
            0 <= z,
            z <= depth || z == 0,
            pos + span(width as int) <= i64::MAX + 1,
            pos + span(depth as int) <= i64::MAX + 1,
            voxels@ == flat_rows(pos as int, width as int, z as int),
            voxels.len() == span(width as int) * z,
        decreases depth - z,
    {
        let ghost rows = voxels@;
        let mut x: i64 = 0;
        while x < width
            invariant
                0 <= x,
                x <= width || x == 0,
                0 <= z < depth,
                pos + span(width as int) <= i64::MAX + 1,
                pos + span(depth as int) <= i64::MAX + 1,
                voxels@ == rows + flat_row(pos as int, width as int, z as int).take(x as int),
            decreases width - x,
        {
            voxels.push(Voxel::new(pos + x, pos, pos + z));
            x = x + 1;
        }
        assert(flat_row(pos as int, width as int, z as int).take(x as int) =~= flat_row(
            pos as int,
            width as int,
            z as int,
        ));
        assert(span(width as int) * (z + 1) == span(width as int) * z + span(width as int))
            by (nonlinear_arith);
        z = z + 1;
    }
    voxels
}

/// The height of the stack of a column: the sample's share of `max_height`,
/// cut towards zero to a whole cell.
pub open spec fn stack_height(max_height: int, reading: int) -> int {
    if max_height >= 0 {
        max_height * sample_of(reading) / (ONE as int)
    } else {
        -((-max_height) * sample_of(reading) / (ONE as int))
    }
}

/// The cell that a column adds for each level up to its stack height.
/// Columns are counted from `(pos_x, pos_z)`, and the terrain is moved by
/// `(pos_x, pos_z)` once more.
pub open spec fn stack_cell(
    pos_x: int,
    pos_z: int,
    max_height: int,
    readings: Seq<i32>,
    cols: int,
    row: int,
    i: int,
) -> Voxel {
    Voxel {
        x: (pos_x + pos_x + i) as i64,
        y: stack_height(max_height, readings[row * cols + i] as int) as i64,
        z: (pos_z + pos_z + row) as i64,
    }
}

/// What level `y` of row `row` adds among the first `n` columns of the row:
/// the cell of each column whose stack reaches the level.
pub open spec fn stack_strip(
    pos_x: int,
    pos_z: int,
    max_height: int,
    readings: Seq<i32>,
    cols: int,
    row: int,
    y: int,
    n: int,
) -> Seq<Voxel>
    decreases n,
{
    if n <= 0 {
        Seq::empty()
    } else {
        let before = stack_strip(pos_x, pos_z, max_height, readings, cols, row, y, n - 1);
        if y <= stack_height(max_height, readings[row * cols + (n - 1)] as int) {
            before.push(stack_cell(pos_x, pos_z, max_height, readings, cols, row, n - 1))
        } else {
            before
        }
    }
}

/// What the first `n` levels of row `row` add, level by level.
pub open spec fn stack_levels(
    pos_x: int,
    pos_z: int,
    max_height: int,
    readings: Seq<i32>,
    cols: int,
    row: int,
    n: int,
) -> Seq<Voxel>
    decreases n,
{
    if n <= 0 {
        Seq::empty()
    } else {
        stack_levels(pos_x, pos_z, max_height, readings, cols, row, n - 1) + stack_strip(
            pos_x,
            pos_z,
            max_height,
            readings,
            cols,
            row,
            n - 1,
            cols,
        )
    }
}

/// What the first `n` rows add, row by row.
pub open spec fn stack_rows(
    pos_x: int,
    pos_z: int,
    max_height: int,
    readings: Seq<i32>,
    cols: int,
    levels: int,
    n: int,
) -> Seq<Voxel>
    decreases n,
{
    if n <= 0 {
        Seq::empty()
    } else {
        stack_rows(pos_x, pos_z, max_height, readings, cols, levels, n - 1) + stack_levels(
            pos_x,
            pos_z,
            max_height,
            readings,
            cols,
            n - 1,
            levels,
        )
    }
}

proof fn lemma_no_columns(
    pos_x: int,
    pos_z: int,
    max_height: int,
    readings: Seq<i32>,
    levels: int,
    n: int,
)
    ensures
        stack_rows(pos_x, pos_z, max_height, readings, 0, levels, n) == Seq::<Voxel>::empty(),
    decreases n,
{
    if n > 0 {
        lemma_no_columns(pos_x, pos_z, max_height, readings, levels, n - 1);
        lemma_no_levels(pos_x, pos_z, max_height, readings, n - 1, levels);
    }
}

proof fn lemma_no_levels(
    pos_x: int,
    pos_z: int,
    max_height: int,
    readings: Seq<i32>,
    row: int,
    n: int,
)
    ensures
        stack_levels(pos_x, pos_z, max_height, readings, 0, row, n) == Seq::<Voxel>::empty(),
    decreases n,
{
    if n > 0 {
        lemma_no_levels(pos_x, pos_z, max_height, readings, row, n - 1);
    }
}

fn stack_height_of(max_height: i64, reading: i32) -> (h: i64)
    ensures
        h == stack_height(max_height as int, reading as int),
{
    let s: i128 = normalize(reading) as i128;
    let one: i128 = ONE as i128;
    if max_height >= 0 {
        let top: i128 = max_height as i128;
        assert(0 <= top * s <= 0x7fff_ffff_ffff_ffff * 1_000_000) by (nonlinear_arith)
            requires
                0 <= top <= 0x7fff_ffff_ffff_ffff,
                0 <= s <= 1_000_000,
        ;
        assert(top * s / 1_000_000 <= top) by (nonlinear_arith)
            requires
                0 <= top,
                0 <= s <= 1_000_000,
        ;
        (top * s / one) as i64
    } else {
        let top: i128 = -(max_height as i128);
        assert(0 <= top * s <= 0x8000_0000_0000_0000 * 1_000_000) by (nonlinear_arith)
            requires
                0 <= top <= 0x8000_0000_0000_0000,
                0 <= s <= 1_000_000,
        ;
        assert(0 <= top * s / 1_000_000 <= top) by (nonlinear_arith)
            requires
                0 <= top,
                0 <= s <= 1_000_000,
        ;
        (-(top * s / one)) as i64
    }
}

/// Stacked terrain under a height field. The columns run over `x` from
/// `pos_x` up to `width` and over `z` from `pos_z` up to `depth`; `readings`
/// holds what the height field reads at them, row by row. For each level
/// from zero up to `height`, a column whose stack reaches the level adds its
/// cell once more.
pub fn generate_terrain(
    pos_x: i64,
    pos_z: i64,
    width: i64,
    height: i64,
    depth: i64,
    max_height: i64,
    readings: &Vec<i32>,
) -> (voxels: Vec<Voxel>)
    requires
        readings.len() == span(width - pos_x) * span(depth - pos_z),
        i64::MIN <= pos_x + pos_x,
        pos_x + width <= i64::MAX + 1,
        i64::MIN <= pos_z + pos_z,
        pos_z + depth <= i64::MAX + 1,
    ensures
        voxels@ == stack_rows(
            pos_x as int,
            pos_z as int,
            max_height as int,
            readings@,
            span(width - pos_x) as int,
            span(height as int) as int,
            span(depth - pos_z) as int,
        ),
{
    let mut voxels: Vec<Voxel> = Vec::new();
    if width <= pos_x || depth <= pos_z {
        proof {
            if width <= pos_x {
                lemma_no_columns(
                    pos_x as int,
                    pos_z as int,
                    max_height as int,
                    readings@,
                    span(height as int) as int,
                    span(depth - pos_z) as int,
                );
            }
        }
        return voxels;
    }
    let cols: i128 = width as i128 - pos_x as i128;
    let rows: i128 = depth as i128 - pos_z as i128;
    let levels: i64 = if height > 0 {
        height
    } else {
        0
    };
    assert(cols <= cols * rows) by (nonlinear_arith)
        requires
            cols >= 1,
            rows >= 1,
    ;
    assert(rows <= cols * rows) by (nonlinear_arith)
        requires
            cols >= 1,
            rows >= 1,
    ;
    let mut row: i128 = 0;
    while row < rows
        invariant
            0 <= row <= rows,
            1 <= cols <= readings.len(),
            1 <= rows <= readings.len(),
            cols == span(width - pos_x),
            rows == span(depth - pos_z),
            levels == span(height as int),
            readings.len() == cols * rows,
            i64::MIN <= pos_x + pos_x,
            pos_x + width <= i64::MAX + 1,
            i64::MIN <= pos_z + pos_z,
            pos_z + depth <= i64::MAX + 1,
            voxels@ == stack_rows(
                pos_x as int,
                pos_z as int,
                max_height as int,
                readings@,
                cols as int,
                levels as int,
                row as int,
            ),
        decreases rows - row,
    {
        let ghost sheets = voxels@;
        let mut y: i64 = 0;
        while y < levels
            invariant
                0 <= row < rows,
                0 <= y <= levels,
                1 <= cols <= readings.len(),
                1 <= rows <= readings.len(),
                cols == span(width - pos_x),
                rows == span(depth - pos_z),
                readings.len() == cols * rows,
                i64::MIN <= pos_x + pos_x,
                pos_x + width <= i64::MAX + 1,
                i64::MIN <= pos_z + pos_z,
                pos_z + depth <= i64::MAX + 1,
                voxels@ == sheets + stack_levels(
                    pos_x as int,
                    pos_z as int,
                    max_height as int,
                    readings@,
                    cols as int,
                    row as int,
                    y as int,
                ),
            decreases levels - y,
        {
            let ghost layers = voxels@;
            let mut i: i128 = 0;
            while i < cols
                invariant
                    0 <= row < rows,
                    0 <= i <= cols,
                    1 <= cols <= readings.len(),
                    1 <= rows <= readings.len(),
                    cols == span(width - pos_x),
                    rows == span(depth - pos_z),
                    readings.len() == cols * rows,
                    i64::MIN <= pos_x + pos_x,
                    pos_x + width <= i64::MAX + 1,
                    i64::MIN <= pos_z + pos_z,
                    pos_z + depth <= i64::MAX + 1,
                    voxels@ == layers + stack_strip(
                        pos_x as int,
                        pos_z as int,
                        max_height as int,
                        readings@,
                        cols as int,
                        row as int,
                        y as int,
                        i as int,
                    ),
                decreases cols - i,
            {
                assert(0 <= row * cols + i < cols * rows) by (nonlinear_arith)
                    requires
                        0 <= row < rows,
                        0 <= i < cols,
                ;
                let at: usize = (row * cols + i) as usize;
                let h = stack_height_of(max_height, readings[at]);
                if y <= h {
                    voxels.push(
                        Voxel::new(
                            (pos_x as i128 + pos_x as i128 + i) as i64,
                            h,
                            (pos_z as i128 + pos_z as i128 + row) as i64,
                        ),
                    );
                }
                i = i + 1;
            }
            y = y + 1;
        }
        row = row + 1;
    }
    voxels
}

} // verus!
