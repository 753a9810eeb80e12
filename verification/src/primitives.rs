//! Voxel shapes on the integer grid: lines, discs and hollow balls.
//!
//! A radius is a whole number of cells. A cell belongs to a shape when its
//! squared distance from the midpoint is strictly below the squared radius.

use crate::point::Point;
use vstd::prelude::*;

verus! {

/// Whether the offset `(dx, dz)` lies inside the disc of radius `r`.
pub open spec fn in_disc(dx: int, dz: int, r: int) -> bool {
    dx * dx + dz * dz < r * r
}

/// Whether the offset `(dx, dy, dz)` lies inside the ball of radius `r`.
pub open spec fn in_ball(dx: int, dy: int, dz: int, r: int) -> bool {
    dx * dx + dy * dy + dz * dz < r * r
}

/// Whether the offset lies inside the ball and at least one of its six
/// neighbours does not: the cells that stay when the ball is hollowed out.
pub open spec fn on_shell(dx: int, dy: int, dz: int, r: int) -> bool {
    &&& in_ball(dx, dy, dz, r)
    &&& !(in_ball(dx + 1, dy, dz, r) && in_ball(dx - 1, dy, dz, r) && in_ball(dx, dy + 1, dz, r)
        && in_ball(dx, dy - 1, dz, r) && in_ball(dx, dy, dz + 1, r) && in_ball(dx, dy, dz - 1, r))
}

/// The cell at offset `(dx, dy, dz)` from `mid`.
pub open spec fn cell_at(mid: Point, dx: int, dy: int, dz: int) -> Point {
    Point { x: (mid.x + dx) as i32, y: (mid.y + dy) as i32, z: (mid.z + dz) as i32 }
}

/// The disc's cells in the row at offset `dx`, among the first `n` cells of
/// that row, by rising `z`. A row runs over the offsets `-r ..= r`.
pub open spec fn disc_row(mid: Point, r: int, dx: int, n: int) -> Seq<Point>
    decreases n,
{
    if n <= 0 {
        Seq::empty()
    } else {
        let before = disc_row(mid, r, dx, n - 1);
        let dz = n - 1 - r;
        if in_disc(dx, dz, r) {
            before.push(cell_at(mid, dx, 0, dz))
        } else {
            before
        }
    }
}

/// The disc's cells in its first `n` rows, by rising `x`, then `z`.
pub open spec fn disc_rows(mid: Point, r: int, n: int) -> Seq<Point>
    decreases n,
{
    if n <= 0 {
        Seq::empty()
    } else {
        disc_rows(mid, r, n - 1) + disc_row(mid, r, n - 1 - r, 2 * r + 1)
    }
}

/// The horizontal disc of radius `r` around `mid`: every cell of the plane
/// `y == mid.y` whose offset is `in_disc`, by rising `x`, then `z`. It is
/// empty for a radius of zero or less.
pub open spec fn disc(mid: Point, r: int) -> Seq<Point> {
    if r <= 0 {
        Seq::empty()
    } else {
        disc_rows(mid, r, 2 * r + 1)
    }
}

/// The shell's cells in the row at offset `(dx, dy)`, among the first `n`
/// cells of that row, by rising `z`.
pub open spec fn shell_row(mid: Point, r: int, dx: int, dy: int, n: int) -> Seq<Point>
    decreases n,
{
    if n <= 0 {
        Seq::empty()
    } else {
        let before = shell_row(mid, r, dx, dy, n - 1);
        let dz = n - 1 - r;
        if on_shell(dx, dy, dz, r) {
            before.push(cell_at(mid, dx, dy, dz))
        } else {
            before
        }
    }
}

/// The shell's cells in the first `n` rows of the slab at offset `dx`.
pub open spec fn shell_slab(mid: Point, r: int, dx: int, n: int) -> Seq<Point>
    decreases n,
{
    if n <= 0 {
        Seq::empty()
    } else {
        shell_slab(mid, r, dx, n - 1) + shell_row(mid, r, dx, n - 1 - r, 2 * r + 1)
    }
}

/// The shell's cells in its first `n` slabs.
pub open spec fn shell_slabs(mid: Point, r: int, n: int) -> Seq<Point>
    decreases n,
{
    if n <= 0 {
        Seq::empty()
    } else {
        shell_slabs(mid, r, n - 1) + shell_slab(mid, r, n - 1 - r, 2 * r + 1)
    }
}

/// The hollow ball of radius `r` around `mid`: every cell whose offset is
/// `on_shell`, by rising `x`, then `y`, then `z`. It is empty for a radius of
/// zero or less.
pub open spec fn shell(mid: Point, r: int) -> Seq<Point> {
    if r <= 0 {
        Seq::empty()
    } else {
        shell_slabs(mid, r, 2 * r + 1)
    }
}

/// Whether a shape of radius `r` around `mid` stays inside the grid's integer
/// range along one axis.
pub open spec fn axis_fits(c: i32, r: int) -> bool {
    r > 0 ==> i32::MIN <= c - r && c + r <= i32::MAX
}

fn square(a: i64) -> (s: i64)
    requires
        -0x8000_0000 <= a <= 0x8000_0000,
    ensures
        s == a * a,
        0 <= s <= 0x4000_0000_0000_0000,
{
    assert(0 <= a * a <= 0x4000_0000_0000_0000) by (nonlinear_arith)
        requires
            -0x8000_0000 <= a <= 0x8000_0000,
    ;
    a * a
}

fn inside_disc(dx: i64, dz: i64, r: i64) -> (b: bool)
    requires
        0 < r <= i32::MAX,
        -r <= dx <= r,
        -r <= dz <= r,
    ensures
        b == in_disc(dx as int, dz as int, r as int),
{
    let d: u64 = square(dx) as u64 + square(dz) as u64;
    d < square(r) as u64
}

fn inside_ball(dx: i64, dy: i64, dz: i64, r: i64) -> (b: bool)
    requires
        0 < r <= i32::MAX,
        -r - 1 <= dx <= r + 1,
        -r - 1 <= dy <= r + 1,
        -r - 1 <= dz <= r + 1,
    ensures
        b == in_ball(dx as int, dy as int, dz as int, r as int),
{
    let d: u64 = square(dx) as u64 + square(dy) as u64 + square(dz) as u64;
    d < square(r) as u64
}

fn is_on_shell(dx: i64, dy: i64, dz: i64, r: i64) -> (b: bool)
    requires
        0 < r <= i32::MAX,
        -r <= dx <= r,
        -r <= dy <= r,
        -r <= dz <= r,
    ensures
        b == on_shell(dx as int, dy as int, dz as int, r as int),
{
    inside_ball(dx, dy, dz, r) && !(inside_ball(dx + 1, dy, dz, r) && inside_ball(
        dx - 1,
        dy,
        dz,
        r,
    ) && inside_ball(dx, dy + 1, dz, r) && inside_ball(dx, dy - 1, dz, r) && inside_ball(
        dx,
        dy,
        dz + 1,
        r,
    ) && inside_ball(dx, dy, dz - 1, r))
}

/// The cells of the horizontal disc of radius `r` around `midpoint`: every
/// cell of the midpoint's plane that is nearer to the midpoint than `r`,
/// once, by rising `x`, then `z`.
///
/// A radius of zero or less gives no cell.
pub fn circle(midpoint: Point, r: i32) -> (points: Vec<Point>)
    requires
        axis_fits(midpoint.x, r as int),
        axis_fits(midpoint.z, r as int),
    ensures
        points@ == disc(midpoint, r as int),
        rising(points@),
        forall|p: Point|
            points@.contains(p) <==> r > 0 && p.y == midpoint.y && in_disc(
                p.x - midpoint.x,
                p.z - midpoint.z,
                r as int,
            ),
{
    proof {
        lemma_disc_rising(midpoint, r as int);
        assert forall|p: Point|
            disc(midpoint, r as int).contains(p) <==> r > 0 && p.y == midpoint.y && in_disc(
                p.x - midpoint.x,
                p.z - midpoint.z,
                r as int,
            ) by {
            lemma_disc_members(midpoint, r as int, p);
        }
    }
    let mut points: Vec<Point> = Vec::new();
    if r <= 0 {
        return points;
    }
    let rad: i64 = r as i64;
    let width: i64 = 2 * rad + 1;
    let mut i: i64 = 0;
    while i < width
        invariant
            0 < r,
            rad == r,
            width == 2 * rad + 1,
            0 <= i <= width,
            axis_fits(midpoint.x, r as int),
            axis_fits(midpoint.z, r as int),
            points@ == disc_rows(midpoint, r as int, i as int),
        decreases width - i,
    {
        let dx: i64 = i - rad;
        let ghost done = points@;
        let mut j: i64 = 0;
        while j < width
            invariant
                0 < r,
                rad == r,
                width == 2 * rad + 1,
                0 <= i < width,
                dx == i - rad,
                0 <= j <= width,
                axis_fits(midpoint.x, r as int),
                axis_fits(midpoint.z, r as int),
                points@ == done + disc_row(midpoint, r as int, dx as int, j as int),
            decreases width - j,
        {
            let dz: i64 = j - rad;
            if inside_disc(dx, dz, rad) {
                points.push(
                    Point {
                        x: (midpoint.x as i64 + dx) as i32,
                        y: midpoint.y,
                        z: (midpoint.z as i64 + dz) as i32,
                    },
                );
            }
            j = j + 1;
        }
        i = i + 1;
    }
    points
}

/// The cells of the hollow ball of radius `r` around `midpoint`: every
/// cell nearer to the midpoint than `r` that has a neighbour which is not,
/// once, by rising `x`, then `y`, then `z`.
///
/// A radius of zero or less gives no cell.
pub fn sphere(midpoint: Point, r: i32) -> (points: Vec<Point>)
    requires
        axis_fits(midpoint.x, r as int),
        axis_fits(midpoint.y, r as int),
        axis_fits(midpoint.z, r as int),
    ensures
        points@ == shell(midpoint, r as int),
        rising(points@),
        forall|p: Point|
            points@.contains(p) <==> r > 0 && on_shell(
                p.x - midpoint.x,
                p.y - midpoint.y,
                p.z - midpoint.z,
                r as int,
            ),
{
    proof {
        lemma_shell_rising(midpoint, r as int);
        assert forall|p: Point|
            shell(midpoint, r as int).contains(p) <==> r > 0 && on_shell(
                p.x - midpoint.x,
                p.y - midpoint.y,
                p.z - midpoint.z,
                r as int,
            ) by {
            lemma_shell_members(midpoint, r as int, p);
        }
    }
    let mut points: Vec<Point> = Vec::new();
    if r <= 0 {
        return points;
    }
    let rad: i64 = r as i64;
    let width: i64 = 2 * rad + 1;
    let mut i: i64 = 0;
    while i < width
        invariant
            0 < r,
            rad == r,
            width == 2 * rad + 1,
            0 <= i <= width,
            axis_fits(midpoint.x, r as int),
            axis_fits(midpoint.y, r as int),
            axis_fits(midpoint.z, r as int),
            points@ == shell_slabs(midpoint, r as int, i as int),
        decreases width - i,
    {
        let dx: i64 = i - rad;
        let ghost slabs = points@;
        let mut j: i64 = 0;
        while j < width
            invariant
                0 < r,
                rad == r,
                width == 2 * rad + 1,
                0 <= i < width,
                dx == i - rad,
                0 <= j <= width,
                axis_fits(midpoint.x, r as int),
                axis_fits(midpoint.y, r as int),
                axis_fits(midpoint.z, r as int),
                points@ == slabs + shell_slab(midpoint, r as int, dx as int, j as int),
            decreases width - j,
        {
            let dy: i64 = j - rad;
            let ghost rows = points@;
            let mut k: i64 = 0;
            while k < width
                invariant
                    0 < r,
                    rad == r,
                    width == 2 * rad + 1,
                    0 <= i < width,
                    0 <= j < width,
                    dx == i - rad,
                    dy == j - rad,
                    0 <= k <= width,
                    axis_fits(midpoint.x, r as int),
                    axis_fits(midpoint.y, r as int),
                    axis_fits(midpoint.z, r as int),
                    points@ == rows + shell_row(midpoint, r as int, dx as int, dy as int, k as int),
                decreases width - k,
            {
                let dz: i64 = k - rad;
                if is_on_shell(dx, dy, dz, rad) {
                    points.push(
                        Point {
                            x: (midpoint.x as i64 + dx) as i32,
                            y: (midpoint.y as i64 + dy) as i32,
                            z: (midpoint.z as i64 + dz) as i32,
                        },
                    );
                }
                k = k + 1;
            }
            j = j + 1;
        }
        i = i + 1;
    }
    points
}

/// One axis of a line after `k` steps along `x`: how many cells the line
/// has risen on this axis, and the error term. `d` is the line's extent on
/// the axis and `dx` its extent along `x`. A step adds `2 * d` to the error
/// term; where that makes it zero or more, the line rises by one cell and
/// `2 * dx` is taken off again.
pub open spec fn track(d: int, dx: int, k: int) -> (int, int)
    decreases k,
{
    if k <= 0 {
        (0, 2 * d - dx)
    } else {
        let before = track(d, dx, k - 1);
        let err = before.1 + 2 * d;
        if err >= 0 {
            (before.0 + 1, err - 2 * dx)
        } else {
            (before.0, err)
        }
    }
}

/// The number of cells of the line from `start` to `end`: one for each `x`
/// from `start.x` to `end.x`, and none where `end.x` is the smaller.
pub open spec fn line_len(start: Point, end: Point) -> nat {
    if end.x >= start.x {
        (end.x - start.x + 1) as nat
    } else {
        0
    }
}

/// Cell `k` of the line from `start` to `end`.
pub open spec fn line_point(start: Point, end: Point, k: int) -> Point {
    Point {
        x: (start.x + k) as i32,
        y: (start.y + track(end.y - start.y, end.x - start.x, k).0) as i32,
        z: (start.z + track(end.z - start.z, end.x - start.x, k).0) as i32,
    }
}

/// The line from `start` to `end`, by rising `x`.
pub open spec fn line(start: Point, end: Point) -> Seq<Point> {
    Seq::new(line_len(start, end), |k: int| line_point(start, end, k))
}

/// Whether the line from `start` to `end`, with the cells next to it, lies
/// inside the grid's integer range. A line rises by one cell a step at
/// most.
pub open spec fn line_fits(start: Point, end: Point) -> bool {
    end.x >= start.x ==> {
        &&& i32::MIN < start.x
        &&& end.x < i32::MAX
        &&& i32::MIN < start.y
        &&& start.y + (end.x - start.x) + 1 < i32::MAX
        &&& i32::MIN < start.z
        &&& start.z + (end.x - start.x) + 1 < i32::MAX
    }
}

/// A line never rises by more than a cell a step, and its error term grows
/// by a bounded amount a step.
pub proof fn lemma_track_bounds(d: int, dx: int, k: int)
    requires
        0 <= k,
        -0x1_0000_0000 <= d <= 0x1_0000_0000,
        -0x1_0000_0000 <= dx <= 0x1_0000_0000,
    ensures
        0 <= track(d, dx, k).0 <= k,
        -(k + 1) * 0x4_0000_0000 <= track(d, dx, k).1 <= (k + 1) * 0x4_0000_0000,
    decreases k,
{
    if k > 0 {
        lemma_track_bounds(d, dx, k - 1);
    }
}

/// Walks the cells of a line, one for each call of `next`.
pub struct BresenhamPoints {
    start: Point,
    end: Point,
    ey: i128,
    ez: i128,
    x: i32,
    y: i32,
    z: i32,
}

impl BresenhamPoints {
    /// Where the line starts.
    pub closed spec fn start(&self) -> Point {
        self.start
    }

    /// Where the line ends.
    pub closed spec fn end(&self) -> Point {
        self.end
    }

    /// How many cells `next` has handed out.
    pub closed spec fn steps(&self) -> int {
        self.x - self.start.x
    }

    /// What holds of every walker: its line fits the grid, and it stands
    /// where the line is after the steps taken.
    pub closed spec fn wf(&self) -> bool {
        &&& line_fits(self.start, self.end)
        &&& 0 <= self.steps() <= line_len(self.start, self.end) || (self.steps() == 0
            && self.end.x < self.start.x)
        &&& (self.y - self.start.y, self.ey as int) == track(
            self.end.y - self.start.y,
            self.end.x - self.start.x,
            self.steps(),
        )
        &&& (self.z - self.start.z, self.ez as int) == track(
            self.end.z - self.start.z,
            self.end.x - self.start.x,
            self.steps(),
        )
    }

    /// A walker at the first cell of the line from `start` to `end`.
    pub fn new(start: Point, end: Point) -> (walker: BresenhamPoints)
        requires
            line_fits(start, end),
        ensures
            walker.wf(),
            walker.start() == start,
            walker.end() == end,
            walker.steps() == 0,
    {
        let dx: i128 = end.x as i128 - start.x as i128;
        let my: i128 = 2 * (end.y as i128 - start.y as i128);
        let mz: i128 = 2 * (end.z as i128 - start.z as i128);
        BresenhamPoints {
            start,
            end,
            ey: my - dx,
            ez: mz - dx,
            x: start.x,
            y: start.y,
            z: start.z,
        }
    }

    /// Hands out the next cell of the line, or nothing once the cell at
    /// `end.x` has been handed out.
    pub fn next(&mut self) -> (cell: Option<Point>)
        requires
            old(self).wf(),
        ensures
            final(self).wf(),
            final(self).start() == old(self).start(),
            final(self).end() == old(self).end(),
            match cell {
                Some(p) => {
                    &&& old(self).steps() < line_len(old(self).start(), old(self).end())
                    &&& p == line_point(old(self).start(), old(self).end(), old(self).steps())
                    &&& final(self).steps() == old(self).steps() + 1
                },
                None => {
                    &&& old(self).steps() == line_len(old(self).start(), old(self).end())
                    &&& final(self).steps() == old(self).steps()
                },
            },
    {
        if self.x <= self.end.x {
            proof {
                lemma_track_bounds(
                    self.end.y - self.start.y,
                    self.end.x - self.start.x,
                    self.steps(),
                );
                lemma_track_bounds(
                    self.end.z - self.start.z,
                    self.end.x - self.start.x,
                    self.steps(),
                );
            }
            let vox = Point::new(self.x, self.y, self.z);
            let dx2: i128 = 2 * (self.end.x as i128 - self.start.x as i128);
            self.x = self.x + 1;
            self.ey = self.ey + 2 * (self.end.y as i128 - self.start.y as i128);
            self.ez = self.ez + 2 * (self.end.z as i128 - self.start.z as i128);
            if self.ey >= 0 {
                self.y = self.y + 1;
                self.ey = self.ey - dx2;
            }
            if self.ez >= 0 {
                self.z = self.z + 1;
                self.ez = self.ez - dx2;
            }
            Some(vox)
        } else {
            None
        }
    }
}

/// The line from `start` to `end`: one cell for each `x` from `start.x` to
/// `end.x`, rising along `y` and `z` as the error terms say.
pub fn bresenham(start: Point, end: Point) -> (points: Vec<Point>)
    requires
        line_fits(start, end),
    ensures
        points@ == line(start, end),
{
    let mut walker = BresenhamPoints::new(start, end);
    let mut points: Vec<Point> = Vec::new();
    loop
        invariant
            walker.wf(),
            walker.start() == start,
            walker.end() == end,
            0 <= walker.steps() <= line_len(start, end),
            points@ == line(start, end).take(walker.steps()),
        decreases line_len(start, end) - walker.steps(),
    {
        match walker.next() {
            Some(p) => {
                points.push(p);
            },
            None => {
                return points;
            },
        }
    }
}

/// The cell `p` with its six neighbours: itself, then the neighbours along
/// `x`, `y` and `z`, the farther one first.
pub open spec fn cross(p: Point) -> Seq<Point> {
    seq![
        p,
        Point { x: (p.x + 1) as i32, ..p },
        Point { x: (p.x - 1) as i32, ..p },
        Point { y: (p.y + 1) as i32, ..p },
        Point { y: (p.y - 1) as i32, ..p },
        Point { z: (p.z + 1) as i32, ..p },
        Point { z: (p.z - 1) as i32, ..p },
    ]
}

/// The crosses of the first `n` cells of `cells`, one after the other.
pub open spec fn crosses(cells: Seq<Point>, n: int) -> Seq<Point>
    decreases n,
{
    if n <= 0 {
        Seq::empty()
    } else {
        crosses(cells, n - 1) + cross(cells[n - 1])
    }
}

/// The line from `start` to `end` with a cross of seven cells at each of
/// its cells.
pub fn line_cross(start: Point, end: Point) -> (points: Vec<Point>)
    requires
        line_fits(start, end),
    ensures
        points@ == crosses(line(start, end), line(start, end).len() as int),
        points.len() == 7 * line_len(start, end),
{
    let mut walker = BresenhamPoints::new(start, end);
    let mut points: Vec<Point> = Vec::new();
    loop
        invariant
            walker.wf(),
            walker.start() == start,
            walker.end() == end,
            line_fits(start, end),
            0 <= walker.steps() <= line_len(start, end),
            points@ == crosses(line(start, end), walker.steps()),
            points.len() == 7 * walker.steps(),
        decreases line_len(start, end) - walker.steps(),
    {
        let ghost k = walker.steps();
        match walker.next() {
            Some(p) => {
                proof {
                    lemma_track_bounds(end.y - start.y, end.x - start.x, k);
                    lemma_track_bounds(end.z - start.z, end.x - start.x, k);
                }
                points.push(p);
                points.push(Point::new(p.x + 1, p.y, p.z));
                points.push(Point::new(p.x - 1, p.y, p.z));
                points.push(Point::new(p.x, p.y + 1, p.z));
                points.push(Point::new(p.x, p.y - 1, p.z));
                points.push(Point::new(p.x, p.y, p.z + 1));
                points.push(Point::new(p.x, p.y, p.z - 1));
            },
            None => {
                return points;
            },
        }
    }
}

proof fn lemma_push_contains(s: Seq<Point>, a: Point, p: Point)
    ensures
        s.push(a).contains(p) <==> s.contains(p) || a == p,
{
    let t = s.push(a);
    if s.contains(p) {
        let i = choose|i: int| 0 <= i < s.len() && s[i] == p;
        assert(t[i] == p);
    }
    if a == p {
        assert(t[s.len() as int] == p);
    }
    if t.contains(p) && a != p {
        let i = choose|i: int| 0 <= i < t.len() && t[i] == p;
        assert(s[i] == p);
    }
}

proof fn lemma_add_contains(s: Seq<Point>, t: Seq<Point>, p: Point)
    ensures
        (s + t).contains(p) <==> s.contains(p) || t.contains(p),
{
    let u = s + t;
    if s.contains(p) {
        let i = choose|i: int| 0 <= i < s.len() && s[i] == p;
        assert(u[i] == p);
    }
    if t.contains(p) {
        let i = choose|i: int| 0 <= i < t.len() && t[i] == p;
        assert(u[s.len() + i] == p);
    }
    if u.contains(p) {
        let i = choose|i: int| 0 <= i < u.len() && u[i] == p;
        if i < s.len() {
            assert(s[i] == p);
        } else {
            assert(t[i - s.len()] == p);
        }
    }
}

proof fn lemma_disc_row_members(mid: Point, r: int, dx: int, n: int, p: Point)
    requires
        r > 0,
        0 <= n <= 2 * r + 1,
        -r <= dx <= r,
        axis_fits(mid.x, r),
        axis_fits(mid.z, r),
    ensures
        disc_row(mid, r, dx, n).contains(p) <==> {
            &&& p.x == mid.x + dx
            &&& p.y == mid.y
            &&& -r <= p.z - mid.z < n - r
            &&& in_disc(dx, p.z - mid.z, r)
        },
    decreases n,
{
    if n > 0 {
        lemma_disc_row_members(mid, r, dx, n - 1, p);
        let before = disc_row(mid, r, dx, n - 1);
        let dz = n - 1 - r;
        if in_disc(dx, dz, r) {
            lemma_push_contains(before, cell_at(mid, dx, 0, dz), p);
        }
    }
}

proof fn lemma_disc_rows_members(mid: Point, r: int, n: int, p: Point)
    requires
        r > 0,
        0 <= n <= 2 * r + 1,
        axis_fits(mid.x, r),
        axis_fits(mid.z, r),
    ensures
        disc_rows(mid, r, n).contains(p) <==> {
            &&& p.y == mid.y
            &&& -r <= p.x - mid.x < n - r
            &&& -r <= p.z - mid.z <= r
            &&& in_disc(p.x - mid.x, p.z - mid.z, r)
        },
    decreases n,
{
    if n > 0 {
        lemma_disc_rows_members(mid, r, n - 1, p);
        let dx = n - 1 - r;
        lemma_disc_row_members(mid, r, dx, 2 * r + 1, p);
        lemma_add_contains(disc_rows(mid, r, n - 1), disc_row(mid, r, dx, 2 * r + 1), p);
    }
}

/// An offset inside the disc or the ball of radius `r` is shorter than `r`
/// along each axis.
pub proof fn lemma_inside_is_near(dx: int, dy: int, dz: int, r: int)
    requires
        r > 0,
        in_ball(dx, dy, dz, r),
    ensures
        -r < dx < r,
        -r < dy < r,
        -r < dz < r,
{
    assert(-r < dx < r && -r < dy < r && -r < dz < r) by (nonlinear_arith)
        requires
            r > 0,
            dx * dx + dy * dy + dz * dz < r * r,
    ;
}

/// What a disc holds: the cells of the midpoint's plane whose offset from
/// the midpoint is `in_disc`, and no other.
pub proof fn lemma_disc_members(mid: Point, r: int, p: Point)
    requires
        axis_fits(mid.x, r),
        axis_fits(mid.z, r),
    ensures
        disc(mid, r).contains(p) <==> r > 0 && p.y == mid.y && in_disc(
            p.x - mid.x,
            p.z - mid.z,
            r,
        ),
{
    if r > 0 {
        lemma_disc_rows_members(mid, r, 2 * r + 1, p);
        if in_disc(p.x - mid.x, p.z - mid.z, r) {
            lemma_inside_is_near(p.x - mid.x, 0, p.z - mid.z, r);
        }
    }
}

proof fn lemma_shell_row_members(mid: Point, r: int, dx: int, dy: int, n: int, p: Point)
    requires
        r > 0,
        0 <= n <= 2 * r + 1,
        -r <= dx <= r,
        -r <= dy <= r,
        axis_fits(mid.x, r),
        axis_fits(mid.y, r),
        axis_fits(mid.z, r),
    ensures
        shell_row(mid, r, dx, dy, n).contains(p) <==> {
            &&& p.x == mid.x + dx
            &&& p.y == mid.y + dy
            &&& -r <= p.z - mid.z < n - r
            &&& on_shell(dx, dy, p.z - mid.z, r)
        },
    decreases n,
{
    if n > 0 {
        lemma_shell_row_members(mid, r, dx, dy, n - 1, p);
        let before = shell_row(mid, r, dx, dy, n - 1);
        let dz = n - 1 - r;
        if on_shell(dx, dy, dz, r) {
            lemma_push_contains(before, cell_at(mid, dx, dy, dz), p);
        }
    }
}

proof fn lemma_shell_slab_members(mid: Point, r: int, dx: int, n: int, p: Point)
    requires
        r > 0,
        0 <= n <= 2 * r + 1,
        -r <= dx <= r,
        axis_fits(mid.x, r),
        axis_fits(mid.y, r),
        axis_fits(mid.z, r),
    ensures
        shell_slab(mid, r, dx, n).contains(p) <==> {
            &&& p.x == mid.x + dx
            &&& -r <= p.y - mid.y < n - r
            &&& -r <= p.z - mid.z <= r
            &&& on_shell(dx, p.y - mid.y, p.z - mid.z, r)
        },
    decreases n,
{
    if n > 0 {
        lemma_shell_slab_members(mid, r, dx, n - 1, p);
        let dy = n - 1 - r;
        lemma_shell_row_members(mid, r, dx, dy, 2 * r + 1, p);
        lemma_add_contains(shell_slab(mid, r, dx, n - 1), shell_row(mid, r, dx, dy, 2 * r + 1), p);
    }
}

proof fn lemma_shell_slabs_members(mid: Point, r: int, n: int, p: Point)
    requires
        r > 0,
        0 <= n <= 2 * r + 1,
        axis_fits(mid.x, r),
        axis_fits(mid.y, r),
        axis_fits(mid.z, r),
    ensures
        shell_slabs(mid, r, n).contains(p) <==> {
            &&& -r <= p.x - mid.x < n - r
            &&& -r <= p.y - mid.y <= r
            &&& -r <= p.z - mid.z <= r
            &&& on_shell(p.x - mid.x, p.y - mid.y, p.z - mid.z, r)
        },
    decreases n,
{
    if n > 0 {
        lemma_shell_slabs_members(mid, r, n - 1, p);
        let dx = n - 1 - r;
        lemma_shell_slab_members(mid, r, dx, 2 * r + 1, p);
        lemma_add_contains(shell_slabs(mid, r, n - 1), shell_slab(mid, r, dx, 2 * r + 1), p);
    }
}

/// What a hollow ball holds: the cells whose offset from the midpoint is
/// `on_shell`, and no other.
pub proof fn lemma_shell_members(mid: Point, r: int, p: Point)
    requires
        axis_fits(mid.x, r),
        axis_fits(mid.y, r),
        axis_fits(mid.z, r),
    ensures
        shell(mid, r).contains(p) <==> r > 0 && on_shell(
            p.x - mid.x,
            p.y - mid.y,
            p.z - mid.z,
            r,
        ),
{
    if r > 0 {
        lemma_shell_slabs_members(mid, r, 2 * r + 1, p);
        if on_shell(p.x - mid.x, p.y - mid.y, p.z - mid.z, r) {
            lemma_inside_is_near(p.x - mid.x, p.y - mid.y, p.z - mid.z, r);
        }
    }
}

/// Whether `a` comes before `b` in the order in which shapes list their
/// cells: by `x`, then `y`, then `z`.
pub open spec fn comes_before(a: Point, b: Point) -> bool {
    a.x < b.x || (a.x == b.x && (a.y < b.y || (a.y == b.y && a.z < b.z)))
}

/// Whether the cells of `cells` rise strictly in the order of shapes: then
/// no cell is there twice, and what `cells` holds fixes `cells`.
pub open spec fn rising(cells: Seq<Point>) -> bool {
    forall|i: int, j: int| 0 <= i < j < cells.len() ==> comes_before(cells[i], cells[j])
}

proof fn lemma_push_rising(s: Seq<Point>, a: Point)
    requires
        rising(s),
        forall|p: Point| s.contains(p) ==> comes_before(p, a),
    ensures
        rising(s.push(a)),
{
    let t = s.push(a);
    assert forall|i: int, j: int| 0 <= i < j < t.len() implies comes_before(t[i], t[j]) by {
        assert(s.contains(s[i]));
    }
}

proof fn lemma_add_rising(s: Seq<Point>, t: Seq<Point>)
    requires
        rising(s),
        rising(t),
        forall|p: Point, q: Point| s.contains(p) && t.contains(q) ==> comes_before(p, q),
    ensures
        rising(s + t),
{
    let u = s + t;
    assert forall|i: int, j: int| 0 <= i < j < u.len() implies comes_before(u[i], u[j]) by {
        if i < s.len() && j >= s.len() {
            assert(s.contains(s[i]));
            assert(t.contains(t[j - s.len()]));
        }
    }
}

proof fn lemma_disc_row_rising(mid: Point, r: int, dx: int, n: int)
    requires
        r > 0,
        0 <= n <= 2 * r + 1,
        -r <= dx <= r,
        axis_fits(mid.x, r),
        axis_fits(mid.z, r),
    ensures
        rising(disc_row(mid, r, dx, n)),
    decreases n,
{
    if n > 0 {
        lemma_disc_row_rising(mid, r, dx, n - 1);
        let before = disc_row(mid, r, dx, n - 1);
        let dz = n - 1 - r;
        if in_disc(dx, dz, r) {
            assert forall|p: Point| before.contains(p) implies comes_before(
                p,
                cell_at(mid, dx, 0, dz),
            ) by {
                lemma_disc_row_members(mid, r, dx, n - 1, p);
            }
            lemma_push_rising(before, cell_at(mid, dx, 0, dz));
        }
    }
}

proof fn lemma_disc_rows_rising(mid: Point, r: int, n: int)
    requires
        r > 0,
        0 <= n <= 2 * r + 1,
        axis_fits(mid.x, r),
        axis_fits(mid.z, r),
    ensures
        rising(disc_rows(mid, r, n)),
    decreases n,
{
    if n > 0 {
        lemma_disc_rows_rising(mid, r, n - 1);
        let dx = n - 1 - r;
        lemma_disc_row_rising(mid, r, dx, 2 * r + 1);
        let before = disc_rows(mid, r, n - 1);
        let row = disc_row(mid, r, dx, 2 * r + 1);
        assert forall|p: Point, q: Point| before.contains(p) && row.contains(q) implies comes_before(
            p,
            q,
        ) by {
            lemma_disc_rows_members(mid, r, n - 1, p);
            lemma_disc_row_members(mid, r, dx, 2 * r + 1, q);
        }
        lemma_add_rising(before, row);
    }
}

/// A disc lists its cells in strictly rising order: with `lemma_disc_members`
/// this says of a disc all there is to say.
pub proof fn lemma_disc_rising(mid: Point, r: int)
    requires
        axis_fits(mid.x, r),
        axis_fits(mid.z, r),
    ensures
        rising(disc(mid, r)),
{
    if r > 0 {
        lemma_disc_rows_rising(mid, r, 2 * r + 1);
    }
}

proof fn lemma_shell_row_rising(mid: Point, r: int, dx: int, dy: int, n: int)
    requires
        r > 0,
        0 <= n <= 2 * r + 1,
        -r <= dx <= r,
        -r <= dy <= r,
        axis_fits(mid.x, r),
        axis_fits(mid.y, r),
        axis_fits(mid.z, r),
    ensures
        rising(shell_row(mid, r, dx, dy, n)),
    decreases n,
{
    if n > 0 {
        lemma_shell_row_rising(mid, r, dx, dy, n - 1);
        let before = shell_row(mid, r, dx, dy, n - 1);
        let dz = n - 1 - r;
        if on_shell(dx, dy, dz, r) {
            assert forall|p: Point| before.contains(p) implies comes_before(
                p,
                cell_at(mid, dx, dy, dz),
            ) by {
                lemma_shell_row_members(mid, r, dx, dy, n - 1, p);
            }
            lemma_push_rising(before, cell_at(mid, dx, dy, dz));
        }
    }
}

proof fn lemma_shell_slab_rising(mid: Point, r: int, dx: int, n: int)
    requires
        r > 0,
        0 <= n <= 2 * r + 1,
        -r <= dx <= r,
        axis_fits(mid.x, r),
        axis_fits(mid.y, r),
        axis_fits(mid.z, r),
    ensures
        rising(shell_slab(mid, r, dx, n)),
    decreases n,
{
    if n > 0 {
        lemma_shell_slab_rising(mid, r, dx, n - 1);
        let dy = n - 1 - r;
        lemma_shell_row_rising(mid, r, dx, dy, 2 * r + 1);
        let before = shell_slab(mid, r, dx, n - 1);
        let row = shell_row(mid, r, dx, dy, 2 * r + 1);
        assert forall|p: Point, q: Point| before.contains(p) && row.contains(q) implies comes_before(
            p,
            q,
        ) by {
            lemma_shell_slab_members(mid, r, dx, n - 1, p);
            lemma_shell_row_members(mid, r, dx, dy, 2 * r + 1, q);
        }
        lemma_add_rising(before, row);
    }
}

proof fn lemma_shell_slabs_rising(mid: Point, r: int, n: int)
    requires
        r > 0,
        0 <= n <= 2 * r + 1,
        axis_fits(mid.x, r),
        axis_fits(mid.y, r),
        axis_fits(mid.z, r),
    ensures
        rising(shell_slabs(mid, r, n)),
    decreases n,
{
    if n > 0 {
        lemma_shell_slabs_rising(mid, r, n - 1);
        let dx = n - 1 - r;
        lemma_shell_slab_rising(mid, r, dx, 2 * r + 1);
        let before = shell_slabs(mid, r, n - 1);
        let slab = shell_slab(mid, r, dx, 2 * r + 1);
        assert forall|p: Point, q: Point| before.contains(p) && slab.contains(q) implies comes_before(
            p,
            q,
        ) by {
            lemma_shell_slabs_members(mid, r, n - 1, p);
            lemma_shell_slab_members(mid, r, dx, 2 * r + 1, q);
        }
        lemma_add_rising(before, slab);
    }
}

/// A hollow ball lists its cells in strictly rising order: with
/// `lemma_shell_members` this says of a hollow ball all there is to say.
pub proof fn lemma_shell_rising(mid: Point, r: int)
    requires
        axis_fits(mid.x, r),
        axis_fits(mid.y, r),
        axis_fits(mid.z, r),
    ensures
        rising(shell(mid, r)),
{
    if r > 0 {
        lemma_shell_slabs_rising(mid, r, 2 * r + 1);
    }
}

} // verus!
