//! The per-frame query: which chunks around the viewpoint to draw, and
//! which to ask for.

use crate::chunk::{containing, ChunkCoord};
use crate::scheduler::{Lifecycle, Scheduler, SchedulerView};
use vstd::prelude::*;

verus! {

/// Whether a chunk at the offset `(ox, oz)` from the viewer's chunk lies
/// behind a viewer who looks along `(lx, lz)`: the two point apart.
pub open spec fn behind(lx: int, lz: int, ox: int, oz: int) -> bool {
    lx * ox + lz * oz < 0
}

/// Whether a chunk at `offset` from the viewer's chunk lies behind a viewer
/// who looks along `look`.
pub fn is_behind(look: (i32, i32), offset: (i32, i32)) -> (b: bool)
    ensures
        b == behind(look.0 as int, look.1 as int, offset.0 as int, offset.1 as int),
{
    let lx = look.0 as i64;
    let lz = look.1 as i64;
    let ox = offset.0 as i64;
    let oz = offset.1 as i64;
    assert(-0x4000_0000_0000_0000 <= lx * ox <= 0x4000_0000_0000_0000) by (nonlinear_arith)
        requires
            -0x8000_0000 <= lx <= 0x8000_0000,
            -0x8000_0000 <= ox <= 0x8000_0000,
    ;
    assert(-0x4000_0000_0000_0000 <= lz * oz <= 0x4000_0000_0000_0000) by (nonlinear_arith)
        requires
            -0x8000_0000 <= lz <= 0x8000_0000,
            -0x8000_0000 <= oz <= 0x8000_0000,
    ;
    let dot: i128 = (lx * ox) as i128 + (lz * oz) as i128;
    dot < 0
}

/// Cull correctness: whether a chunk lies behind the viewer depends on the
/// direction of its offset alone, not on how far away it is, nor on the
/// length of the look vector.
pub proof fn lemma_cull_scale(lx: int, lz: int, ox: int, oz: int, k: int)
    requires
        k > 0,
    ensures
        behind(lx, lz, k * ox, k * oz) == behind(lx, lz, ox, oz),
        behind(k * lx, k * lz, ox, oz) == behind(lx, lz, ox, oz),
{
    let d = lx * ox + lz * oz;
    assert(lx * (k * ox) + lz * (k * oz) == k * d) by (nonlinear_arith)
        requires
            d == lx * ox + lz * oz,
    ;
    assert((k * lx) * ox + (k * lz) * oz == k * d) by (nonlinear_arith)
        requires
            d == lx * ox + lz * oz,
    ;
    assert((k * d < 0) == (d < 0)) by (nonlinear_arith)
        requires
            k > 0,
    ;
}

/// The number of chunks along a side of the square of the given render
/// distance: none where the distance is negative.
pub open spec fn side(render_distance: int) -> int {
    if render_distance >= 0 {
        2 * render_distance + 1
    } else {
        0
    }
}

/// Chunk `k` of the square around `center`: the square is walked row by
/// row, along `x` first.
pub open spec fn square_at(center: ChunkCoord, render_distance: int, k: int) -> ChunkCoord {
    ChunkCoord {
        x: (center.x - render_distance + k % side(render_distance)) as i32,
        z: (center.z - render_distance + k / side(render_distance)) as i32,
    }
}

/// The chunks within `render_distance` of `center` on both axes.
pub open spec fn square(center: ChunkCoord, render_distance: int) -> Seq<ChunkCoord> {
    Seq::new(
        (side(render_distance) * side(render_distance)) as nat,
        |k: int| square_at(center, render_distance, k),
    )
}

/// Whether the square around `center` lies in the range of chunk
/// coordinates.
pub open spec fn square_fits(center: ChunkCoord, render_distance: int) -> bool {
    render_distance >= 0 ==> {
        &&& i32::MIN <= center.x - render_distance
        &&& center.x + render_distance <= i32::MAX
        &&& i32::MIN <= center.z - render_distance
        &&& center.z + render_distance <= i32::MAX
    }
}

/// The scheduler after the query has visited `coord`: a resident chunk is
/// looked up, any other is requested.
pub open spec fn visited(s: SchedulerView, coord: ChunkCoord) -> SchedulerView {
    if s.resident.contains_key(coord) {
        s.looked_up(coord)
    } else {
        s.requested(coord)
    }
}

/// The scheduler after the query has visited the first `n` chunks of
/// `coords`.
pub open spec fn swept(s: SchedulerView, coords: Seq<ChunkCoord>, n: int) -> SchedulerView
    decreases n,
{
    if n <= 0 {
        s
    } else {
        visited(swept(s, coords, n - 1), coords[n - 1])
    }
}

/// Whether the query draws `coord`: it is resident, and the viewer, where
/// there is a look direction, does not have it behind.
pub open spec fn shown(
    resident: Set<ChunkCoord>,
    center: ChunkCoord,
    look: Option<(i32, i32)>,
    coord: ChunkCoord,
) -> bool {
    &&& resident.contains(coord)
    &&& match look {
        Some(l) => !behind(l.0 as int, l.1 as int, coord.x - center.x, coord.z - center.z),
        None => true,
    }
}

/// The chunks that the query draws among the first `n` of `coords`, in
/// order.
pub open spec fn drawn_upto(
    resident: Set<ChunkCoord>,
    center: ChunkCoord,
    look: Option<(i32, i32)>,
    coords: Seq<ChunkCoord>,
    n: int,
) -> Seq<ChunkCoord>
    decreases n,
{
    if n <= 0 {
        Seq::empty()
    } else {
        let before = drawn_upto(resident, center, look, coords, n - 1);
        if shown(resident, center, look, coords[n - 1]) {
            before.push(coords[n - 1])
        } else {
            before
        }
    }
}

/// Visits one chunk for the query: looks it up, and requests it on a miss.
/// Returns whether it was a hit.
pub fn visit(scheduler: &mut Scheduler, coord: ChunkCoord) -> (hit: bool)
    requires
        old(scheduler)@.wf(),
    ensures
        final(scheduler)@ == visited(old(scheduler)@, coord),
        final(scheduler)@.wf(),
        hit == old(scheduler)@.resident.contains_key(coord),
{
    let hit = scheduler.try_get(coord).is_some();
    if !hit {
        scheduler.request(coord);
    }
    hit
}

/// Runs the query of one frame for a viewer at the column `camera_position`
/// who looks along `look`, if a direction is given. Every chunk of the
/// square of `render_distance` around the viewer's chunk is visited, row by
/// row: a resident chunk is looked up, a missing one requested, whichever
/// way the viewer looks. Returns the chunks to draw: the resident ones that
/// the viewer does not have behind.
pub fn draw_chunk_and_around(
    scheduler: &mut Scheduler,
    camera_position: (i32, i32),
    render_distance: i32,
    look: Option<(i32, i32)>,
) -> (drawn: Vec<ChunkCoord>)
    requires
        old(scheduler)@.wf(),
        square_fits(
            containing(camera_position.0 as int, camera_position.1 as int),
            render_distance as int,
        ),
    ensures
        ({
            let center = containing(camera_position.0 as int, camera_position.1 as int);
            let coords = square(center, render_distance as int);
            &&& final(scheduler)@ == swept(old(scheduler)@, coords, coords.len() as int)
            &&& drawn@ == drawn_upto(
                old(scheduler)@.resident.dom(),
                center,
                look,
                coords,
                coords.len() as int,
            )
        }),
        final(scheduler)@.wf(),
{
    let mut drawn: Vec<ChunkCoord> = Vec::new();
    if render_distance < 0 {
        return drawn;
    }
    let center = ChunkCoord::of_position(camera_position.0, camera_position.1);
    let r: i64 = render_distance as i64;
    let width: u64 = (2 * r + 1) as u64;
    assert(width * width <= 0xffff_ffff * 0xffff_ffff) by (nonlinear_arith)
        requires
            0 < width <= 0xffff_ffff,
    ;
    let n: u64 = width * width;
    let ghost coords = square(center, render_distance as int);
    let ghost resident = scheduler@.resident.dom();
    let mut k: u64 = 0;
    while k < n
        invariant
            0 <= k <= n,
            n == width * width,
            width == side(render_distance as int),
            r == render_distance,
            0 <= render_distance,
            center == containing(camera_position.0 as int, camera_position.1 as int),
            square_fits(center, render_distance as int),
            coords == square(center, render_distance as int),
            scheduler@.wf(),
            scheduler@ == swept(old(scheduler)@, coords, k as int),
            scheduler@.resident.dom() == resident,
            resident == old(scheduler)@.resident.dom(),
            drawn@ == drawn_upto(resident, center, look, coords, k as int),
        decreases n - k,
    {
        assert(k / width < width) by (nonlinear_arith)
            requires
                k < width * width,
                0 < width,
        ;
        let dx: i64 = (k % width) as i64 - r;
        let dz: i64 = (k / width) as i64 - r;
        let coord = ChunkCoord::new((center.x as i64 + dx) as i32, (center.z as i64 + dz) as i32);
        let hit = visit(scheduler, coord);
        if hit {
            let culled = match look {
                Some(l) => is_behind(l, (dx as i32, dz as i32)),
                None => false,
            };
            if !culled {
                drawn.push(coord);
            }
        }
        k = k + 1;
    }
    drawn
}

/// The chunks among the first `n` of `coords` that are unknown to `s`, in
/// order.
pub open spec fn missing_upto(s: SchedulerView, coords: Seq<ChunkCoord>, n: int) -> Seq<ChunkCoord>
    decreases n,
{
    if n <= 0 {
        Seq::empty()
    } else {
        let before = missing_upto(s, coords, n - 1);
        if s.state(coords[n - 1]) == Lifecycle::Unknown {
            before.push(coords[n - 1])
        } else {
            before
        }
    }
}

/// No chunk is in the square twice.
pub proof fn lemma_square_distinct(center: ChunkCoord, render_distance: int)
    requires
        square_fits(center, render_distance),
    ensures
        square(center, render_distance).no_duplicates(),
{
    let w = side(render_distance);
    let coords = square(center, render_distance);
    assert forall|i: int, j: int| 0 <= i < coords.len() && 0 <= j < coords.len() && i != j implies coords[i]
        != coords[j] by {
        assert(w > 0 && i / w < w && j / w < w && 0 <= i / w && 0 <= j / w) by (nonlinear_arith)
            requires
                0 <= i < w * w,
                0 <= j < w * w,
                w >= 0,
        ;
        vstd::arithmetic::div_mod::lemma_fundamental_div_mod(i, w);
        vstd::arithmetic::div_mod::lemma_fundamental_div_mod(j, w);
    }
}

/// What the query does to the scheduler, for chunks `coords` of which none
/// occurs twice. The cache and the job in flight stay as they are. The
/// queue grows by the chunks that were unknown, in the order of the visit,
/// and by no other: a resident or pending chunk is not requested again. Of
/// the chunks visited, the resident ones are pending no longer and all
/// others are pending; none is unknown any more.
pub proof fn lemma_sweep(s: SchedulerView, coords: Seq<ChunkCoord>, n: int)
    requires
        s.wf(),
        coords.no_duplicates(),
        0 <= n <= coords.len(),
    ensures
        ({
            let t = swept(s, coords, n);
            &&& t.wf()
            &&& t.resident == s.resident
            &&& t.in_flight == s.in_flight
            &&& t.queue == s.queue + missing_upto(s, coords, n)
            &&& forall|c: ChunkCoord|
                #[trigger] t.pending.contains(c) <==> if coords.take(n).contains(c) {
                    !s.resident.contains_key(c)
                } else {
                    s.pending.contains(c)
                }
            &&& forall|i: int| 0 <= i < n ==> t.state(#[trigger] coords[i]) != Lifecycle::Unknown
        }),
    decreases n,
{
    if n > 0 {
        lemma_sweep(s, coords, n - 1);
        let prev = swept(s, coords, n - 1);
        let c = coords[n - 1];
        let head = coords.take(n - 1);
        let now = coords.take(n);
        assert(!head.contains(c)) by {
            if head.contains(c) {
                let i = choose|i: int| 0 <= i < head.len() && head[i] == c;
                assert(coords[i] == coords[n - 1]);
            }
        }
        assert(now == head.push(c));
        assert forall|d: ChunkCoord| now.contains(d) <==> (head.contains(d) || d == c) by {
            if head.contains(d) {
                let i = choose|i: int| 0 <= i < head.len() && head[i] == d;
                assert(now[i] == d);
            }
            if d == c {
                assert(now[n - 1] == d);
            }
        }
        if prev.resident.contains_key(c) {
            crate::scheduler::lemma_looked_up_wf(prev, c);
        } else {
            crate::scheduler::lemma_requested_wf(prev, c);
        }
    }
}

/// Radius query: after the query of a frame every chunk of the square is
/// resident or pending, the queue has grown by exactly the chunks of the
/// square that were unknown, and the cache is as it was.
pub proof fn lemma_query_covers(s: SchedulerView, center: ChunkCoord, render_distance: int)
    requires
        s.wf(),
        square_fits(center, render_distance),
    ensures
        ({
            let coords = square(center, render_distance);
            let t = swept(s, coords, coords.len() as int);
            &&& t.wf()
            &&& t.resident == s.resident
            &&& t.queue == s.queue + missing_upto(s, coords, coords.len() as int)
            &&& forall|i: int|
                0 <= i < coords.len() ==> t.state(#[trigger] coords[i]) != Lifecycle::Unknown
        }),
{
    lemma_square_distinct(center, render_distance);
    let coords = square(center, render_distance);
    lemma_sweep(s, coords, coords.len() as int);
}

} // verus!
