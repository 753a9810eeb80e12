//! The chunk cache and the generation scheduler.
//!
//! A chunk is unknown until it is requested, pending until it has been
//! generated and inserted, and resident from then on. The scheduler owns the
//! cache, the set of pending chunks and the queue of requests; whoever runs
//! it hands it one message at a time: the consumer `request` and `try_get`,
//! the worker `next_job` and `insert`.

use crate::chunk::ChunkCoord;
use crate::terrain::GenerationPositions;
use std::collections::HashMap;
use std::collections::HashSet;
use std::collections::VecDeque;
use vstd::prelude::*;

verus! {

broadcast use {vstd::std_specs::hash::group_hash_axioms, ChunkCoord::lemma_key_injective};

/// Where a chunk stands in its life.
#[derive(Clone, Copy, Debug, PartialEq, Eq, Structural)]
pub enum Lifecycle {
    /// Neither requested nor generated.
    Unknown,
    /// Requested, and not in the cache yet.
    Pending,
    /// In the cache.
    Resident,
}

/// How many chunks at the head of `backlog` are in `resident`.
pub open spec fn leading(resident: Set<ChunkCoord>, backlog: Seq<ChunkCoord>) -> nat
    decreases backlog.len(),
{
    if backlog.len() == 0 || !resident.contains(backlog[0]) {
        0
    } else {
        1 + leading(resident, backlog.drop_first())
    }
}

/// What a `Scheduler` holds, as a mathematical value.
pub struct SchedulerView {
    /// The chunks of the cache.
    pub resident: Map<ChunkCoord, GenerationPositions>,
    /// The chunks that were requested and not seen in the cache since.
    pub pending: Set<ChunkCoord>,
    /// The requests that no worker has taken yet, oldest first.
    pub queue: Seq<ChunkCoord>,
    /// The request that the worker took last.
    pub in_flight: Option<ChunkCoord>,
}

impl SchedulerView {
    /// The scheduler with nothing in it.
    pub open spec fn empty() -> SchedulerView {
        SchedulerView {
            resident: Map::empty(),
            pending: Set::empty(),
            queue: Seq::empty(),
            in_flight: None,
        }
    }

    /// Where `coord` stands in its life.
    pub open spec fn state(self, coord: ChunkCoord) -> Lifecycle {
        if self.resident.contains_key(coord) {
            Lifecycle::Resident
        } else if self.pending.contains(coord) {
            Lifecycle::Pending
        } else {
            Lifecycle::Unknown
        }
    }

    /// The requests that are still to be served, in the order in which the
    /// worker meets them: the one in flight, then the queue.
    pub open spec fn backlog(self) -> Seq<ChunkCoord> {
        match self.in_flight {
            Some(c) => seq![c] + self.queue,
            None => self.queue,
        }
    }

    /// What holds of every scheduler: a pending chunk that is not resident
    /// is in the backlog, a chunk of the backlog is pending or resident, no
    /// chunk is in the backlog twice, and finitely many chunks are pending.
    pub open spec fn wf(self) -> bool {
        &&& self.pending.finite()
        &&& forall|c: ChunkCoord|
            self.pending.contains(c) && !self.resident.contains_key(c)
                ==> #[trigger] self.backlog().contains(c)
        &&& forall|i: int|
            0 <= i < self.backlog().len() ==> self.pending.contains(#[trigger] self.backlog()[i])
                || self.resident.contains_key(self.backlog()[i])
        &&& self.backlog().no_duplicates()
    }

    /// The scheduler after `request(coord)`: an unknown chunk becomes
    /// pending and joins the queue; for any other chunk nothing changes.
    pub open spec fn requested(self, coord: ChunkCoord) -> SchedulerView {
        if self.state(coord) == Lifecycle::Unknown {
            SchedulerView {
                pending: self.pending.insert(coord),
                queue: self.queue.push(coord),
                ..self
            }
        } else {
            self
        }
    }

    /// The scheduler after `try_get(coord)`: a resident chunk is pending no
    /// longer; for any other chunk nothing changes.
    pub open spec fn looked_up(self, coord: ChunkCoord) -> SchedulerView {
        if self.resident.contains_key(coord) {
            SchedulerView { pending: self.pending.remove(coord), ..self }
        } else {
            self
        }
    }

    /// The scheduler after `insert(coord, chunk)`: a chunk that is not
    /// resident becomes resident; one that is keeps what it holds.
    pub open spec fn inserted(self, coord: ChunkCoord, chunk: GenerationPositions)
        -> SchedulerView {
        if self.resident.contains_key(coord) {
            self
        } else {
            SchedulerView { resident: self.resident.insert(coord, chunk), ..self }
        }
    }

    /// How many requests at the head of `backlog` are resident already.
    pub open spec fn served(self, backlog: Seq<ChunkCoord>) -> nat {
        leading(self.resident.dom(), backlog)
    }

    /// The job that `next_job` hands out: the first request of the backlog
    /// that is not resident yet.
    pub open spec fn job(self) -> Option<ChunkCoord> {
        let skip = self.served(self.backlog());
        if skip < self.backlog().len() {
            Some(self.backlog()[skip as int])
        } else {
            None
        }
    }

    /// The scheduler after `next_job()`: the requests at the head of the
    /// backlog that are resident already are dropped, and the first one that
    /// is not is in flight.
    pub open spec fn dispatched(self) -> SchedulerView {
        let skip = self.served(self.backlog());
        SchedulerView {
            in_flight: self.job(),
            queue: if skip < self.backlog().len() {
                self.backlog().skip(skip as int + 1)
            } else {
                Seq::empty()
            },
            ..self
        }
    }
}

/// The cache of generated chunks with the requests for those that are
/// missing.
pub struct Scheduler {
    cache: HashMap<u64, GenerationPositions>,
    pending: HashSet<u64>,
    queue: VecDeque<ChunkCoord>,
    in_flight: Option<ChunkCoord>,
}

impl View for Scheduler {
    type V = SchedulerView;

    closed spec fn view(&self) -> SchedulerView {
        SchedulerView {
            resident: Map::new(
                |c: ChunkCoord| self.cache@.contains_key(c.key_of()),
                |c: ChunkCoord| self.cache@[c.key_of()],
            ),
            pending: Set::new(|c: ChunkCoord| self.pending@.contains(c.key_of())),
            queue: self.queue@,
            in_flight: self.in_flight,
        }
    }
}

impl Scheduler {
    /// A scheduler with an empty cache and no requests.
    pub fn new() -> (s: Scheduler)
        ensures
            s@ == SchedulerView::empty(),
            s@.wf(),
    {
        let s = Scheduler {
            cache: HashMap::new(),
            pending: HashSet::new(),
            queue: VecDeque::new(),
            in_flight: None,
        };
        assert(s@.resident =~= Map::empty());
        s
    }

    /// Whether `coord` is in the cache.
    pub fn contains(&self, coord: ChunkCoord) -> (b: bool)
        ensures
            b == self@.resident.contains_key(coord),
    {
        self.cache.contains_key(&coord.key())
    }

    /// Whether `coord` was requested and not seen in the cache since.
    pub fn is_pending(&self, coord: ChunkCoord) -> (b: bool)
        ensures
            b == self@.pending.contains(coord),
    {
        self.pending.contains(&coord.key())
    }

    /// Where `coord` stands in its life.
    pub fn state(&self, coord: ChunkCoord) -> (l: Lifecycle)
        ensures
            l == self@.state(coord),
    {
        if self.contains(coord) {
            Lifecycle::Resident
        } else if self.is_pending(coord) {
            Lifecycle::Pending
        } else {
            Lifecycle::Unknown
        }
    }

    /// The chunk of `coord`, where it is in the cache. Unlike `try_get` this
    /// leaves the pending set alone.
    pub fn get(&self, coord: ChunkCoord) -> (hit: Option<&GenerationPositions>)
        ensures
            match hit {
                Some(chunk) => self@.resident.contains_key(coord) && *chunk
                    == self@.resident[coord],
                None => !self@.resident.contains_key(coord),
            },
    {
        self.cache.get(&coord.key())
    }

    /// The number of requests that no worker has taken yet.
    pub fn queue_depth(&self) -> (n: usize)
        ensures
            n == self@.queue.len(),
    {
        self.queue.len()
    }

    /// The number of chunks that were requested and not seen in the cache
    /// since. With the depth of the queue it shows from outside whether the
    /// worker keeps up.
    pub fn pending_len(&self) -> (n: usize)
        requires
            self@.wf(),
        ensures
            n == self@.pending.len(),
    {
        proof {
            let keys = self.pending@;
            let encode = |c: ChunkCoord| c.key_of();
            assert forall|k: u64| #[trigger] keys.contains(k) implies self@.pending.map(
                encode,
            ).contains(k) by {
                ChunkCoord::lemma_key_round_trip(ChunkCoord::of_key(k), k);
                assert(self@.pending.contains(ChunkCoord::of_key(k)));
            }
            assert(self@.pending.map(encode) =~= keys);
            vstd::set_lib::lemma_map_size(self@.pending, keys, encode);
        }
        self.pending.len()
    }

    /// Asks for `coord` to be generated. Nothing happens where it is resident
    /// or pending already; else it becomes pending and joins the queue.
    /// Returns whether it joined the queue.
    pub fn request(&mut self, coord: ChunkCoord) -> (queued: bool)
        requires
            old(self)@.wf(),
        ensures
            final(self)@ == old(self)@.requested(coord),
            final(self)@.wf(),
            queued == (old(self)@.state(coord) == Lifecycle::Unknown),
    {
        let key = coord.key();
        if self.cache.contains_key(&key) || self.pending.contains(&key) {
            return false;
        }
        proof {
            lemma_requested_wf(self@, coord);
        }
        self.pending.insert(key);
        self.queue.push_back(coord);
        assert(self@.pending =~= old(self)@.pending.insert(coord));
        true
    }

    /// Puts a generated chunk into the cache. A chunk that is resident
    /// already stays as it is, and `chunk` is dropped.
    pub fn insert(&mut self, coord: ChunkCoord, chunk: GenerationPositions)
        requires
            old(self)@.wf(),
        ensures
            final(self)@ == old(self)@.inserted(coord, chunk),
            final(self)@.wf(),
    {
        let key = coord.key();
        if self.cache.contains_key(&key) {
            return ;
        }
        proof {
            lemma_inserted_wf(self@, coord, chunk);
        }
        self.cache.insert(key, chunk);
        assert(self@.resident =~= old(self)@.resident.insert(coord, chunk));
    }

    /// Looks `coord` up in the cache. On a hit the chunk is pending no
    /// longer.
    pub fn try_get(&mut self, coord: ChunkCoord) -> (hit: Option<&GenerationPositions>)
        requires
            old(self)@.wf(),
        ensures
            final(self)@ == old(self)@.looked_up(coord),
            final(self)@.wf(),
            match hit {
                Some(chunk) => old(self)@.resident.contains_key(coord) && *chunk == old(
                    self,
                )@.resident[coord],
                None => !old(self)@.resident.contains_key(coord),
            },
    {
        let key = coord.key();
        if self.cache.contains_key(&key) {
            proof {
                lemma_looked_up_wf(self@, coord);
            }
            self.pending.remove(&key);
            assert(self@.pending =~= old(self)@.pending.remove(coord));
        }
        self.cache.get(&key)
    }

    /// Hands the worker its job: the request in flight where its chunk is
    /// still missing, else the oldest request of the queue whose chunk is.
    /// Requests whose chunk is resident by now are dropped on the way. The
    /// job stays in flight until its chunk is inserted.
    pub fn next_job(&mut self) -> (job: Option<ChunkCoord>)
        requires
            old(self)@.wf(),
        ensures
            final(self)@ == old(self)@.dispatched(),
            final(self)@.wf(),
            job == old(self)@.job(),
    {
        proof {
            lemma_dispatched_wf(self@);
        }
        match self.in_flight {
            Some(c) => {
                if !self.cache.contains_key(&c.key()) {
                    assert(self@.backlog().skip(1) =~= self@.queue);
                    return Some(c);
                }
                self.in_flight = None;
                proof {
                    assert(self@.queue =~= old(self)@.backlog().drop_first());
                    lemma_drop_served(old(self)@, self@);
                }
            },
            None => {},
        }
        loop
            invariant
                self@.in_flight is None,
                self@.dispatched() == old(self)@.dispatched(),
                self@.job() == old(self)@.job(),
                old(self)@.dispatched().wf(),
            decreases self@.queue.len(),
        {
            let ghost before = self@;
            match self.queue.pop_front() {
                None => {
                    assert(self@.queue =~= Seq::empty());
                    return None;
                },
                Some(c) => {
                    if !self.cache.contains_key(&c.key()) {
                        self.in_flight = Some(c);
                        return Some(c);
                    }
                    proof {
                        lemma_drop_served(before, self@);
                    }
                },
            }
        }
    }

    /// Forgets every chunk and every request.
    pub fn reset(&mut self)
        ensures
            final(self)@ == SchedulerView::empty(),
            final(self)@.wf(),
    {
        *self = Scheduler::new();
    }
}

/// `request` keeps a scheduler well formed.
pub proof fn lemma_requested_wf(s: SchedulerView, coord: ChunkCoord)
    requires
        s.wf(),
    ensures
        s.requested(coord).wf(),
{
    if s.state(coord) == Lifecycle::Unknown {
        let t = s.requested(coord);
        assert(t.backlog() =~= s.backlog().push(coord));
        assert forall|c: ChunkCoord|
            t.pending.contains(c) && !t.resident.contains_key(c) implies #[trigger] t.backlog().contains(
            c,
        ) by {
            if c == coord {
                assert(t.backlog()[t.backlog().len() - 1] == coord);
            } else {
                assert(s.backlog().contains(c));
                let i = choose|i: int| 0 <= i < s.backlog().len() && s.backlog()[i] == c;
                assert(t.backlog()[i] == c);
            }
        }
    }
}

/// `insert` keeps a scheduler well formed.
pub proof fn lemma_inserted_wf(s: SchedulerView, coord: ChunkCoord, chunk: GenerationPositions)
    requires
        s.wf(),
    ensures
        s.inserted(coord, chunk).wf(),
{
}

/// `try_get` keeps a scheduler well formed.
pub proof fn lemma_looked_up_wf(s: SchedulerView, coord: ChunkCoord)
    requires
        s.wf(),
    ensures
        s.looked_up(coord).wf(),
{
}

/// The requests that `next_job` drops are resident, and the one it stops at
/// is not.
pub proof fn lemma_served(s: SchedulerView, backlog: Seq<ChunkCoord>)
    ensures
        s.served(backlog) <= backlog.len(),
        forall|i: int| 0 <= i < s.served(backlog) ==> s.resident.contains_key(#[trigger] backlog[i]),
        s.served(backlog) < backlog.len() ==> !s.resident.contains_key(
            backlog[s.served(backlog) as int],
        ),
    decreases backlog.len(),
{
    reveal_with_fuel(leading, 2);
    if backlog.len() > 0 && s.resident.contains_key(backlog[0]) {
        let rest = backlog.drop_first();
        lemma_served(s, rest);
        assert forall|i: int| 0 <= i < s.served(backlog) implies s.resident.contains_key(
            #[trigger] backlog[i],
        ) by {
            if i > 0 {
                assert(backlog[i] == rest[i - 1]);
            }
        }
    }
}

/// Dropping a resident request from the head of the backlog changes neither
/// the job that `next_job` hands out nor the scheduler it leaves.
pub proof fn lemma_drop_served(s: SchedulerView, t: SchedulerView)
    requires
        s.backlog().len() > 0,
        s.resident.contains_key(s.backlog()[0]),
        t == (SchedulerView { in_flight: None, queue: s.backlog().drop_first(), ..s }),
    ensures
        t.job() == s.job(),
        t.dispatched() == s.dispatched(),
{
    let b = s.backlog();
    let rest = b.drop_first();
    let k = t.served(rest) as int;
    lemma_served(t, rest);
    if k < rest.len() {
        assert(b.skip(k + 2) =~= rest.skip(k + 1));
    }
}

/// `next_job` keeps a scheduler well formed.
pub proof fn lemma_dispatched_wf(s: SchedulerView)
    requires
        s.wf(),
    ensures
        s.dispatched().wf(),
{
    let t = s.dispatched();
    let b = s.backlog();
    let k = s.served(b) as int;
    lemma_served(s, b);
    assert forall|c: ChunkCoord|
        t.pending.contains(c) && !t.resident.contains_key(c) implies #[trigger] t.backlog().contains(
        c,
    ) by {
        assert(s.backlog().contains(c));
        let i = choose|i: int| 0 <= i < b.len() && b[i] == c;
        assert(t.backlog()[i - k] == c);
    }
}

/// The scheduler after `n` requests for `coord` in a row.
pub open spec fn requested_times(s: SchedulerView, coord: ChunkCoord, n: nat) -> SchedulerView
    decreases n,
{
    if n == 0 {
        s
    } else {
        requested_times(s, coord, (n - 1) as nat).requested(coord)
    }
}

/// How often `coord` occurs in `backlog`.
pub open spec fn occurrences(backlog: Seq<ChunkCoord>, coord: ChunkCoord) -> nat
    decreases backlog.len(),
{
    if backlog.len() == 0 {
        0
    } else {
        occurrences(backlog.drop_last(), coord) + if backlog.last() == coord {
            1nat
        } else {
            0nat
        }
    }
}

/// A chunk occurs in a sequence without duplicates once if it is there, and
/// else not at all.
pub proof fn lemma_occurrences(backlog: Seq<ChunkCoord>, coord: ChunkCoord)
    requires
        backlog.no_duplicates(),
    ensures
        occurrences(backlog, coord) == if backlog.contains(coord) {
            1nat
        } else {
            0nat
        },
    decreases backlog.len(),
{
    if backlog.len() > 0 {
        let front = backlog.drop_last();
        lemma_occurrences(front, coord);
        if backlog.last() != coord && backlog.contains(coord) {
            let i = choose|i: int| 0 <= i < backlog.len() && backlog[i] == coord;
            assert(front[i] == coord);
        }
    }
}

/// Single-generation dedup: however often a chunk is requested in a row, it
/// is as if it had been requested once. A chunk that was unknown is then
/// pending and stands in the backlog exactly once; for any other chunk
/// nothing has changed.
pub proof fn lemma_request_dedup(s: SchedulerView, coord: ChunkCoord, n: nat)
    requires
        s.wf(),
        n >= 1,
    ensures
        requested_times(s, coord, n) == s.requested(coord),
        requested_times(s, coord, n).wf(),
        s.state(coord) == Lifecycle::Unknown ==> {
            &&& requested_times(s, coord, n).queue == s.queue.push(coord)
            &&& requested_times(s, coord, n).state(coord) == Lifecycle::Pending
            &&& occurrences(requested_times(s, coord, n).backlog(), coord) == 1
        },
        s.state(coord) != Lifecycle::Unknown ==> requested_times(s, coord, n) == s,
    decreases n,
{
    lemma_requested_wf(s, coord);
    if n > 1 {
        lemma_request_dedup(s, coord, (n - 1) as nat);
    }
    if s.state(coord) == Lifecycle::Unknown {
        lemma_occurrences(s.requested(coord).backlog(), coord);
    }
}

/// A chunk that is pending or resident stays so whatever the consumer and
/// the worker do next: a request is never lost.
pub proof fn lemma_request_kept(
    s: SchedulerView,
    coord: ChunkCoord,
    other: ChunkCoord,
    chunk: GenerationPositions,
)
    requires
        s.state(coord) != Lifecycle::Unknown,
    ensures
        s.requested(other).state(coord) != Lifecycle::Unknown,
        s.looked_up(other).state(coord) != Lifecycle::Unknown,
        s.inserted(other, chunk).state(coord) != Lifecycle::Unknown,
        s.dispatched().state(coord) != Lifecycle::Unknown,
        s.resident.contains_key(coord) ==> {
            &&& s.requested(other).resident.contains_key(coord)
            &&& s.looked_up(other).resident.contains_key(coord)
            &&& s.inserted(other, chunk).resident.contains_key(coord)
            &&& s.inserted(other, chunk).resident[coord] == s.resident[coord]
            &&& s.dispatched().resident.contains_key(coord)
        },
{
}

/// Each round of the worker shortens the backlog: once the chunk of the job
/// that was handed out is inserted, the next call of `next_job` drops that
/// request.
pub proof fn lemma_worker_progress(s: SchedulerView, chunk: GenerationPositions)
    requires
        s.wf(),
        s.job() is Some,
    ensures
        s.dispatched().inserted(s.job().unwrap(), chunk).dispatched().backlog().len()
            < s.dispatched().backlog().len(),
        s.dispatched().backlog().len() <= s.backlog().len(),
{
    lemma_served(s, s.backlog());
    let inserted = s.dispatched().inserted(s.job().unwrap(), chunk);
    lemma_served(inserted, inserted.backlog());
}

/// Scheduler liveness: once the worker has drained the backlog, so that
/// `next_job` has no job to hand out, every chunk that was requested is
/// resident. `try_get` then finds it, and afterwards it is pending no
/// longer.
pub proof fn lemma_drained_is_resident(s: SchedulerView, coord: ChunkCoord)
    requires
        s.wf(),
        s.job() is None,
        s.state(coord) != Lifecycle::Unknown,
    ensures
        s.resident.contains_key(coord),
        !s.looked_up(coord).pending.contains(coord),
        s.looked_up(coord).state(coord) == Lifecycle::Resident,
{
    lemma_served(s, s.backlog());
    assert(s.resident.contains_key(coord) || s.backlog().contains(coord));
}

} // verus!
