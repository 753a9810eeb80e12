//! Chunk coordinates.

use vstd::prelude::*;

verus! {

/// The number of columns along each side of a chunk.
pub const CHUNK_SIZE: i32 = 32;

/// Names a chunk: the chunk `(x, z)` covers the columns from
/// `(x * CHUNK_SIZE, z * CHUNK_SIZE)` on, `CHUNK_SIZE` along each axis.
#[derive(Clone, Copy, Debug, PartialEq, Eq, Structural, Hash)]
pub struct ChunkCoord {
    pub x: i32,
    pub z: i32,
}

/// The chunk that holds the column `(px, pz)`.
pub open spec fn containing(px: int, pz: int) -> ChunkCoord {
    ChunkCoord { x: (px / (CHUNK_SIZE as int)) as i32, z: (pz / (CHUNK_SIZE as int)) as i32 }
}

fn floor_chunk(p: i32) -> (c: i32)
    ensures
        c == p as int / (CHUNK_SIZE as int),
{
    if p >= 0 {
        p / CHUNK_SIZE
    } else {
        let below: i64 = (-(p as i64) - 1) / (CHUNK_SIZE as i64);
        (-below - 1) as i32
    }
}

impl ChunkCoord {
    /// The chunk `(x, z)`.
    pub fn new(x: i32, z: i32) -> (c: ChunkCoord)
        ensures
            c == (ChunkCoord { x, z }),
    {
        ChunkCoord { x, z }
    }

    /// The number that stands for the chunk in the cache: no two chunks
    /// share one.
    pub open spec fn key_of(self) -> u64 {
        ((self.x + 0x8000_0000) * 0x1_0000_0000 + (self.z + 0x8000_0000)) as u64
    }

    /// The number that stands for the chunk in the cache.
    pub fn key(&self) -> (k: u64)
        ensures
            k == self.key_of(),
    {
        let hi: u64 = (self.x as i64 + 0x8000_0000) as u64;
        let lo: u64 = (self.z as i64 + 0x8000_0000) as u64;
        hi * 0x1_0000_0000 + lo
    }

    /// Two chunks with the same key are the same chunk.
    pub broadcast proof fn lemma_key_injective(a: ChunkCoord, b: ChunkCoord)
        ensures
            #[trigger] a.key_of() == #[trigger] b.key_of() ==> a == b,
    {
    }

    /// The chunk that `key` stands for.
    pub open spec fn of_key(key: u64) -> ChunkCoord {
        ChunkCoord {
            x: (key / 0x1_0000_0000 - 0x8000_0000) as i32,
            z: (key % 0x1_0000_0000 - 0x8000_0000) as i32,
        }
    }

    /// Every number is the key of one chunk.
    pub proof fn lemma_key_round_trip(c: ChunkCoord, key: u64)
        ensures
            ChunkCoord::of_key(c.key_of()) == c,
            ChunkCoord::of_key(key).key_of() == key,
    {
    }

    /// Whether the chunk's columns lie in the grid.
    pub open spec fn in_grid(self) -> bool {
        &&& i32::MIN <= self.x * CHUNK_SIZE
        &&& self.x * CHUNK_SIZE + CHUNK_SIZE <= i32::MAX + 1
        &&& i32::MIN <= self.z * CHUNK_SIZE
        &&& self.z * CHUNK_SIZE + CHUNK_SIZE <= i32::MAX + 1
    }

    /// The chunk's first column.
    pub fn origin(&self) -> (o: (i32, i32))
        requires
            self.in_grid(),
        ensures
            o.0 == self.x * CHUNK_SIZE,
            o.1 == self.z * CHUNK_SIZE,
    {
        (self.x * CHUNK_SIZE, self.z * CHUNK_SIZE)
    }

    /// The chunk that holds the column `(px, pz)`.
    pub fn of_position(px: i32, pz: i32) -> (c: ChunkCoord)
        ensures
            c == containing(px as int, pz as int),
            c.in_grid(),
            c.x * CHUNK_SIZE <= px < c.x * CHUNK_SIZE + CHUNK_SIZE,
            c.z * CHUNK_SIZE <= pz < c.z * CHUNK_SIZE + CHUNK_SIZE,
    {
        ChunkCoord { x: floor_chunk(px), z: floor_chunk(pz) }
    }
}

} // verus!
