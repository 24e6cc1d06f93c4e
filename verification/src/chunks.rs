//! Coordinate-to-chunk math.
//!
//! The infinite plane is partitioned into square chunks of `CHUNK_SIZE`
//! cells per side. A cell coordinate is mapped to its owning chunk key by
//! floor division on each axis, which is correct for negative coordinates
//! as well (truncating division would not be).

use vstd::prelude::*;

verus! {

/// Cells per side of a chunk.
pub const CHUNK_SIZE: i64 = 64;

/// A chunk key: the pair of chunk indices that identifies one chunk.
pub type ChunkKey = (i64, i64);

/// Marker for one chunk of the plane, carrying its key.
#[derive(Clone, Copy, Debug, PartialEq, Eq, Hash)]
pub struct Chunk(pub ChunkKey);

/// The chunk index that a single cell coordinate falls in: floor division
/// by `CHUNK_SIZE`. (In specifications, `/` on `int` is Euclidean division,
/// which coincides with floor division for a positive divisor.)
pub open spec fn chunk_coord(v: int) -> int {
    v / (CHUNK_SIZE as int)
}

/// The chunk key that owns a cell.
pub open spec fn chunk_of(c: (int, int)) -> (int, int) {
    (chunk_coord(c.0), chunk_coord(c.1))
}

/// Maps a cell coordinate to the key of the chunk that owns it.
pub fn chunk_key(x: i64, y: i64) -> (r: ChunkKey)
    ensures
        r.0 == chunk_coord(x as int),
        r.1 == chunk_coord(y as int),
{
    (floor_div_chunk(x), floor_div_chunk(y))
}

/// Floor division of one coordinate by `CHUNK_SIZE`.
fn floor_div_chunk(v: i64) -> (r: i64)
    ensures
        r == chunk_coord(v as int),
{
    proof {
        lemma_chunk_coord_in_range(v as int);
    }
    match v.checked_div_euclid(CHUNK_SIZE) {
        Some(q) => q,
        None => {
            assert(false);
            0
        },
    }
}

/// The chunk index of an `i64` coordinate always fits in `i64`.
proof fn lemma_chunk_coord_in_range(v: int)
    requires
        i64::MIN <= v <= i64::MAX,
    ensures
        i64::MIN <= chunk_coord(v) <= i64::MAX,
{
    vstd::arithmetic::div_mod::lemma_div_is_ordered(i64::MIN as int, v, CHUNK_SIZE as int);
    vstd::arithmetic::div_mod::lemma_div_is_ordered(v, i64::MAX as int, CHUNK_SIZE as int);
    assert(i64::MIN as int / (CHUNK_SIZE as int) >= i64::MIN);
    assert(i64::MAX as int / (CHUNK_SIZE as int) <= i64::MAX);
}

} // verus!
