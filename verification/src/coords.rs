//! Positions in block coordinates.

use vstd::prelude::*;
use crate::graphics::CardinalDirection;

verus! {

/// The size of a chunk, in blocks along each axis.
pub const CHUNK_SIZE: i64 = 16;

/// A position in block coordinates.
#[derive(Copy, Clone, Debug, PartialEq, Eq, Hash, Structural)]
pub struct BlockPosition(pub i64, pub i64, pub i64);

/// The coordinate of `x` within its chunk: the mathematical remainder of
/// `x` by the chunk size, always in `0 .. CHUNK_SIZE`.
pub open spec fn chunk_coord(x: int) -> int {
    x % (CHUNK_SIZE as int)
}

/// Euclidean remainder of a coordinate by the chunk size.
fn rem_chunk(x: i64) -> (r: i64)
    ensures
        r == chunk_coord(x as int),
        0 <= r < CHUNK_SIZE,
{
    let m = x % CHUNK_SIZE;
    if m < 0 {
        m + CHUNK_SIZE
    } else {
        m
    }
}

impl BlockPosition {
    /// Creates a new BlockPosition.
    pub fn new(x: i64, y: i64, z: i64) -> (r: Self)
        ensures
            r == BlockPosition(x, y, z),
    {
        BlockPosition(x, y, z)
    }

    /// Converts the block position to a tuple of i64 coordinates.
    pub fn to_tuple(&self) -> (r: (i64, i64, i64))
        ensures
            r == (self.0, self.1, self.2),
    {
        (self.0, self.1, self.2)
    }

    /// Wrap the block position within chunk bounds.
    pub fn chunk_normalize(&self) -> (r: Self)
        ensures
            r.0 == chunk_coord(self.0 as int),
            r.1 == chunk_coord(self.1 as int),
            r.2 == chunk_coord(self.2 as int),
            0 <= r.0 < CHUNK_SIZE && 0 <= r.1 < CHUNK_SIZE && 0 <= r.2 < CHUNK_SIZE,
    {
        BlockPosition(rem_chunk(self.0), rem_chunk(self.1), rem_chunk(self.2))
    }

    /// Subtracts the normalized chunk position from the original position,
    /// yielding the origin of the chunk this position lies in.
    pub fn chunk_reduce(&self) -> (r: Self)
        requires
            self.0 >= i64::MIN + CHUNK_SIZE,
            self.1 >= i64::MIN + CHUNK_SIZE,
            self.2 >= i64::MIN + CHUNK_SIZE,
        ensures
            r.0 == self.0 - chunk_coord(self.0 as int),
            r.1 == self.1 - chunk_coord(self.1 as int),
            r.2 == self.2 - chunk_coord(self.2 as int),
            chunk_coord(r.0 as int) == 0,
            chunk_coord(r.1 as int) == 0,
            chunk_coord(r.2 as int) == 0,
    {
        let n = self.chunk_normalize();
        let r = BlockPosition(self.0 - n.0, self.1 - n.1, self.2 - n.2);
        proof {
            lemma_reduce_aligned(self.0 as int);
            lemma_reduce_aligned(self.1 as int);
            lemma_reduce_aligned(self.2 as int);
        }
        r
    }

    /// Offsets the block position by one unit in the given cardinal
    /// direction.
    pub fn offset(&self, dir: CardinalDirection) -> (r: Self)
        requires
            i64::MIN < self.0 < i64::MAX,
            i64::MIN < self.1 < i64::MAX,
            i64::MIN < self.2 < i64::MAX,
        ensures
            r.0 == self.0 + dir.spec_normal().0,
            r.1 == self.1 + dir.spec_normal().1,
            r.2 == self.2 + dir.spec_normal().2,
    {
        let (dx, dy, dz) = dir.normal_i64();
        BlockPosition(self.0 + dx, self.1 + dy, self.2 + dz)
    }

    /// Applies the given inspector function to all components, returning
    /// true if all pass.
    pub fn all<F: Fn(i64) -> bool>(&self, inspector: F) -> (r: bool)
        requires
            call_requires(inspector, (self.0,)),
            call_requires(inspector, (self.1,)),
            call_requires(inspector, (self.2,)),
        ensures
            r ==> call_ensures(inspector, (self.0,), true) && call_ensures(
                inspector,
                (self.1,),
                true,
            ) && call_ensures(inspector, (self.2,), true),
            !r ==> call_ensures(inspector, (self.0,), false) || call_ensures(
                inspector,
                (self.1,),
                false,
            ) || call_ensures(inspector, (self.2,), false),
    {
        if !inspector(self.0) {
            return false;
        }
        if !inspector(self.1) {
            return false;
        }
        inspector(self.2)
    }
}

/// Subtracting a coordinate's chunk remainder lands on a chunk boundary.
proof fn lemma_reduce_aligned(x: int)
    ensures
        (x - x % (CHUNK_SIZE as int)) % (CHUNK_SIZE as int) == 0,
{
    let c = CHUNK_SIZE as int;
    vstd::arithmetic::div_mod::lemma_mod_multiples_vanish(x / c, x % c, c);
    vstd::arithmetic::div_mod::lemma_fundamental_div_mod(x, c);
    assert((x - x % c) == (x / c) * c);
    vstd::arithmetic::div_mod::lemma_mod_multiples_basic(x / c, c);
}

/// Convenience function to create a BlockPosition.
pub fn bp(x: i64, y: i64, z: i64) -> (r: BlockPosition)
    ensures
        r == BlockPosition(x, y, z),
{
    BlockPosition::new(x, y, z)
}

} // verus!
