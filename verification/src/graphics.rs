//! Directions in the block grid.

use vstd::prelude::*;
use crate::coords::BlockPosition;

verus! {

/// Cardinal directions in 3D space.
#[derive(Copy, Clone, Debug, PartialEq, Eq, Structural)]
pub enum CardinalDirection {
    /// East direction (+X axis)
    East,
    /// West direction (-X axis)
    West,
    /// Up direction (+Y axis)
    Up,
    /// Down direction (-Y axis)
    Down,
    /// South direction (+Z axis)
    South,
    /// North direction (-Z axis)
    North,
}

impl CardinalDirection {
    /// The unit normal of this direction, as mathematical integers.
    pub open spec fn spec_normal(self) -> (int, int, int) {
        match self {
            CardinalDirection::North => (0, 0, -1),
            CardinalDirection::South => (0, 0, 1),
            CardinalDirection::East => (1, 0, 0),
            CardinalDirection::West => (-1, 0, 0),
            CardinalDirection::Up => (0, 1, 0),
            CardinalDirection::Down => (0, -1, 0),
        }
    }

    /// Returns the normal vector as i64 components.
    pub fn normal_i64(&self) -> (r: (i64, i64, i64))
        ensures
            (r.0 as int, r.1 as int, r.2 as int) == self.spec_normal(),
    {
        match self {
            CardinalDirection::North => (0, 0, -1),
            CardinalDirection::South => (0, 0, 1),
            CardinalDirection::East => (1, 0, 0),
            CardinalDirection::West => (-1, 0, 0),
            CardinalDirection::Up => (0, 1, 0),
            CardinalDirection::Down => (0, -1, 0),
        }
    }

    /// Offsets the given block position by one unit in this direction.
    pub fn offset_pos(&self, pos: BlockPosition) -> (r: BlockPosition)
        requires
            i64::MIN < pos.0 < i64::MAX,
            i64::MIN < pos.1 < i64::MAX,
            i64::MIN < pos.2 < i64::MAX,
        ensures
            r.0 == pos.0 + self.spec_normal().0,
            r.1 == pos.1 + self.spec_normal().1,
            r.2 == pos.2 + self.spec_normal().2,
    {
        let (dx, dy, dz) = self.normal_i64();
        BlockPosition(pos.0 + dx, pos.1 + dy, pos.2 + dz)
    }

    /// All six directions, in a fixed order.
    pub fn iter() -> (dirs: Vec<CardinalDirection>)
        ensures
            dirs@ =~= seq![
                CardinalDirection::North,
                CardinalDirection::South,
                CardinalDirection::East,
                CardinalDirection::West,
                CardinalDirection::Up,
                CardinalDirection::Down,
            ],
    {
        let mut dirs: Vec<CardinalDirection> = Vec::new();
        dirs.push(CardinalDirection::North);
        dirs.push(CardinalDirection::South);
        dirs.push(CardinalDirection::East);
        dirs.push(CardinalDirection::West);
        dirs.push(CardinalDirection::Up);
        dirs.push(CardinalDirection::Down);
        dirs
    }
}

} // verus!
