//! Integer world coordinates: block positions, chunk positions, and the
//! four cardinal directions.

use crate::movement::FixedVec3;
use vstd::prelude::*;

verus! {

/// An addressable block cell of the world.
#[derive(Debug, Clone, Copy, PartialEq, Eq, Hash, Structural)]
pub struct BlockPos {
    pub x: i32,
    pub y: i32,
    pub z: i32,
}

impl BlockPos {
    pub fn new(x: i32, y: i32, z: i32) -> (r: BlockPos)
        ensures
            r == (BlockPos { x, y, z }),
    {
        BlockPos { x, y, z }
    }

    /// The position `n` blocks above this one.
    pub fn up(&self, n: i32) -> (r: BlockPos)
        requires
            i32::MIN <= self.y + n <= i32::MAX,
        ensures
            r == (BlockPos { x: self.x, y: (self.y + n) as i32, z: self.z }),
    {
        BlockPos { x: self.x, y: self.y + n, z: self.z }
    }

    /// The position `n` blocks below this one.
    pub fn down(&self, n: i32) -> (r: BlockPos)
        requires
            i32::MIN <= self.y - n <= i32::MAX,
        ensures
            r == (BlockPos { x: self.x, y: (self.y - n) as i32, z: self.z }),
    {
        BlockPos { x: self.x, y: self.y - n, z: self.z }
    }

    /// This position moved by `(dx, dy, dz)`.
    pub fn offset(&self, dx: i32, dy: i32, dz: i32) -> (r: BlockPos)
        requires
            i32::MIN <= self.x + dx <= i32::MAX,
            i32::MIN <= self.y + dy <= i32::MAX,
            i32::MIN <= self.z + dz <= i32::MAX,
        ensures
            r == (BlockPos {
                x: (self.x + dx) as i32,
                y: (self.y + dy) as i32,
                z: (self.z + dz) as i32,
            }),
    {
        BlockPos { x: self.x + dx, y: self.y + dy, z: self.z + dz }
    }

    /// The block that a fixed-point position falls in: each coordinate
    /// rounded down to a whole block.
    pub fn from_fixed(v: &FixedVec3) -> (r: BlockPos)
        requires
            -21474836480000i64 <= v.x <= 21474836479999i64,
            -21474836480000i64 <= v.y <= 21474836479999i64,
            -21474836480000i64 <= v.z <= 21474836479999i64,
        ensures
            r.x == v.x as int / 10000,
            r.y == v.y as int / 10000,
            r.z == v.z as int / 10000,
    {
        BlockPos {
            x: floor_div_scale(v.x) as i32,
            y: floor_div_scale(v.y) as i32,
            z: floor_div_scale(v.z) as i32,
        }
    }
}

/// `v` divided by the position scale, rounded towards minus infinity.
pub fn floor_div_scale(v: i64) -> (r: i64)
    requires
        -21474836480000i64 <= v <= 21474836479999i64,
    ensures
        r == v as int / 10000,
        -0x80000000i64 <= r <= 0x7fffffffi64,
{
    if v >= 0 {
        let q = ((v as u64) / 10000) as i64;
        proof {
            assert(v as int / 10000 == (v as u64) as int / 10000);
            assert((v as u64) as int / 10000 <= 0x7fffffff) by (nonlinear_arith)
                requires (v as u64) as int <= 21474836479999;
        }
        q
    } else {
        let m = (-v) as u64;
        let q = (m / 10000) as i64;
        let rem = (m % 10000) as i64;
        let r = if rem == 0 {
            -q
        } else {
            -q - 1
        };
        proof {
            lemma_neg_floor_div(v as int, m as int, q as int, rem as int);
            assert(m as int / 10000 <= 0x80000000) by (nonlinear_arith)
                requires m as int <= 21474836480000;
            if rem != 0 {
                assert(m as int / 10000 < 0x80000000) by (nonlinear_arith)
                    requires m as int <= 21474836480000, m as int % 10000 != 0;
            }
        }
        r
    }
}

/// Floor division of a negative value in terms of the division of its
/// magnitude.
proof fn lemma_neg_floor_div(v: int, m: int, q: int, rem: int)
    requires
        v < 0,
        m == -v,
        q == m / 10000,
        rem == m % 10000,
    ensures
        rem == 0 ==> v / 10000 == -q,
        rem != 0 ==> v / 10000 == -q - 1,
{
    assert(m == 10000 * q + rem && 0 <= rem < 10000) by (nonlinear_arith)
        requires q == m / 10000, rem == m % 10000, m >= 0;
    if rem == 0 {
        assert(v == 10000 * (-q));
        assert(v / 10000 == -q) by (nonlinear_arith)
            requires v == 10000 * (-q);
    } else {
        assert(v == 10000 * (-q - 1) + (10000 - rem));
        assert(v / 10000 == -q - 1) by (nonlinear_arith)
            requires v == 10000 * (-q - 1) + (10000 - rem), 0 < 10000 - rem < 10000;
    }
}

/// The chunk column that holds a block position.
#[derive(Debug, Clone, Copy, PartialEq, Eq, Hash, Structural)]
pub struct ChunkPos {
    pub x: i32,
    pub z: i32,
}

impl ChunkPos {
    pub fn new(x: i32, z: i32) -> (r: ChunkPos)
        ensures
            r == (ChunkPos { x, z }),
    {
        ChunkPos { x, z }
    }

    /// The chunk of a block position: block coordinates divided by sixteen,
    /// rounded down.
    pub fn from_block(pos: &BlockPos) -> (r: ChunkPos)
        ensures
            r == (ChunkPos { x: (pos.x >> 4u32) as i32, z: (pos.z >> 4u32) as i32 }),
    {
        ChunkPos { x: pos.x >> 4, z: pos.z >> 4 }
    }
}

/// The four horizontal directions.
#[derive(Debug, Clone, Copy, PartialEq, Eq, Structural)]
pub enum CardinalDirection {
    North,
    East,
    South,
    West,
}

impl CardinalDirection {
    /// The x component of a unit step in this direction.
    pub fn x(&self) -> (r: i32)
        ensures
            r == self.spec_x(),
    {
        match self {
            CardinalDirection::East => 1,
            CardinalDirection::West => -1,
            _ => 0,
        }
    }

    /// The z component of a unit step in this direction.
    pub fn z(&self) -> (r: i32)
        ensures
            r == self.spec_z(),
    {
        match self {
            CardinalDirection::South => 1,
            CardinalDirection::North => -1,
            _ => 0,
        }
    }

    pub open spec fn spec_x(&self) -> i32 {
        match self {
            CardinalDirection::East => 1i32,
            CardinalDirection::West => -1i32,
            _ => 0i32,
        }
    }

    pub open spec fn spec_z(&self) -> i32 {
        match self {
            CardinalDirection::South => 1i32,
            CardinalDirection::North => -1i32,
            _ => 0i32,
        }
    }

    /// The direction a quarter turn clockwise from this one.
    pub fn right(&self) -> (r: CardinalDirection)
        ensures
            r == match self {
                CardinalDirection::North => CardinalDirection::East,
                CardinalDirection::East => CardinalDirection::South,
                CardinalDirection::South => CardinalDirection::West,
                CardinalDirection::West => CardinalDirection::North,
            },
    {
        match self {
            CardinalDirection::North => CardinalDirection::East,
            CardinalDirection::East => CardinalDirection::South,
            CardinalDirection::South => CardinalDirection::West,
            CardinalDirection::West => CardinalDirection::North,
        }
    }
}

} // verus!
