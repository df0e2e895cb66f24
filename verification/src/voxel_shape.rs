//! Discrete voxel shapes: boolean occupancy grids used by the collision
//! code, and their boolean combination along merged coordinate axes.

use crate::bitset::BitSet;
use vstd::prelude::*;

verus! {

/// One of the three coordinate axes.
#[derive(Debug, Clone, Copy, PartialEq, Eq, Structural)]
pub enum Axis {
    X,
    Y,
    Z,
}

impl Axis {
    /// Pick the value that belongs to this axis.
    pub fn pick(&self, x: u32, y: u32, z: u32) -> (r: u32)
        ensures
            r == match self {
                Axis::X => x,
                Axis::Y => y,
                Axis::Z => z,
            },
    {
        match self {
            Axis::X => x,
            Axis::Y => y,
            Axis::Z => z,
        }
    }
}

/// A boolean combination of two occupancy values.
#[derive(Debug, Clone, Copy, PartialEq, Eq, Structural)]
pub enum BooleanOp {
    Or,
    And,
    OnlyFirst,
    NotSame,
}

impl BooleanOp {
    /// The combination applied.
    pub open spec fn spec_apply(&self, a: bool, b: bool) -> bool {
        match self {
            BooleanOp::Or => a || b,
            BooleanOp::And => a && b,
            BooleanOp::OnlyFirst => a && !b,
            BooleanOp::NotSame => a != b,
        }
    }

    /// The combination applied.
    pub fn apply(&self, a: bool, b: bool) -> (r: bool)
        ensures
            r == self.spec_apply(a, b),
    {
        match self {
            BooleanOp::Or => a || b,
            BooleanOp::And => a && b,
            BooleanOp::OnlyFirst => a && !b,
            BooleanOp::NotSame => a != b,
        }
    }
}

/// A three-dimensional boolean occupancy grid with cached filled bounds.
pub trait DiscreteVoxelShape {
    /// The shape's own invariant; its constructors establish it.
    spec fn inv(&self) -> bool;

    /// The grid extent along an axis.
    spec fn spec_size(&self, axis: Axis) -> nat;

    /// Whether the cell is filled; false outside the grid.
    spec fn spec_full_wide(&self, x: u32, y: u32, z: u32) -> bool;

    fn size(&self, axis: Axis) -> (r: u32)
        requires
            self.inv(),
        ensures
            r == self.spec_size(axis),
    ;

    /// Whether the cell is filled, any coordinates allowed.
    fn is_full_wide(&self, x: u32, y: u32, z: u32) -> (r: bool)
        requires
            self.inv(),
        ensures
            r == self.spec_full_wide(x, y, z),
    ;

    /// Whether the cell is filled.
    fn is_full(&self, x: u32, y: u32, z: u32) -> (r: bool)
        requires
            self.inv(),
            x < self.spec_size(Axis::X),
            y < self.spec_size(Axis::Y),
            z < self.spec_size(Axis::Z),
        ensures
            r == self.spec_full_wide(x, y, z),
    ;
}

/// A voxel shape over a bit set, with the filled bounding box kept
/// alongside.
#[derive(Debug, Clone)]
pub struct BitSetDiscreteVoxelShape {
    x_size: u32,
    y_size: u32,
    z_size: u32,
    storage: BitSet,
    x_min: i32,
    y_min: i32,
    z_min: i32,
    x_max: i32,
    y_max: i32,
    z_max: i32,
}

impl BitSetDiscreteVoxelShape {
    /// The bit index of a cell.
    pub open spec fn spec_index(&self, x: nat, y: nat, z: nat) -> nat {
        (x * self.spec_ysize() + y) * self.spec_zsize() + z
    }

    pub closed spec fn spec_xsize(&self) -> nat {
        self.x_size as nat
    }

    pub closed spec fn spec_ysize(&self) -> nat {
        self.y_size as nat
    }

    pub closed spec fn spec_zsize(&self) -> nat {
        self.z_size as nat
    }

    /// Whether the cell is filled.
    pub closed spec fn spec_cell(&self, x: nat, y: nat, z: nat) -> bool {
        self.storage.spec_bit(self.spec_index(x, y, z))
    }

    /// The sizes are small and the storage addresses every cell.
    pub closed spec fn wf(&self) -> bool {
        &&& 1 <= self.x_size <= 64
        &&& 1 <= self.y_size <= 64
        &&& 1 <= self.z_size <= 64
        &&& self.spec_xsize() * self.spec_ysize() * self.spec_zsize()
            <= self.storage.capacity()
    }

    /// An empty shape of the given extents, its cached bounds marking
    /// nothing filled.
    pub fn new(x_size: u32, y_size: u32, z_size: u32) -> (r: BitSetDiscreteVoxelShape)
        requires
            1 <= x_size <= 64,
            1 <= y_size <= 64,
            1 <= z_size <= 64,
        ensures
            r.wf(),
            r.spec_xsize() == x_size,
            r.spec_ysize() == y_size,
            r.spec_zsize() == z_size,
            forall|x: nat, y: nat, z: nat| !r.spec_cell(x, y, z),
            r.spec_x_min() == x_size && r.spec_y_min() == y_size && r.spec_z_min()
                == z_size,
            r.spec_x_max() == 0 && r.spec_y_max() == 0 && r.spec_z_max() == 0,
    {
        proof {
            lemma_cell_arith(0, 0, 0, x_size as nat, y_size as nat, z_size as nat);
        }
        let cells = x_size * y_size * z_size;
        let r = BitSetDiscreteVoxelShape {
            x_size,
            y_size,
            z_size,
            storage: BitSet::new(cells as usize),
            x_min: x_size as i32,
            y_min: y_size as i32,
            z_min: z_size as i32,
            x_max: 0,
            y_max: 0,
            z_max: 0,
        };
        proof {
            assert(r.storage.capacity() >= ((cells + 63) / 64) * 64 - 63);
            assert(((cells as nat + 63) / 64) * 64 >= cells) by (nonlinear_arith);
        }
        r
    }

    /// The bit index of a cell.
    fn get_index(&self, x: u32, y: u32, z: u32) -> (r: usize)
        requires
            self.wf(),
            x < self.spec_xsize(),
            y < self.spec_ysize(),
            z < self.spec_zsize(),
        ensures
            r == self.spec_index(x as nat, y as nat, z as nat),
            r < self.storage.capacity(),
    {
        proof {
            lemma_index_in_range(x as nat, y as nat, z as nat, self.spec_xsize(),
                self.spec_ysize(), self.spec_zsize());
            lemma_cell_arith(x as nat, y as nat, z as nat, self.spec_xsize(),
                self.spec_ysize(), self.spec_zsize());
        }
        ((x * self.y_size + y) * self.z_size + z) as usize
    }

    /// Fill one cell, widening the cached bounds when asked to.
    pub fn fill_update_bounds(&mut self, x: u32, y: u32, z: u32, update: bool)
        requires
            old(self).wf(),
            x < old(self).spec_xsize(),
            y < old(self).spec_ysize(),
            z < old(self).spec_zsize(),
        ensures
            final(self).wf(),
            final(self).spec_xsize() == old(self).spec_xsize(),
            final(self).spec_ysize() == old(self).spec_ysize(),
            final(self).spec_zsize() == old(self).spec_zsize(),
            forall|a: nat, b: nat, c: nat| a < old(self).spec_xsize() && b < old(
                self).spec_ysize() && c < old(self).spec_zsize()
                ==> final(self).spec_cell(a, b, c) == ((a == x && b == y && c == z)
                || old(self).spec_cell(a, b, c)),
            !update ==> final(self).spec_x_min() == old(self).spec_x_min()
                && final(self).spec_y_min() == old(self).spec_y_min()
                && final(self).spec_z_min() == old(self).spec_z_min()
                && final(self).spec_x_max() == old(self).spec_x_max()
                && final(self).spec_y_max() == old(self).spec_y_max()
                && final(self).spec_z_max() == old(self).spec_z_max(),
            update ==> final(self).spec_x_min() == (if old(self).spec_x_min() < x {
                old(self).spec_x_min()
            } else {
                x as int
            }) && final(self).spec_y_min() == (if old(self).spec_y_min() < y {
                old(self).spec_y_min()
            } else {
                y as int
            }) && final(self).spec_z_min() == (if old(self).spec_z_min() < z {
                old(self).spec_z_min()
            } else {
                z as int
            }) && final(self).spec_x_max() == (if old(self).spec_x_max() > x + 1 {
                old(self).spec_x_max()
            } else {
                x + 1
            }) && final(self).spec_y_max() == (if old(self).spec_y_max() > y + 1 {
                old(self).spec_y_max()
            } else {
                y + 1
            }) && final(self).spec_z_max() == (if old(self).spec_z_max() > z + 1 {
                old(self).spec_z_max()
            } else {
                z + 1
            }),
    {
        let index = self.get_index(x, y, z);
        self.storage.set(index);
        if update {
            self.x_min = if self.x_min < x as i32 {
                self.x_min
            } else {
                x as i32
            };
            self.y_min = if self.y_min < y as i32 {
                self.y_min
            } else {
                y as i32
            };
            self.z_min = if self.z_min < z as i32 {
                self.z_min
            } else {
                z as i32
            };
            self.x_max = if self.x_max > (x + 1) as i32 {
                self.x_max
            } else {
                (x + 1) as i32
            };
            self.y_max = if self.y_max > (y + 1) as i32 {
                self.y_max
            } else {
                (y + 1) as i32
            };
            self.z_max = if self.z_max > (z + 1) as i32 {
                self.z_max
            } else {
                (z + 1) as i32
            };
        }
        proof {
            lemma_cells_after_set(old(self), self, x as nat, y as nat, z as nat);
        }
    }

    /// Fill one cell and widen the cached bounds to cover it.
    pub fn fill(&mut self, x: u32, y: u32, z: u32)
        requires
            old(self).wf(),
            x < old(self).spec_xsize(),
            y < old(self).spec_ysize(),
            z < old(self).spec_zsize(),
        ensures
            final(self).wf(),
            final(self).spec_xsize() == old(self).spec_xsize(),
            final(self).spec_ysize() == old(self).spec_ysize(),
            final(self).spec_zsize() == old(self).spec_zsize(),
            forall|a: nat, b: nat, c: nat| a < old(self).spec_xsize() && b < old(
                self).spec_ysize() && c < old(self).spec_zsize()
                ==> final(self).spec_cell(a, b, c) == ((a == x && b == y && c == z)
                || old(self).spec_cell(a, b, c)),
            final(self).spec_x_min() == (if old(self).spec_x_min() < x {
                old(self).spec_x_min()
            } else {
                x as int
            }),
            final(self).spec_y_min() == (if old(self).spec_y_min() < y {
                old(self).spec_y_min()
            } else {
                y as int
            }),
            final(self).spec_z_min() == (if old(self).spec_z_min() < z {
                old(self).spec_z_min()
            } else {
                z as int
            }),
            final(self).spec_x_max() == (if old(self).spec_x_max() > x + 1 {
                old(self).spec_x_max()
            } else {
                x + 1
            }),
            final(self).spec_y_max() == (if old(self).spec_y_max() > y + 1 {
                old(self).spec_y_max()
            } else {
                y + 1
            }),
            final(self).spec_z_max() == (if old(self).spec_z_max() > z + 1 {
                old(self).spec_z_max()
            } else {
                z + 1
            }),
    {
        self.fill_update_bounds(x, y, z, true);
    }

    /// A shape of the given extents with exactly the box
    /// `[x_min, x_max) x [y_min, y_max) x [z_min, z_max)` filled.
    pub fn with_filled_bounds(
        x_size: u32,
        y_size: u32,
        z_size: u32,
        x_min: u32,
        y_min: u32,
        z_min: u32,
        x_max: u32,
        y_max: u32,
        z_max: u32,
    ) -> (r: BitSetDiscreteVoxelShape)
        requires
            1 <= x_size <= 64,
            1 <= y_size <= 64,
            1 <= z_size <= 64,
            x_min <= x_max <= x_size,
            y_min <= y_max <= y_size,
            z_min <= z_max <= z_size,
        ensures
            r.wf(),
            r.spec_xsize() == x_size,
            r.spec_ysize() == y_size,
            r.spec_zsize() == z_size,
            forall|a: nat, b: nat, c: nat| a < x_size && b < y_size && c < z_size
                ==> r.spec_cell(a, b, c) == (x_min <= a < x_max && y_min <= b < y_max
                && z_min <= c < z_max),
            r.spec_x_min() == x_min && r.spec_y_min() == y_min && r.spec_z_min() == z_min,
            r.spec_x_max() == x_max && r.spec_y_max() == y_max && r.spec_z_max() == z_max,
    {
        let mut shape = BitSetDiscreteVoxelShape::new(x_size, y_size, z_size);
        let ghost fresh = shape;
        shape.x_min = x_min as i32;
        shape.y_min = y_min as i32;
        shape.z_min = z_min as i32;
        shape.x_max = x_max as i32;
        shape.y_max = y_max as i32;
        shape.z_max = z_max as i32;
        proof {
            assert forall|a: nat, b: nat, c: nat| !shape.spec_cell(a, b, c) by {
                assert(!fresh.spec_cell(a, b, c));
            }
        }

        let mut x = x_min;
        while x < x_max
            invariant
                x_min <= x <= x_max,
                shape.wf(),
                shape.spec_xsize() == x_size && shape.spec_ysize() == y_size
                    && shape.spec_zsize() == z_size,
                x_min <= x_max <= x_size && y_min <= y_max <= y_size && z_min <= z_max
                    <= z_size,
                shape.spec_x_min() == x_min && shape.spec_y_min() == y_min
                    && shape.spec_z_min() == z_min && shape.spec_x_max() == x_max
                    && shape.spec_y_max() == y_max && shape.spec_z_max() == z_max,
                forall|a: nat, b: nat, c: nat| a < x_size && b < y_size && c < z_size
                    ==> shape.spec_cell(a, b, c) == (x_min <= a < x && y_min <= b < y_max
                    && z_min <= c < z_max),
            decreases x_max - x,
        {
            let mut y = y_min;
            while y < y_max
                invariant
                    x_min <= x < x_max,
                    y_min <= y <= y_max,
                    shape.wf(),
                    shape.spec_xsize() == x_size && shape.spec_ysize() == y_size
                        && shape.spec_zsize() == z_size,
                    x_min <= x_max <= x_size && y_min <= y_max <= y_size && z_min
                        <= z_max <= z_size,
                    shape.spec_x_min() == x_min && shape.spec_y_min() == y_min
                        && shape.spec_z_min() == z_min && shape.spec_x_max() == x_max
                        && shape.spec_y_max() == y_max && shape.spec_z_max() == z_max,
                    forall|a: nat, b: nat, c: nat| a < x_size && b < y_size && c < z_size
                        ==> shape.spec_cell(a, b, c) == ((x_min <= a < x && y_min <= b
                        < y_max && z_min <= c < z_max) || (a == x && y_min <= b < y
                        && z_min <= c < z_max)),
                decreases y_max - y,
            {
                let mut z = z_min;
                while z < z_max
                    invariant
                        x_min <= x < x_max,
                        y_min <= y < y_max,
                        z_min <= z <= z_max,
                        shape.wf(),
                        shape.spec_xsize() == x_size && shape.spec_ysize() == y_size
                            && shape.spec_zsize() == z_size,
                        x_min <= x_max <= x_size && y_min <= y_max <= y_size && z_min
                            <= z_max <= z_size,
                        shape.spec_x_min() == x_min && shape.spec_y_min() == y_min
                            && shape.spec_z_min() == z_min && shape.spec_x_max() == x_max
                            && shape.spec_y_max() == y_max && shape.spec_z_max() == z_max,
                        forall|a: nat, b: nat, c: nat| a < x_size && b < y_size && c
                            < z_size ==> shape.spec_cell(a, b, c) == ((x_min <= a < x
                            && y_min <= b < y_max && z_min <= c < z_max) || (a == x
                            && y_min <= b < y && z_min <= c < z_max) || (a == x && b == y
                            && z_min <= c < z)),
                    decreases z_max - z,
                {
                    shape.fill_update_bounds(x, y, z, false);
                    z = z + 1;
                }
                y = y + 1;
            }
            x = x + 1;
        }
        shape
    }
}

impl DiscreteVoxelShape for BitSetDiscreteVoxelShape {
    closed spec fn inv(&self) -> bool {
        self.wf()
    }

    closed spec fn spec_size(&self, axis: Axis) -> nat {
        match axis {
            Axis::X => self.spec_xsize(),
            Axis::Y => self.spec_ysize(),
            Axis::Z => self.spec_zsize(),
        }
    }

    closed spec fn spec_full_wide(&self, x: u32, y: u32, z: u32) -> bool {
        x < self.spec_xsize() && y < self.spec_ysize() && z < self.spec_zsize()
            && self.spec_cell(x as nat, y as nat, z as nat)
    }

    fn size(&self, axis: Axis) -> (r: u32) {
        axis.pick(self.x_size, self.y_size, self.z_size)
    }

    fn is_full_wide(&self, x: u32, y: u32, z: u32) -> (r: bool) {
        (x < self.size(Axis::X) && y < self.size(Axis::Y) && z < self.size(Axis::Z))
            && self.is_full(x, y, z)
    }

    fn is_full(&self, x: u32, y: u32, z: u32) -> (r: bool) {
        let index = self.get_index(x, y, z);
        self.storage.index(index)
    }
}

impl BitSetDiscreteVoxelShape {
    /// The cached lower bound of the filled box along x.
    pub closed spec fn spec_x_min(&self) -> int {
        self.x_min as int
    }

    /// The cached lower bound of the filled box along y.
    pub closed spec fn spec_y_min(&self) -> int {
        self.y_min as int
    }

    /// The cached lower bound of the filled box along z.
    pub closed spec fn spec_z_min(&self) -> int {
        self.z_min as int
    }

    /// The cached upper bound of the filled box along x.
    pub closed spec fn spec_x_max(&self) -> int {
        self.x_max as int
    }

    /// The cached upper bound of the filled box along y.
    pub closed spec fn spec_y_max(&self) -> int {
        self.y_max as int
    }

    /// The cached upper bound of the filled box along z.
    pub closed spec fn spec_z_max(&self) -> int {
        self.z_max as int
    }

    pub fn first_full_x(&self) -> (r: u32)
        requires
            0 <= self.spec_x_min() <= u32::MAX,
        ensures
            r == self.spec_x_min(),
    {
        self.x_min as u32
    }

    pub fn first_full_y(&self) -> (r: u32)
        requires
            0 <= self.spec_y_min() <= u32::MAX,
        ensures
            r == self.spec_y_min(),
    {
        self.y_min as u32
    }

    pub fn first_full_z(&self) -> (r: u32)
        requires
            0 <= self.spec_z_min() <= u32::MAX,
        ensures
            r == self.spec_z_min(),
    {
        self.z_min as u32
    }

    pub fn last_full_x(&self) -> (r: u32)
        requires
            0 <= self.spec_x_max() <= u32::MAX,
        ensures
            r == self.spec_x_max(),
    {
        self.x_max as u32
    }

    pub fn last_full_y(&self) -> (r: u32)
        requires
            0 <= self.spec_y_max() <= u32::MAX,
        ensures
            r == self.spec_y_max(),
    {
        self.y_max as u32
    }

    pub fn last_full_z(&self) -> (r: u32)
        requires
            0 <= self.spec_z_max() <= u32::MAX,
        ensures
            r == self.spec_z_max(),
    {
        self.z_max as u32
    }

    /// Whether the cached bounds mark nothing filled. As in the collision
    /// code this follows, the x extent is tested twice and the z extent
    /// not at all.
    pub fn is_empty(&self) -> (r: bool)
        ensures
            r == (self.spec_x_min() >= self.spec_x_max() || self.spec_y_min()
                >= self.spec_y_max()),
    {
        if self.x_min >= self.x_max {
            return true;
        }
        if self.y_min >= self.y_max {
            return true;
        }
        if self.x_min >= self.x_max {
            return true;
        }
        false
    }
}

/// The intermediate index arithmetic of a small grid never overflows.
proof fn lemma_cell_arith(x: nat, y: nat, z: nat, xs: nat, ys: nat, zs: nat)
    requires
        x < xs || (x == 0 && y == 0 && z == 0),
        y < ys || (x == 0 && y == 0 && z == 0),
        z < zs || (x == 0 && y == 0 && z == 0),
        1 <= xs <= 64,
        1 <= ys <= 64,
        1 <= zs <= 64,
    ensures
        x * ys + y < 4096,
        (x * ys + y) * zs + z < 262144,
        xs * ys <= 4096,
        xs * ys * zs <= 262144,
{
    assert(x * ys + y < 4096 && (x * ys + y) * zs + z < 262144 && xs * ys <= 4096
        && xs * ys * zs <= 262144) by (nonlinear_arith)
        requires
            x < xs || (x == 0 && y == 0 && z == 0),
            y < ys || (x == 0 && y == 0 && z == 0),
            z < zs || (x == 0 && y == 0 && z == 0),
            1 <= xs <= 64,
            1 <= ys <= 64,
            1 <= zs <= 64;
}

/// A cell's bit index lies within the grid's bit count, and distinct
/// cells get distinct bits.
proof fn lemma_index_in_range(x: nat, y: nat, z: nat, xs: nat, ys: nat, zs: nat)
    requires
        x < xs,
        y < ys,
        z < zs,
        1 <= xs,
        1 <= ys,
        1 <= zs,
    ensures
        (x * ys + y) * zs + z < xs * ys * zs,
{
    assert((x * ys + y) * zs + z < xs * ys * zs) by (nonlinear_arith)
        requires x < xs, y < ys, z < zs, 1 <= xs, 1 <= ys, 1 <= zs;
}

/// Cell indexing is injective within the grid.
proof fn lemma_index_unique(a1: nat, b1: nat, c1: nat, a2: nat, b2: nat, c2: nat, ys: nat,
    zs: nat)
    requires
        b1 < ys,
        b2 < ys,
        c1 < zs,
        c2 < zs,
        (a1 * ys + b1) * zs + c1 == (a2 * ys + b2) * zs + c2,
    ensures
        a1 == a2 && b1 == b2 && c1 == c2,
{
    assert(a1 == a2 && b1 == b2 && c1 == c2) by (nonlinear_arith)
        requires
            b1 < ys,
            b2 < ys,
            c1 < zs,
            c2 < zs,
            (a1 * ys + b1) * zs + c1 == (a2 * ys + b2) * zs + c2;
}

/// After setting one cell's bit, exactly that cell turned full.
proof fn lemma_cells_after_set(
    pre: &BitSetDiscreteVoxelShape,
    post: &BitSetDiscreteVoxelShape,
    x: nat,
    y: nat,
    z: nat,
)
    requires
        pre.wf(),
        post.wf(),
        x < pre.spec_xsize(),
        y < pre.spec_ysize(),
        z < pre.spec_zsize(),
        post.spec_xsize() == pre.spec_xsize(),
        post.spec_ysize() == pre.spec_ysize(),
        post.spec_zsize() == pre.spec_zsize(),
        post.storage.capacity() == pre.storage.capacity(),
        forall|i: nat| i < pre.storage.capacity() ==> post.storage.spec_bit(i) == (i
            == pre.spec_index(x, y, z) || pre.storage.spec_bit(i)),
    ensures
        forall|a: nat, b: nat, c: nat| a < pre.spec_xsize() && b < pre.spec_ysize() && c
            < pre.spec_zsize() ==> post.spec_cell(a, b, c) == ((a == x && b == y && c == z)
            || pre.spec_cell(a, b, c)),
{
    assert forall|a: nat, b: nat, c: nat| a < pre.spec_xsize() && b < pre.spec_ysize()
        && c < pre.spec_zsize() implies post.spec_cell(a, b, c) == ((a == x && b == y && c
        == z) || pre.spec_cell(a, b, c)) by {
        lemma_index_in_range(a, b, c, pre.spec_xsize(), pre.spec_ysize(), pre.spec_zsize());
        lemma_index_in_range(x, y, z, pre.spec_xsize(), pre.spec_ysize(), pre.spec_zsize());
        if pre.spec_index(a, b, c) == pre.spec_index(x, y, z) {
            lemma_index_unique(a, b, c, x, y, z, pre.spec_ysize(), pre.spec_zsize());
        }
    }
}

/// Whether any cell of the x-plane `i` is filled.
pub open spec fn spec_x_plane_any(shape: BitSetDiscreteVoxelShape, i: nat) -> bool {
    exists|j: nat, k: nat| j < shape.spec_ysize() && k < shape.spec_zsize()
        && #[trigger] shape.spec_cell(i, j, k)
}

/// Whether any cell of the y-plane `j` is filled.
pub open spec fn spec_y_plane_any(shape: BitSetDiscreteVoxelShape, j: nat) -> bool {
    exists|i: nat, k: nat| i < shape.spec_xsize() && k < shape.spec_zsize()
        && #[trigger] shape.spec_cell(i, j, k)
}

/// Whether any cell of the z-plane `k` is filled.
pub open spec fn spec_z_plane_any(shape: BitSetDiscreteVoxelShape, k: nat) -> bool {
    exists|i: nat, j: nat| i < shape.spec_xsize() && j < shape.spec_ysize()
        && #[trigger] shape.spec_cell(i, j, k)
}

/// Whether any cell at all is filled.
pub open spec fn spec_any_filled(shape: BitSetDiscreteVoxelShape) -> bool {
    exists|i: nat| i < shape.spec_xsize() && #[trigger] spec_x_plane_any(shape, i)
}

/// The cached bounds are the tight bounding box of the filled cells:
/// each first bound is the first plane of its axis with a filled cell and
/// each last bound one past the last such plane; with nothing filled they
/// hold the sentinel values the combination algorithm leaves.
pub open spec fn spec_cached_bounds_tight(shape: BitSetDiscreteVoxelShape) -> bool {
    if spec_any_filled(shape) {
        &&& 0 <= shape.spec_x_min() < shape.spec_xsize()
        &&& spec_x_plane_any(shape, shape.spec_x_min() as nat)
        &&& forall|i: nat| i < shape.spec_x_min() ==> !spec_x_plane_any(shape, i)
        &&& shape.spec_x_min() < shape.spec_x_max() <= shape.spec_xsize()
        &&& spec_x_plane_any(shape, (shape.spec_x_max() - 1) as nat)
        &&& forall|i: nat| shape.spec_x_max() <= i < shape.spec_xsize()
            ==> !spec_x_plane_any(shape, i)
        &&& 0 <= shape.spec_y_min() < shape.spec_ysize()
        &&& spec_y_plane_any(shape, shape.spec_y_min() as nat)
        &&& forall|j: nat| j < shape.spec_y_min() ==> !spec_y_plane_any(shape, j)
        &&& shape.spec_y_min() < shape.spec_y_max() <= shape.spec_ysize()
        &&& spec_y_plane_any(shape, (shape.spec_y_max() - 1) as nat)
        &&& forall|j: nat| shape.spec_y_max() <= j < shape.spec_ysize()
            ==> !spec_y_plane_any(shape, j)
        &&& 0 <= shape.spec_z_min() < shape.spec_zsize()
        &&& spec_z_plane_any(shape, shape.spec_z_min() as nat)
        &&& forall|k: nat| k < shape.spec_z_min() ==> !spec_z_plane_any(shape, k)
        &&& shape.spec_z_min() < shape.spec_z_max() <= shape.spec_zsize()
        &&& spec_z_plane_any(shape, (shape.spec_z_max() - 1) as nat)
        &&& forall|k: nat| shape.spec_z_max() <= k < shape.spec_zsize()
            ==> !spec_z_plane_any(shape, k)
    } else {
        &&& shape.spec_x_min() == 2147483647 && shape.spec_y_min() == 2147483647
            && shape.spec_z_min() == 2147483647
        &&& shape.spec_x_max() == -2147483647 && shape.spec_y_max() == -2147483647
            && shape.spec_z_max() == -2147483647
    }
}

impl BitSetDiscreteVoxelShape {
    /// Whether any cell of the x-plane `i` is filled.
    fn x_plane_any(&self, i: u32) -> (r: bool)
        requires
            self.wf(),
            i < self.spec_xsize(),
        ensures
            r == spec_x_plane_any(*self, i as nat),
    {
        let mut j: u32 = 0;
        while j < self.y_size
            invariant
                self.wf(),
                i < self.spec_xsize(),
                j <= self.spec_ysize(),
                forall|j2: nat, k2: nat| j2 < j && k2 < self.spec_zsize()
                    ==> !(#[trigger] self.spec_cell(i as nat, j2, k2)),
            decreases self.spec_ysize() - j,
        {
            let mut k: u32 = 0;
            while k < self.z_size
                invariant
                    self.wf(),
                    i < self.spec_xsize(),
                    j < self.spec_ysize(),
                    k <= self.spec_zsize(),
                    forall|j2: nat, k2: nat| j2 < j && k2 < self.spec_zsize()
                        ==> !(#[trigger] self.spec_cell(i as nat, j2, k2)),
                    forall|k2: nat| k2 < k ==> !(#[trigger] self.spec_cell(i as nat,
                        j as nat, k2)),
                decreases self.spec_zsize() - k,
            {
                let index = self.get_index(i, j, k);
                if self.storage.index(index) {
                    proof {
                        assert(self.spec_cell(i as nat, j as nat, k as nat));
                    }
                    return true;
                }
                k = k + 1;
            }
            j = j + 1;
        }
        false
    }

    /// Whether any cell of the y-plane `j` is filled.
    fn y_plane_any(&self, j: u32) -> (r: bool)
        requires
            self.wf(),
            j < self.spec_ysize(),
        ensures
            r == spec_y_plane_any(*self, j as nat),
    {
        let mut i: u32 = 0;
        while i < self.x_size
            invariant
                self.wf(),
                j < self.spec_ysize(),
                i <= self.spec_xsize(),
                forall|i2: nat, k2: nat| i2 < i && k2 < self.spec_zsize()
                    ==> !(#[trigger] self.spec_cell(i2, j as nat, k2)),
            decreases self.spec_xsize() - i,
        {
            let mut k: u32 = 0;
            while k < self.z_size
                invariant
                    self.wf(),
                    j < self.spec_ysize(),
                    i < self.spec_xsize(),
                    k <= self.spec_zsize(),
                    forall|i2: nat, k2: nat| i2 < i && k2 < self.spec_zsize()
                        ==> !(#[trigger] self.spec_cell(i2, j as nat, k2)),
                    forall|k2: nat| k2 < k ==> !(#[trigger] self.spec_cell(i as nat,
                        j as nat, k2)),
                decreases self.spec_zsize() - k,
            {
                let index = self.get_index(i, j, k);
                if self.storage.index(index) {
                    proof {
                        assert(self.spec_cell(i as nat, j as nat, k as nat));
                    }
                    return true;
                }
                k = k + 1;
            }
            i = i + 1;
        }
        false
    }

    /// Whether any cell of the z-plane `k` is filled.
    fn z_plane_any(&self, k: u32) -> (r: bool)
        requires
            self.wf(),
            k < self.spec_zsize(),
        ensures
            r == spec_z_plane_any(*self, k as nat),
    {
        let mut i: u32 = 0;
        while i < self.x_size
            invariant
                self.wf(),
                k < self.spec_zsize(),
                i <= self.spec_xsize(),
                forall|i2: nat, j2: nat| i2 < i && j2 < self.spec_ysize()
                    ==> !(#[trigger] self.spec_cell(i2, j2, k as nat)),
            decreases self.spec_xsize() - i,
        {
            let mut j: u32 = 0;
            while j < self.y_size
                invariant
                    self.wf(),
                    k < self.spec_zsize(),
                    i < self.spec_xsize(),
                    j <= self.spec_ysize(),
                    forall|i2: nat, j2: nat| i2 < i && j2 < self.spec_ysize()
                        ==> !(#[trigger] self.spec_cell(i2, j2, k as nat)),
                    forall|j2: nat| j2 < j ==> !(#[trigger] self.spec_cell(i as nat, j2,
                        k as nat)),
                decreases self.spec_ysize() - j,
            {
                let index = self.get_index(i, j, k);
                if self.storage.index(index) {
                    proof {
                        assert(self.spec_cell(i as nat, j as nat, k as nat));
                    }
                    return true;
                }
                j = j + 1;
            }
            i = i + 1;
        }
        false
    }

    /// Recompute the cached bounds as the tight bounding box of the
    /// filled cells, or the empty sentinels.
    fn recompute_bounds(&mut self)
        requires
            old(self).wf(),
        ensures
            final(self).wf(),
            final(self).spec_xsize() == old(self).spec_xsize(),
            final(self).spec_ysize() == old(self).spec_ysize(),
            final(self).spec_zsize() == old(self).spec_zsize(),
            forall|i: nat, j: nat, k: nat| final(self).spec_cell(i, j, k)
                == old(self).spec_cell(i, j, k),
            spec_cached_bounds_tight(*final(self)),
    {
        // find the first filled x-plane; with none, nothing is filled
        let mut first_x: u32 = 0;
        let mut found = false;
        let mut i: u32 = 0;
        while i < self.x_size
            invariant_except_break
                *self == *old(self),
                self.wf(),
                i <= self.spec_xsize(),
                !found,
                forall|i2: nat| i2 < i ==> !spec_x_plane_any(*self, i2),
            ensures
                *self == *old(self),
                self.wf(),
                found ==> first_x < self.spec_xsize() && spec_x_plane_any(*self,
                    first_x as nat) && (forall|i2: nat| i2 < first_x
                    ==> !spec_x_plane_any(*self, i2)),
                !found ==> forall|i2: nat| i2 < self.spec_xsize()
                    ==> !spec_x_plane_any(*self, i2),
            decreases self.spec_xsize() - i,
        {
            if self.x_plane_any(i) {
                first_x = i;
                found = true;
                break;
            }
            i = i + 1;
        }
        if !found {
            let ghost scanned = *self;
            self.x_min = 2147483647;
            self.y_min = 2147483647;
            self.z_min = 2147483647;
            self.x_max = -2147483647;
            self.y_max = -2147483647;
            self.z_max = -2147483647;
            proof {
                assert forall|i2: nat, j2: nat, k2: nat| self.spec_cell(i2, j2, k2)
                    == scanned.spec_cell(i2, j2, k2) by {}
                lemma_same_cells_same_planes(scanned, *self);
                assert(!spec_any_filled(scanned)) by {
                    if spec_any_filled(scanned) {
                        let i0 = choose|i0: nat| i0 < scanned.spec_xsize()
                            && #[trigger] spec_x_plane_any(scanned, i0);
                        assert(!spec_x_plane_any(scanned, i0));
                    }
                }
            }
            return;
        }

        // the last filled x-plane exists at or after the first
        let mut last_x: u32 = first_x;
        let mut i: u32 = self.x_size;
        while i > first_x
            invariant_except_break
                *self == *old(self),
                self.wf(),
                first_x <= i <= self.spec_xsize(),
                first_x < self.spec_xsize(),
                spec_x_plane_any(*self, first_x as nat),
                forall|i2: nat| i <= i2 < self.spec_xsize() ==> !spec_x_plane_any(*self,
                    i2),
            ensures
                *self == *old(self),
                first_x <= last_x < self.spec_xsize(),
                spec_x_plane_any(*self, last_x as nat),
                forall|i2: nat| last_x < i2 < self.spec_xsize()
                    ==> !spec_x_plane_any(*self, i2),
            decreases i,
        {
            i = i - 1;
            if self.x_plane_any(i) {
                last_x = i;
                break;
            }
            proof {
                if i == first_x {
                    assert(false);
                }
            }
        }

        // a filled cell of the first x-plane witnesses the y and z scans
        let ghost (wj, wk) = choose|j: nat, k: nat| j < self.spec_ysize() && k
            < self.spec_zsize() && #[trigger] self.spec_cell(first_x as nat, j, k);

        let mut first_y: u32 = 0;
        let mut j: u32 = 0;
        loop
            invariant_except_break
                *self == *old(self),
                self.wf(),
                j < self.spec_ysize(),
                wj < self.spec_ysize() && wk < self.spec_zsize() && self.spec_cell(
                    first_x as nat, wj, wk),
                first_x < self.spec_xsize(),
                forall|j2: nat| j2 < j ==> !spec_y_plane_any(*self, j2),
            ensures
                *self == *old(self),
                first_y < self.spec_ysize(),
                spec_y_plane_any(*self, first_y as nat),
                forall|j2: nat| j2 < first_y ==> !spec_y_plane_any(*self, j2),
            decreases self.spec_ysize() - j,
        {
            if self.y_plane_any(j) {
                first_y = j;
                break;
            }
            proof {
                if j + 1 >= self.spec_ysize() {
                    assert(spec_y_plane_any(*self, wj));
                    assert(false);
                }
            }
            j = j + 1;
        }

        let mut last_y: u32 = first_y;
        let mut j: u32 = self.y_size;
        while j > first_y
            invariant_except_break
                *self == *old(self),
                self.wf(),
                first_y <= j <= self.spec_ysize(),
                first_y < self.spec_ysize(),
                spec_y_plane_any(*self, first_y as nat),
                forall|j2: nat| j <= j2 < self.spec_ysize() ==> !spec_y_plane_any(*self,
                    j2),
            ensures
                *self == *old(self),
                first_y <= last_y < self.spec_ysize(),
                spec_y_plane_any(*self, last_y as nat),
                forall|j2: nat| last_y < j2 < self.spec_ysize()
                    ==> !spec_y_plane_any(*self, j2),
            decreases j,
        {
            j = j - 1;
            if self.y_plane_any(j) {
                last_y = j;
                break;
            }
            proof {
                if j == first_y {
                    assert(false);
                }
            }
        }

        let mut first_z: u32 = 0;
        let mut k: u32 = 0;
        loop
            invariant_except_break
                *self == *old(self),
                self.wf(),
                k < self.spec_zsize(),
                wj < self.spec_ysize() && wk < self.spec_zsize() && self.spec_cell(
                    first_x as nat, wj, wk),
                first_x < self.spec_xsize(),
                forall|k2: nat| k2 < k ==> !spec_z_plane_any(*self, k2),
            ensures
                *self == *old(self),
                first_z < self.spec_zsize(),
                spec_z_plane_any(*self, first_z as nat),
                forall|k2: nat| k2 < first_z ==> !spec_z_plane_any(*self, k2),
            decreases self.spec_zsize() - k,
        {
            if self.z_plane_any(k) {
                first_z = k;
                break;
            }
            proof {
                if k + 1 >= self.spec_zsize() {
                    assert(spec_z_plane_any(*self, wk));
                    assert(false);
                }
            }
            k = k + 1;
        }

        let mut last_z: u32 = first_z;
        let mut k: u32 = self.z_size;
        while k > first_z
            invariant_except_break
                *self == *old(self),
                self.wf(),
                first_z <= k <= self.spec_zsize(),
                first_z < self.spec_zsize(),
                spec_z_plane_any(*self, first_z as nat),
                forall|k2: nat| k <= k2 < self.spec_zsize() ==> !spec_z_plane_any(*self,
                    k2),
            ensures
                *self == *old(self),
                first_z <= last_z < self.spec_zsize(),
                spec_z_plane_any(*self, last_z as nat),
                forall|k2: nat| last_z < k2 < self.spec_zsize()
                    ==> !spec_z_plane_any(*self, k2),
            decreases k,
        {
            k = k - 1;
            if self.z_plane_any(k) {
                last_z = k;
                break;
            }
            proof {
                if k == first_z {
                    assert(false);
                }
            }
        }

        let ghost scanned = *self;
        self.x_min = first_x as i32;
        self.y_min = first_y as i32;
        self.z_min = first_z as i32;
        self.x_max = (last_x + 1) as i32;
        self.y_max = (last_y + 1) as i32;
        self.z_max = (last_z + 1) as i32;
        proof {
            assert forall|i2: nat, j2: nat, k2: nat| self.spec_cell(i2, j2, k2)
                == scanned.spec_cell(i2, j2, k2) by {}
            lemma_same_cells_same_planes(scanned, *self);
            assert(spec_any_filled(*self)) by {
                assert(self.spec_cell(first_x as nat, wj, wk));
                assert(spec_x_plane_any(*self, first_x as nat));
            }
        }
    }
}

/// Shapes with the same sizes and cells agree on every plane test.
proof fn lemma_same_cells_same_planes(a: BitSetDiscreteVoxelShape, b: BitSetDiscreteVoxelShape)
    requires
        a.spec_xsize() == b.spec_xsize(),
        a.spec_ysize() == b.spec_ysize(),
        a.spec_zsize() == b.spec_zsize(),
        forall|i: nat, j: nat, k: nat| a.spec_cell(i, j, k) == b.spec_cell(i, j, k),
    ensures
        forall|i: nat| #![trigger spec_x_plane_any(a, i)] #![trigger spec_x_plane_any(
            b, i)] spec_x_plane_any(a, i) == spec_x_plane_any(b, i),
        forall|j: nat| #![trigger spec_y_plane_any(a, j)] #![trigger spec_y_plane_any(
            b, j)] spec_y_plane_any(a, j) == spec_y_plane_any(b, j),
        forall|k: nat| #![trigger spec_z_plane_any(a, k)] #![trigger spec_z_plane_any(
            b, k)] spec_z_plane_any(a, k) == spec_z_plane_any(b, k),
        spec_any_filled(a) == spec_any_filled(b),
{
    assert forall|i: nat| #[trigger] spec_x_plane_any(a, i) == spec_x_plane_any(b, i) by {
        if spec_x_plane_any(a, i) {
            let (j, k) = choose|j: nat, k: nat| j < a.spec_ysize() && k < a.spec_zsize()
                && #[trigger] a.spec_cell(i, j, k);
            assert(b.spec_cell(i, j, k));
        }
        if spec_x_plane_any(b, i) {
            let (j, k) = choose|j: nat, k: nat| j < b.spec_ysize() && k < b.spec_zsize()
                && #[trigger] b.spec_cell(i, j, k);
            assert(a.spec_cell(i, j, k));
        }
    }
    assert forall|j: nat| #[trigger] spec_y_plane_any(a, j) == spec_y_plane_any(b, j) by {
        if spec_y_plane_any(a, j) {
            let (i, k) = choose|i: nat, k: nat| i < a.spec_xsize() && k < a.spec_zsize()
                && #[trigger] a.spec_cell(i, j, k);
            assert(b.spec_cell(i, j, k));
        }
        if spec_y_plane_any(b, j) {
            let (i, k) = choose|i: nat, k: nat| i < b.spec_xsize() && k < b.spec_zsize()
                && #[trigger] b.spec_cell(i, j, k);
            assert(a.spec_cell(i, j, k));
        }
    }
    assert forall|k: nat| #[trigger] spec_z_plane_any(a, k) == spec_z_plane_any(b, k) by {
        if spec_z_plane_any(a, k) {
            let (i, j) = choose|i: nat, j: nat| i < a.spec_xsize() && j < a.spec_ysize()
                && #[trigger] a.spec_cell(i, j, k);
            assert(b.spec_cell(i, j, k));
        }
        if spec_z_plane_any(b, k) {
            let (i, j) = choose|i: nat, j: nat| i < b.spec_xsize() && j < b.spec_ysize()
                && #[trigger] b.spec_cell(i, j, k);
            assert(a.spec_cell(i, j, k));
        }
    }
    assert(spec_any_filled(a) == spec_any_filled(b)) by {
        if spec_any_filled(a) {
            let i = choose|i: nat| i < a.spec_xsize() && #[trigger] spec_x_plane_any(a, i);
            assert(spec_x_plane_any(b, i));
        }
        if spec_any_filled(b) {
            let i = choose|i: nat| i < b.spec_xsize() && #[trigger] spec_x_plane_any(b, i);
            assert(spec_x_plane_any(a, i));
        }
    }
}

/// The distinct coordinates of two merged axes:/// The distinct coordinates of two merged axes: for each output index,
/// which input coordinate of the first and the second shape it reads.
/// Output indices run in order.
pub struct IndexMerger {
    pub pairs: Vec<(u32, u32)>,
}

impl IndexMerger {
    /// A merger is well formed when it has at least one output.
    pub open spec fn wf(&self) -> bool {
        1 <= self.pairs.len() <= 64
    }

    /// A merger of two identical axes of `n` coordinates.
    pub fn identical(n: u32) -> (r: IndexMerger)
        requires
            1 <= n <= 64,
        ensures
            r.wf(),
            r.pairs@.len() == n,
            forall|i: int| 0 <= i < n ==> (#[trigger] r.pairs@[i]) == (i as u32, i as u32),
    {
        let mut pairs: Vec<(u32, u32)> = Vec::new();
        let mut i: u32 = 0;
        while i < n
            invariant
                i <= n,
                pairs@.len() == i,
                forall|k: int| 0 <= k < i ==> (#[trigger] pairs@[k]) == (k as u32,
                    k as u32),
            decreases n - i,
        {
            pairs.push((i, i));
            i = i + 1;
        }
        IndexMerger { pairs }
    }
}

impl BitSetDiscreteVoxelShape {
    /// The boolean combination of two shapes along merged axes: cell
    /// `(i, j, k)` of the result is `op` applied to the two shapes read at
    /// the merged input coordinates. The cached bounds of the result are
    /// tracked while the cells are combined; the contract speaks of the
    /// cells.
    pub fn join<S1: DiscreteVoxelShape, S2: DiscreteVoxelShape>(
        a: &S1,
        b: &S2,
        merger_x: &IndexMerger,
        merger_y: &IndexMerger,
        merger_z: &IndexMerger,
        op: BooleanOp,
    ) -> (r: BitSetDiscreteVoxelShape)
        requires
            a.inv(),
            b.inv(),
            merger_x.wf(),
            merger_y.wf(),
            merger_z.wf(),
        ensures
            r.wf(),
            r.spec_xsize() == merger_x.pairs@.len(),
            r.spec_ysize() == merger_y.pairs@.len(),
            r.spec_zsize() == merger_z.pairs@.len(),
            forall|i: nat, j: nat, k: nat| i < merger_x.pairs@.len() && j
                < merger_y.pairs@.len() && k < merger_z.pairs@.len()
                ==> r.spec_cell(i, j, k) == op.spec_apply(
                a.spec_full_wide(merger_x.pairs@[i as int].0, merger_y.pairs@[j as int].0,
                    merger_z.pairs@[k as int].0),
                b.spec_full_wide(merger_x.pairs@[i as int].1, merger_y.pairs@[j as int].1,
                    merger_z.pairs@[k as int].1)),
            spec_cached_bounds_tight(r),
    {
        let nx = merger_x.pairs.len() as u32;
        let ny = merger_y.pairs.len() as u32;
        let nz = merger_z.pairs.len() as u32;
        let mut result = BitSetDiscreteVoxelShape::new(nx, ny, nz);

        let ghost cell_of = |i: nat, j: nat, k: nat| op.spec_apply(
            a.spec_full_wide(merger_x.pairs@[i as int].0, merger_y.pairs@[j as int].0,
                merger_z.pairs@[k as int].0),
            b.spec_full_wide(merger_x.pairs@[i as int].1, merger_y.pairs@[j as int].1,
                merger_z.pairs@[k as int].1),
        );

        let mut i: u32 = 0;
        while i < nx
            invariant
                i <= nx,
                nx == merger_x.pairs@.len() && ny == merger_y.pairs@.len() && nz
                    == merger_z.pairs@.len(),
                1 <= nx <= 64 && 1 <= ny <= 64 && 1 <= nz <= 64,
                a.inv() && b.inv(),
                result.wf(),
                result.spec_xsize() == nx && result.spec_ysize() == ny
                    && result.spec_zsize() == nz,
                cell_of == (|i: nat, j: nat, k: nat| op.spec_apply(
                    a.spec_full_wide(merger_x.pairs@[i as int].0,
                        merger_y.pairs@[j as int].0, merger_z.pairs@[k as int].0),
                    b.spec_full_wide(merger_x.pairs@[i as int].1,
                        merger_y.pairs@[j as int].1, merger_z.pairs@[k as int].1),
                )),
                forall|ai: nat, aj: nat, ak: nat| ai < nx && aj < ny && ak < nz
                    ==> result.spec_cell(ai, aj, ak) == (ai < i && cell_of(ai, aj, ak)),
            decreases nx - i,
        {
            let mut j: u32 = 0;
            while j < ny
                invariant
                    i < nx,
                    j <= ny,
                    nx == merger_x.pairs@.len() && ny == merger_y.pairs@.len() && nz
                        == merger_z.pairs@.len(),
                    1 <= nx <= 64 && 1 <= ny <= 64 && 1 <= nz <= 64,
                    a.inv() && b.inv(),
                        result.wf(),
                    result.spec_xsize() == nx && result.spec_ysize() == ny
                        && result.spec_zsize() == nz,
                    cell_of == (|i: nat, j: nat, k: nat| op.spec_apply(
                        a.spec_full_wide(merger_x.pairs@[i as int].0,
                            merger_y.pairs@[j as int].0, merger_z.pairs@[k as int].0),
                        b.spec_full_wide(merger_x.pairs@[i as int].1,
                            merger_y.pairs@[j as int].1, merger_z.pairs@[k as int].1),
                    )),
                    forall|ai: nat, aj: nat, ak: nat| ai < nx && aj < ny && ak < nz
                        ==> result.spec_cell(ai, aj, ak) == ((ai < i || (ai == i && aj
                        < j)) && cell_of(ai, aj, ak)),
                decreases ny - j,
            {
                let mut k: u32 = 0;
                while k < nz
                    invariant
                        i < nx,
                        j < ny,
                        k <= nz,
                        nx == merger_x.pairs@.len() && ny == merger_y.pairs@.len() && nz
                            == merger_z.pairs@.len(),
                        1 <= nx <= 64 && 1 <= ny <= 64 && 1 <= nz <= 64,
                        a.inv() && b.inv(),
                                result.wf(),
                        result.spec_xsize() == nx && result.spec_ysize() == ny
                            && result.spec_zsize() == nz,
                        cell_of == (|i: nat, j: nat, k: nat| op.spec_apply(
                            a.spec_full_wide(merger_x.pairs@[i as int].0,
                                merger_y.pairs@[j as int].0, merger_z.pairs@[k as int].0),
                            b.spec_full_wide(merger_x.pairs@[i as int].1,
                                merger_y.pairs@[j as int].1, merger_z.pairs@[k as int].1),
                        )),
                        forall|ai: nat, aj: nat, ak: nat| ai < nx && aj < ny && ak < nz
                            ==> result.spec_cell(ai, aj, ak) == ((ai < i || (ai == i
                            && aj < j) || (ai == i && aj == j && ak < k)) && cell_of(ai,
                            aj, ak)),
                    decreases nz - k,
                {
                    let x_pair = merger_x.pairs[i as usize];
                    let y_pair = merger_y.pairs[j as usize];
                    let z_pair = merger_z.pairs[k as usize];
                    let first = a.is_full_wide(x_pair.0, y_pair.0, z_pair.0);
                    let second = b.is_full_wide(x_pair.1, y_pair.1, z_pair.1);
                    if op.apply(first, second) {
                        result.fill_update_bounds(i, j, k, false);
                    }
                    k = k + 1;
                }
                j = j + 1;
            }
            i = i + 1;
        }
        let ghost done = result;
        result.recompute_bounds();
        proof {
            assert forall|i: nat, j: nat, k: nat| i < merger_x.pairs@.len() && j
                < merger_y.pairs@.len() && k < merger_z.pairs@.len()
                implies result.spec_cell(i, j, k) == op.spec_apply(
                a.spec_full_wide(merger_x.pairs@[i as int].0, merger_y.pairs@[j as int].0,
                    merger_z.pairs@[k as int].0),
                b.spec_full_wide(merger_x.pairs@[i as int].1, merger_y.pairs@[j as int].1,
                    merger_z.pairs@[k as int].1)) by {
                assert(result.spec_cell(i, j, k) == done.spec_cell(i, j, k));
                assert(done.spec_cell(i, j, k) == cell_of(i, j, k));
            }
        }
        result
    }
}

} // verus!
