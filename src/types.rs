use vstd::prelude::*;

verus! {

/// The frame of reference in which a coordinate is read.
#[derive(Clone, Copy, Debug, PartialEq, Eq, Structural)]
pub enum CoordinateFrame {
    /// An absolute position in the world.
    World,
    /// A position relative to the origin of a partition.
    Relative,
    /// An index of a partition rather than a position.
    Index,
}

#[derive(Clone, Copy, Debug, PartialEq, Eq, Structural)]
pub enum CoordinateError {
    OutOfBounds,
    InvalidFrame,
}

/// A point in the world.
#[derive(Clone, Copy, Debug, PartialEq, Eq, Structural)]
pub struct SpatialCoordinate {
    pub x: i32,
    pub y: i32,
    pub z: i32,
}

/// Whether `a + b` fits on every axis.
pub open spec fn sum_fits(a: SpatialCoordinate, b: SpatialCoordinate) -> bool {
    &&& i32::MIN <= a.x + b.x <= i32::MAX
    &&& i32::MIN <= a.y + b.y <= i32::MAX
    &&& i32::MIN <= a.z + b.z <= i32::MAX
}

/// Whether `a - b` fits on every axis.
pub open spec fn difference_fits(a: SpatialCoordinate, b: SpatialCoordinate) -> bool {
    &&& i32::MIN <= a.x - b.x <= i32::MAX
    &&& i32::MIN <= a.y - b.y <= i32::MAX
    &&& i32::MIN <= a.z - b.z <= i32::MAX
}

impl SpatialCoordinate {
    pub fn x(&self) -> (r: i32)
        ensures
            r == self.x,
    {
        self.x
    }

    pub fn y(&self) -> (r: i32)
        ensures
            r == self.y,
    {
        self.y
    }

    pub fn z(&self) -> (r: i32)
        ensures
            r == self.z,
    {
        self.z
    }

    pub fn zero() -> (r: SpatialCoordinate)
        ensures
            r == (SpatialCoordinate { x: 0, y: 0, z: 0 }),
    {
        SpatialCoordinate { x: 0, y: 0, z: 0 }
    }

    pub fn up() -> (r: SpatialCoordinate)
        ensures
            r == (SpatialCoordinate { x: 0, y: 1, z: 0 }),
    {
        SpatialCoordinate { x: 0, y: 1, z: 0 }
    }

    pub fn down() -> (r: SpatialCoordinate)
        ensures
            r == (SpatialCoordinate { x: 0, y: -1i32, z: 0 }),
    {
        SpatialCoordinate { x: 0, y: -1, z: 0 }
    }

    pub fn left() -> (r: SpatialCoordinate)
        ensures
            r == (SpatialCoordinate { x: -1i32, y: 0, z: 0 }),
    {
        SpatialCoordinate { x: -1, y: 0, z: 0 }
    }

    pub fn right() -> (r: SpatialCoordinate)
        ensures
            r == (SpatialCoordinate { x: 1, y: 0, z: 0 }),
    {
        SpatialCoordinate { x: 1, y: 0, z: 0 }
    }

    pub fn forward() -> (r: SpatialCoordinate)
        ensures
            r == (SpatialCoordinate { x: 0, y: 0, z: 1 }),
    {
        SpatialCoordinate { x: 0, y: 0, z: 1 }
    }

    pub fn back() -> (r: SpatialCoordinate)
        ensures
            r == (SpatialCoordinate { x: 0, y: 0, z: -1i32 }),
    {
        SpatialCoordinate { x: 0, y: 0, z: -1 }
    }

    /// Axis-wise sum.
    pub fn add(self, other: SpatialCoordinate) -> (r: SpatialCoordinate)
        requires
            sum_fits(self, other),
        ensures
            r.x == self.x + other.x,
            r.y == self.y + other.y,
            r.z == self.z + other.z,
    {
        SpatialCoordinate { x: self.x + other.x, y: self.y + other.y, z: self.z + other.z }
    }

    /// Axis-wise difference.
    pub fn sub(self, other: SpatialCoordinate) -> (r: SpatialCoordinate)
        requires
            difference_fits(self, other),
        ensures
            r.x == self.x - other.x,
            r.y == self.y - other.y,
            r.z == self.z - other.z,
    {
        SpatialCoordinate { x: self.x - other.x, y: self.y - other.y, z: self.z - other.z }
    }
}

/// An axis-aligned box of the world, from one corner to the other.
#[derive(Clone, Copy, Debug, PartialEq, Eq, Structural)]
pub struct Area {
    pub from: SpatialCoordinate,
    pub to: SpatialCoordinate,
}

/// The volume of an area as the product of its extents.
pub open spec fn volume_of(a: Area) -> int {
    (a.to.x - a.from.x) * (a.to.y - a.from.y) * (a.to.z - a.from.z)
}

impl Area {
    /// An area with both corners at the origin.
    pub fn zero() -> (r: Area)
        ensures
            r.from == (SpatialCoordinate { x: 0, y: 0, z: 0 }),
            r.to == (SpatialCoordinate { x: 0, y: 0, z: 0 }),
    {
        Area { from: SpatialCoordinate::zero(), to: SpatialCoordinate::zero() }
    }

    /// Whether `coord` lies in the closed box between the corners.
    pub fn contains(&self, coord: SpatialCoordinate) -> (r: bool)
        ensures
            r == (self.from.x <= coord.x <= self.to.x && self.from.y <= coord.y <= self.to.y
                && self.from.z <= coord.z <= self.to.z),
    {
        coord.x >= self.from.x && coord.x <= self.to.x && coord.y >= self.from.y && coord.y
            <= self.to.y && coord.z >= self.from.z && coord.z <= self.to.z
    }

    /// Moves both corners by `coord`.
    pub fn offset(&mut self, coord: SpatialCoordinate)
        requires
            sum_fits(old(self).from, coord),
            sum_fits(old(self).to, coord),
        ensures
            final(self).from.x == old(self).from.x + coord.x,
            final(self).from.y == old(self).from.y + coord.y,
            final(self).from.z == old(self).from.z + coord.z,
            final(self).to.x == old(self).to.x + coord.x,
            final(self).to.y == old(self).to.y + coord.y,
            final(self).to.z == old(self).to.z + coord.z,
    {
        self.from = self.from.add(coord);
        self.to = self.to.add(coord);
    }

    /// The product of the three extents.
    pub fn volume(&self) -> (r: i32)
        requires
            i32::MIN <= volume_of(*self) <= i32::MAX,
        ensures
            r == volume_of(*self),
    {
        let dx = self.to.x as i128 - self.from.x as i128;
        let dy = self.to.y as i128 - self.from.y as i128;
        let dz = self.to.z as i128 - self.from.z as i128;
        assert(-0x1_0000_0000_0000_0000 <= dx * dy <= 0x1_0000_0000_0000_0000) by (nonlinear_arith)
            requires
                -0x1_0000_0000 <= dx <= 0x1_0000_0000,
                -0x1_0000_0000 <= dy <= 0x1_0000_0000,
        ;
        let a = dx * dy;
        assert(-0x1_0000_0000_0000_0000_0000_0000 <= a * dz <= 0x1_0000_0000_0000_0000_0000_0000)
            by (nonlinear_arith)
            requires
                -0x1_0000_0000_0000_0000 <= a <= 0x1_0000_0000_0000_0000,
                -0x1_0000_0000 <= dz <= 0x1_0000_0000,
        ;
        let v = a * dz;
        v as i32
    }
}

} // verus!
