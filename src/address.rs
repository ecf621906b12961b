use vstd::arithmetic::div_mod::lemma_fundamental_div_mod_converse;
use vstd::prelude::*;

use crate::types::{CoordinateError, SpatialCoordinate};

verus! {

/// The largest absolute value an axis may take.
pub const AXIS_LIMIT: i64 = 30920;

/// Whether `v` lies in the addressable range of one axis.
pub open spec fn axis_in_bounds(v: int) -> bool {
    -30920 <= v <= 30920
}

/// The packed address of a coordinate.
pub open spec fn pack(x: int, y: int, z: int) -> int {
    x * 16777216 + y * 4096 + z
}

/// The residue of `v` modulo 4096, moved into `[-2048, 2047]`.
pub open spec fn signed_low(v: int) -> int {
    if v % 4096 >= 2048 {
        v % 4096 - 4096
    } else {
        v % 4096
    }
}

/// `(v - signed_low(v)) / 4096`: what remains once the low field is taken off.
pub open spec fn carry(v: int) -> int {
    if v % 4096 >= 2048 {
        v / 4096 + 1
    } else {
        v / 4096
    }
}

pub open spec fn decode_z(v: int) -> int {
    signed_low(v)
}

pub open spec fn decode_y(v: int) -> int {
    signed_low(carry(v))
}

pub open spec fn decode_x(v: int) -> int {
    carry(carry(v))
}

/// The coordinate that a packed value stands for.
pub open spec fn spatial_of(v: int) -> SpatialCoordinate {
    SpatialCoordinate {
        x: decode_x(v) as i16 as i32,
        y: decode_y(v) as i32,
        z: decode_z(v) as i32,
    }
}

/// A block position packed into one signed 64-bit integer, the key of the
/// block table.
#[derive(Clone, Copy, Debug, PartialEq, Eq, Structural, Hash)]
pub struct HashedCoordinate {
    pub value: i64,
}

/// Splits `v` into its low field in `[-2048, 2047]` and the rest.
fn split_low(v: i64) -> (r: (i64, i64))
    ensures
        r.0 == signed_low(v as int),
        r.1 == carry(v as int),
        -2048 <= r.0 <= 2047,
{
    let q = match v.checked_div_euclid(4096) {
        Some(q) => q,
        None => 0,
    };
    let m = match v.checked_rem_euclid(4096) {
        Some(m) => m,
        None => 0,
    };
    assert(0 <= m < 4096);
    assert(q == v / 4096);
    assert(q <= i64::MAX / 4096);
    if m >= 2048 {
        (m - 4096, q + 1)
    } else {
        (m, q)
    }
}

impl HashedCoordinate {
    /// The address of `(x, y, z)`, or `OutOfBounds` when an axis lies outside
    /// `[-30920, 30920]`.
    pub fn at(x: i16, y: i16, z: i16) -> (r: Result<HashedCoordinate, CoordinateError>)
        ensures
            axis_in_bounds(x as int) && axis_in_bounds(y as int) && axis_in_bounds(z as int)
                ==> r == Ok::<HashedCoordinate, CoordinateError>(
                HashedCoordinate { value: pack(x as int, y as int, z as int) as i64 },
            ),
            !(axis_in_bounds(x as int) && axis_in_bounds(y as int) && axis_in_bounds(z as int))
                ==> r == Err::<HashedCoordinate, CoordinateError>(CoordinateError::OutOfBounds),
    {
        Self::pack_checked(x as i64, y as i64, z as i64)
    }

    /// The address of a world coordinate, or `OutOfBounds` when an axis lies
    /// outside `[-30920, 30920]`.
    pub fn from(coord: SpatialCoordinate) -> (r: Result<HashedCoordinate, CoordinateError>)
        ensures
            axis_in_bounds(coord.x as int) && axis_in_bounds(coord.y as int) && axis_in_bounds(
                coord.z as int,
            ) ==> r == Ok::<HashedCoordinate, CoordinateError>(
                HashedCoordinate {
                    value: pack(coord.x as int, coord.y as int, coord.z as int) as i64,
                },
            ),
            !(axis_in_bounds(coord.x as int) && axis_in_bounds(coord.y as int) && axis_in_bounds(
                coord.z as int,
            )) ==> r == Err::<HashedCoordinate, CoordinateError>(CoordinateError::OutOfBounds),
    {
        Self::pack_checked(coord.x as i64, coord.y as i64, coord.z as i64)
    }

    fn pack_checked(x: i64, y: i64, z: i64) -> (r: Result<HashedCoordinate, CoordinateError>)
        ensures
            axis_in_bounds(x as int) && axis_in_bounds(y as int) && axis_in_bounds(z as int)
                ==> r == Ok::<HashedCoordinate, CoordinateError>(
                HashedCoordinate { value: pack(x as int, y as int, z as int) as i64 },
            ),
            !(axis_in_bounds(x as int) && axis_in_bounds(y as int) && axis_in_bounds(z as int))
                ==> r == Err::<HashedCoordinate, CoordinateError>(CoordinateError::OutOfBounds),
    {
        if x < -AXIS_LIMIT || x > AXIS_LIMIT || y < -AXIS_LIMIT || y > AXIS_LIMIT || z
            < -AXIS_LIMIT || z > AXIS_LIMIT {
            return Err(CoordinateError::OutOfBounds);
        }
        assert(-30920 * 16777216 <= x * 16777216 <= 30920 * 16777216) by (nonlinear_arith)
            requires
                -30920 <= x <= 30920,
        ;
        Ok(HashedCoordinate { value: x * 16777216 + y * 4096 + z })
    }

    /// The first axis, recovered from the packed value (truncated to 16 bits).
    #[verifier::truncate]
    pub fn x(&self) -> (r: i16)
        ensures
            r == decode_x(self.value as int) as i16,
    {
        let (_, rest) = split_low(self.value);
        let (_, top) = split_low(rest);
        top as i16
    }

    /// The second axis, recovered from the packed value.
    pub fn y(&self) -> (r: i16)
        ensures
            r == decode_y(self.value as int),
    {
        let (_, rest) = split_low(self.value);
        let (mid, _) = split_low(rest);
        mid as i16
    }

    /// The third axis, recovered from the packed value.
    pub fn z(&self) -> (r: i16)
        ensures
            r == decode_z(self.value as int),
    {
        let (low, _) = split_low(self.value);
        low as i16
    }

    /// The coordinate that the packed value stands for.
    pub fn to_spatial(&self) -> (r: SpatialCoordinate)
        ensures
            r == spatial_of(self.value as int),
    {
        SpatialCoordinate { x: self.x() as i32, y: self.y() as i32, z: self.z() as i32 }
    }

    pub fn zero() -> (r: HashedCoordinate)
        ensures
            r.value == 0,
    {
        HashedCoordinate { value: 0 }
    }

    pub fn up() -> (r: HashedCoordinate)
        ensures
            r.value == pack(0, 1, 0),
    {
        HashedCoordinate { value: 4096 }
    }

    pub fn down() -> (r: HashedCoordinate)
        ensures
            r.value == pack(0, -1, 0),
    {
        HashedCoordinate { value: -4096 }
    }

    pub fn left() -> (r: HashedCoordinate)
        ensures
            r.value == pack(0, 0, -1),
    {
        HashedCoordinate { value: -1 }
    }

    pub fn right() -> (r: HashedCoordinate)
        ensures
            r.value == pack(0, 0, 1),
    {
        HashedCoordinate { value: 1 }
    }

    pub fn forward() -> (r: HashedCoordinate)
        ensures
            r.value == pack(1, 0, 0),
    {
        HashedCoordinate { value: 16777216 }
    }

    pub fn back() -> (r: HashedCoordinate)
        ensures
            r.value == pack(-1, 0, 0),
    {
        HashedCoordinate { value: -16777216 }
    }

    /// Wrapping sum of the packed values; not a move in space.
    pub fn add(self, other: HashedCoordinate) -> (r: HashedCoordinate)
        ensures
            r.value == vstd::wrapping::i64_specs::wrapping_add(self.value, other.value),
    {
        HashedCoordinate { value: self.value.wrapping_add(other.value) }
    }

    /// Wrapping difference of the packed values; not a move in space.
    pub fn sub(self, other: HashedCoordinate) -> (r: HashedCoordinate)
        ensures
            r.value == vstd::wrapping::i64_specs::wrapping_sub(self.value, other.value),
    {
        HashedCoordinate { value: self.value.wrapping_sub(other.value) }
    }
}

/// Decoding a packed coordinate gives back its axes, whenever the first axis
/// lies in `[-30920, 30920]` and the other two in `[-2048, 2047]`. Outside
/// that range the second and third fields of the packing overlap, and the
/// packing is not injective.
pub proof fn lemma_round_trip(x: int, y: int, z: int)
    requires
        axis_in_bounds(x),
        -2048 <= y <= 2047,
        -2048 <= z <= 2047,
    ensures
        decode_x(pack(x, y, z)) == x,
        decode_y(pack(x, y, z)) == y,
        decode_z(pack(x, y, z)) == z,
{
    let v = pack(x, y, z);
    let upper = x * 4096 + y;
    assert(v == upper * 4096 + z) by (nonlinear_arith)
        requires
            v == x * 16777216 + y * 4096 + z,
            upper == x * 4096 + y,
    ;
    if z >= 0 {
        lemma_fundamental_div_mod_converse(v, 4096, upper, z);
    } else {
        lemma_fundamental_div_mod_converse(v, 4096, upper - 1, z + 4096);
    }
    assert(carry(v) == upper);
    assert(signed_low(v) == z);
    if y >= 0 {
        lemma_fundamental_div_mod_converse(upper, 4096, x, y);
    } else {
        lemma_fundamental_div_mod_converse(upper, 4096, x - 1, y + 4096);
    }
}

/// The second and third decoded axes always lie in `[-2048, 2047]`: a
/// coordinate whose second or third axis lies outside that range never comes
/// back from a round trip.
pub proof fn lemma_decoded_fields_are_small(v: int)
    ensures
        -2048 <= decode_y(v) <= 2047,
        -2048 <= decode_z(v) <= 2047,
{
}

} // verus!
