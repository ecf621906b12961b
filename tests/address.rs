use minecraft_world::address::HashedCoordinate;
use minecraft_world::types::{CoordinateError, SpatialCoordinate};

#[test]
fn out_of_bounds() {
    let coord = HashedCoordinate::at(32500, 0, 0);
    assert!(coord.is_err());
}

#[test]
fn packing_formula() {
    let c = HashedCoordinate::at(1, 2, 3).unwrap();
    assert_eq!(c.value, 16777216 + 2 * 4096 + 3);
    let c = HashedCoordinate::at(-1, -2, -3).unwrap();
    assert_eq!(c.value, -16777216 - 2 * 4096 - 3);
}

#[test]
fn bounds_are_inclusive() {
    assert!(HashedCoordinate::at(30920, 30920, 30920).is_ok());
    assert!(HashedCoordinate::at(-30920, -30920, -30920).is_ok());
    assert_eq!(HashedCoordinate::at(30921, 0, 0), Err(CoordinateError::OutOfBounds));
    assert_eq!(HashedCoordinate::at(0, -30921, 0), Err(CoordinateError::OutOfBounds));
    assert_eq!(HashedCoordinate::at(0, 0, 30921), Err(CoordinateError::OutOfBounds));
}

#[test]
fn round_trip_in_decodable_range() {
    for &(x, y, z) in &[(0, 0, 0), (1, 2, 3), (-1, -2, -3), (30920, 2047, -2048), (-30920, -2048, 2047), (123, -7, 2000)] {
        let c = HashedCoordinate::at(x, y, z).unwrap();
        assert_eq!((c.x(), c.y(), c.z()), (x, y, z));
        assert_eq!(c.to_spatial(), SpatialCoordinate { x: x as i32, y: y as i32, z: z as i32 });
    }
}

#[test]
fn overlapping_fields_collide() {
    let a = HashedCoordinate::at(0, 0, 4096).unwrap();
    let b = HashedCoordinate::at(0, 1, 0).unwrap();
    assert_eq!(a, b);
}

#[test]
fn from_spatial_checks_bounds() {
    let ok = HashedCoordinate::from(SpatialCoordinate { x: 5, y: -6, z: 7 }).unwrap();
    assert_eq!(ok, HashedCoordinate::at(5, -6, 7).unwrap());
    assert_eq!(
        HashedCoordinate::from(SpatialCoordinate { x: 0, y: 0, z: 40000 }),
        Err(CoordinateError::OutOfBounds)
    );
}

#[test]
fn unit_steps() {
    assert_eq!(HashedCoordinate::up().y(), 1);
    assert_eq!(HashedCoordinate::down().y(), -1);
    assert_eq!(HashedCoordinate::left().z(), -1);
    assert_eq!(HashedCoordinate::right().z(), 1);
    assert_eq!(HashedCoordinate::forward().x(), 1);
    assert_eq!(HashedCoordinate::back().x(), -1);
    assert_eq!(HashedCoordinate::zero().value, 0);
}

#[test]
fn add_and_sub_wrap() {
    let max = HashedCoordinate { value: i64::MAX };
    let one = HashedCoordinate { value: 1 };
    assert_eq!(max.add(one).value, i64::MIN);
    assert_eq!(HashedCoordinate { value: i64::MIN }.sub(one).value, i64::MAX);
    assert_eq!(HashedCoordinate::at(1, 1, 1).unwrap().add(HashedCoordinate::up()), HashedCoordinate::at(1, 2, 1).unwrap());
}
