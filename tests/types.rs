use minecraft_world::types::{Area, SpatialCoordinate};

#[test]
fn area_contains_closed_box() {
    let area = Area { from: SpatialCoordinate::zero(), to: SpatialCoordinate { x: 10, y: 10, z: 10 } };
    assert!(area.contains(SpatialCoordinate { x: 5, y: 5, z: 5 }));
    assert!(area.contains(SpatialCoordinate { x: 10, y: 0, z: 10 }));
    assert!(!area.contains(SpatialCoordinate { x: 15, y: 15, z: 15 }));
}

#[test]
fn area_volume_and_offset() {
    let mut area = Area { from: SpatialCoordinate::zero(), to: SpatialCoordinate { x: 10, y: 10, z: 10 } };
    assert_eq!(area.volume(), 1000);
    area.offset(SpatialCoordinate { x: 1, y: -2, z: 3 });
    assert_eq!(area.from, SpatialCoordinate { x: 1, y: -2, z: 3 });
    assert_eq!(area.to, SpatialCoordinate { x: 11, y: 8, z: 13 });
    assert_eq!(Area::zero().volume(), 0);
}

#[test]
fn coordinate_arithmetic() {
    let a = SpatialCoordinate { x: 1, y: 2, z: 3 };
    assert_eq!(a.add(SpatialCoordinate::up()), SpatialCoordinate { x: 1, y: 3, z: 3 });
    assert_eq!(a.sub(SpatialCoordinate::back()), SpatialCoordinate { x: 1, y: 2, z: 4 });
}

#[test]
fn volume_with_a_flat_extent_is_zero() {
    let area = Area { from: SpatialCoordinate { x: i32::MIN, y: i32::MIN, z: 0 }, to: SpatialCoordinate { x: i32::MAX, y: i32::MAX, z: 0 } };
    assert_eq!(area.volume(), 0);
    let area = Area { from: SpatialCoordinate { x: -2, y: 0, z: 0 }, to: SpatialCoordinate { x: 1, y: 2, z: 5 } };
    assert_eq!(area.volume(), 30);
}
