use minecraft_world::map_store::{
    count_block_statement, create_blocks_statement, delete_block_statement, insert_block_statement,
    select_block_statement, select_positions_statement,
};
use minecraft_world::statement::SqlParam;
use minecraft_world::address::HashedCoordinate;
use minecraft_world::map_store::{block_from_rows, coordinates_of, counts_any, SQLite3MapReader};
use minecraft_world::types::SpatialCoordinate;
use minecraft_world::world::WorldError;

#[test]
fn open_simple() {
    let _manager = SQLite3MapReader::open_memory().unwrap();
}

#[test]
fn insert_block() {
    let mut manager = SQLite3MapReader::open_memory().unwrap();
    let coord = HashedCoordinate::at(0, 0, 0).unwrap();
    let data = vec![0, 1, 2, 3];
    manager.set_block(coord, &data).unwrap();

    let block = manager.get_block(coord).unwrap();
    assert!(block == data);
}

#[test]
fn remove_block() {
    let mut manager = SQLite3MapReader::open_memory().unwrap();
    let coord = HashedCoordinate::at(0, 0, 0).unwrap();
    let data = vec![0, 1, 2, 3];
    manager.set_block(coord, &data).unwrap();

    manager.remove_block(coord).unwrap();
    let block = manager.get_block(coord);
    assert!(block.is_err());
}

#[test]
fn block_exists() {
    let mut manager = SQLite3MapReader::open_memory().unwrap();
    let coord = HashedCoordinate::at(0, 0, 0).unwrap();
    assert!(!manager.block_exists(coord).unwrap());
    let data = vec![0, 1, 2, 3];
    manager.set_block(coord, &data).unwrap();

    let exists = manager.block_exists(coord).unwrap();
    assert!(exists);

    manager.remove_block(coord).unwrap();
    let exists = manager.block_exists(coord).unwrap();
    assert!(!exists);
}

#[test]
fn blocks() {
    let mut manager = SQLite3MapReader::open_memory().unwrap();
    let coord = HashedCoordinate::at(0, 0, 0).unwrap();
    let data = vec![0, 1, 2, 3];
    manager.set_block(coord, &data).unwrap();

    let coords = manager.blocks().unwrap();
    assert!(coords.len() == 1);
    assert!(coords[0] == coord);
}

#[test]
fn missing_block_names_its_coordinate() {
    let mut manager = SQLite3MapReader::open_memory().unwrap();
    let coord = HashedCoordinate::at(3, -4, 5).unwrap();
    assert_eq!(
        manager.get_block(coord),
        Err(WorldError::PartitionNotFound(SpatialCoordinate { x: 3, y: -4, z: 5 }))
    );
}

#[test]
fn put_get_delete_cycle() {
    let mut manager = SQLite3MapReader::open_memory().unwrap();
    let coord = HashedCoordinate::at(-7, 12, 2047).unwrap();
    let payload = vec![29u8, 9, 8, 7];
    manager.set_block(coord, &payload).unwrap();
    assert_eq!(manager.get_block(coord).unwrap(), payload);
    assert!(manager.block_exists(coord).unwrap());
    manager.remove_block(coord).unwrap();
    assert!(!manager.block_exists(coord).unwrap());
    assert!(matches!(manager.get_block(coord), Err(WorldError::PartitionNotFound(_))));
}

#[test]
fn enumerate_returns_each_address_once() {
    let mut manager = SQLite3MapReader::open_memory().unwrap();
    let mut expected = Vec::new();
    for i in 0..5i16 {
        let c = HashedCoordinate::at(i, -i, i * 3).unwrap();
        manager.set_block(c, &vec![i as u8]).unwrap();
        expected.push(c.value);
    }
    let mut got: Vec<i64> = manager.blocks().unwrap().iter().map(|c| c.value).collect();
    got.sort();
    expected.sort();
    assert_eq!(got, expected);
}

#[test]
fn duplicate_insert_is_a_database_error() {
    let mut manager = SQLite3MapReader::open_memory().unwrap();
    let coord = HashedCoordinate::zero();
    manager.set_block(coord, &vec![1]).unwrap();
    assert!(matches!(manager.set_block(coord, &vec![2]), Err(WorldError::DatabaseError(_))));
    assert_eq!(manager.get_block(coord).unwrap(), vec![1]);
}

#[test]
fn deleting_a_missing_block_is_fine() {
    let mut manager = SQLite3MapReader::open_memory().unwrap();
    assert!(manager.remove_block(HashedCoordinate::at(1, 1, 1).unwrap()).is_ok());
}

#[test]
fn pure_helpers() {
    assert!(counts_any(&vec![2]));
    assert!(!counts_any(&vec![0]));
    assert!(!counts_any(&vec![]));
    let cs = coordinates_of(&vec![4096, -1]);
    assert_eq!(cs, vec![HashedCoordinate::up(), HashedCoordinate::left()]);
    assert_eq!(block_from_rows(HashedCoordinate::up(), vec![vec![5], vec![6]]), Ok(vec![5]));
    assert_eq!(
        block_from_rows(HashedCoordinate::up(), vec![]),
        Err(WorldError::PartitionNotFound(SpatialCoordinate { x: 0, y: 1, z: 0 }))
    );
}

#[test]
fn open_file_in_missing_directory_fails() {
    let r = SQLite3MapReader::open_file("/nonexistent-dir-for-test/sub/map.sqlite");
    assert!(matches!(r, Err(WorldError::FileNotFound(_))));
}

#[test]
fn block_statements_carry_key_and_payload() {
    let c = HashedCoordinate::at(1, 2, 3).unwrap();
    let st = insert_block_statement(c, &vec![7, 8]);
    assert_eq!(st.sql, "INSERT INTO blocks (pos, data) VALUES (?, ?)");
    assert_eq!(st.params, vec![SqlParam::Int(c.value), SqlParam::Blob(vec![7, 8])]);
    let st = delete_block_statement(c);
    assert_eq!(st.sql, "DELETE FROM blocks WHERE pos = ?");
    assert_eq!(st.params, vec![SqlParam::Int(16777216 + 2 * 4096 + 3)]);
    assert_eq!(select_block_statement(c).sql, "SELECT data FROM blocks WHERE pos = ?");
    assert_eq!(count_block_statement(c).params, vec![SqlParam::Int(c.value)]);
    assert!(select_positions_statement().params.is_empty());
    assert!(create_blocks_statement().sql.starts_with("CREATE TABLE `blocks`"));
}
