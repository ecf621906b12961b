use minecraft_world::key_value::KeyValue;
use minecraft_world::metadata::{BackendType, World};

#[test]
fn settings_from_metadata() {
    let text = "gameid = minetest\nenable_damage = true\ncreative_mode = true\nserver_announce = false\nbackend = sqlite3\nplayer_backend = leveldb\nauth_backend = redis\nmod_storage_backend = postgresql\nload_mod_worldedit = true\nload_mod_worldedit_gui = false\n";
    let world = World::from_metadata(&KeyValue::from(text));
    assert_eq!(world.game_id(), "minetest");
    assert_eq!(world.damage_enabled(), true);
    assert_eq!(world.creative(), true);
    assert_eq!(world.announcing(), false);
    assert_eq!(world.backend(), BackendType::SQLite3);
    assert_eq!(world.player_backend(), BackendType::LevelDB);
    assert_eq!(world.auth_backend(), BackendType::Redis);
    assert_eq!(world.mod_storage_backend(), BackendType::PostgreSQL);
    assert_eq!(world.mods(), &vec!["true".to_string(), "false".to_string()]);
    assert_eq!(world.mods().contains(&"worldedit_gui".to_string()), false);
}

#[test]
fn settings_defaults() {
    let world = World::from_metadata(&KeyValue::new());
    assert_eq!(world.game_id(), "minetest_game");
    assert!(world.damage_enabled());
    assert!(!world.creative());
    assert!(!world.announcing());
    assert_eq!(world.backend(), BackendType::Files);
    assert_eq!(world.auth_backend(), BackendType::Files);
    assert!(world.mods().is_empty());
}

#[test]
fn unknown_backend_is_files_and_damage_needs_true() {
    let world = World::from_metadata(&KeyValue::from("backend = dummy\nenable_damage = yes\n"));
    assert_eq!(world.backend(), BackendType::Files);
    assert!(!world.damage_enabled());
}
