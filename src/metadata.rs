//! World settings, read from the entries of the world's metadata file.
use vstd::prelude::*;
use vstd::string::*;

use crate::key_value::{lookup, prefixed_values, KeyValue};
use crate::text::{same_text, texts};

verus! {

/// A storage engine that a part of the world may be kept in.
#[derive(Debug, Clone, Copy, PartialEq, Eq, Structural)]
pub enum BackendType {
    SQLite3,
    LevelDB,
    Redis,
    PostgreSQL,
    /// Plain files; the default.
    Files,
}

/// The engine that a setting's value names; anything else means files.
pub open spec fn backend_named(s: Seq<char>) -> BackendType {
    if s == "sqlite3"@ {
        BackendType::SQLite3
    } else if s == "leveldb"@ {
        BackendType::LevelDB
    } else if s == "redis"@ {
        BackendType::Redis
    } else if s == "postgresql"@ {
        BackendType::PostgreSQL
    } else {
        BackendType::Files
    }
}

/// The value of setting `key`, or `default` when no entry has that key.
pub open spec fn setting(
    entries: Seq<(Seq<char>, Seq<char>)>,
    key: Seq<char>,
    default: Seq<char>,
) -> Seq<char> {
    match lookup(entries, key) {
        Some(v) => v,
        None => default,
    }
}

/// The settings of a world.
pub struct World {
    pub game_id: String,
    pub enable_damage: bool,
    pub enable_creative: bool,
    pub backend: BackendType,
    pub player_backend: BackendType,
    pub auth_backend: BackendType,
    pub mod_storage_backend: BackendType,
    /// The values of the `load_mod_*` entries, in order.
    pub mods: Vec<String>,
    pub server_announce: bool,
}

fn setting_value(meta: &KeyValue, key: &str, default: &str) -> (r: String)
    ensures
        r@ == setting(meta@, key@, default@),
{
    match meta.get(key) {
        Some(v) => v,
        None => String::from_str(default),
    }
}

fn backend_type(name: &str) -> (r: BackendType)
    ensures
        r == backend_named(name@),
{
    if same_text(name, "sqlite3") {
        BackendType::SQLite3
    } else if same_text(name, "leveldb") {
        BackendType::LevelDB
    } else if same_text(name, "redis") {
        BackendType::Redis
    } else if same_text(name, "postgresql") {
        BackendType::PostgreSQL
    } else {
        BackendType::Files
    }
}

impl World {
    /// The settings that the entries of a metadata file give. A missing
    /// `gameid` is `minetest_game`; damage is on unless `enable_damage` is
    /// other than `true`; creative mode and announcing are off unless
    /// `creative_mode` and `server_announce` are `true`; each backend is
    /// files unless its setting names another engine.
    pub fn from_metadata(meta: &KeyValue) -> (r: World)
        ensures
            r.game_id@ == setting(meta@, "gameid"@, "minetest_game"@),
            r.enable_damage == (setting(meta@, "enable_damage"@, "true"@) == "true"@),
            r.enable_creative == (setting(meta@, "creative_mode"@, "false"@) == "true"@),
            r.server_announce == (setting(meta@, "server_announce"@, "false"@) == "true"@),
            texts(r.mods@) == prefixed_values(meta@, "load_mod_"@),
            r.backend == backend_named(setting(meta@, "backend"@, "files"@)),
            r.player_backend == backend_named(setting(meta@, "player_backend"@, "files"@)),
            r.auth_backend == backend_named(setting(meta@, "auth_backend"@, "files"@)),
            r.mod_storage_backend == backend_named(
                setting(meta@, "mod_storage_backend"@, "files"@),
            ),
    {
        let game_id = setting_value(meta, "gameid", "minetest_game");
        let damage = setting_value(meta, "enable_damage", "true");
        let creative = setting_value(meta, "creative_mode", "false");
        let announce = setting_value(meta, "server_announce", "false");
        let backend = setting_value(meta, "backend", "files");
        let player_backend = setting_value(meta, "player_backend", "files");
        let auth_backend = setting_value(meta, "auth_backend", "files");
        let mod_storage_backend = setting_value(meta, "mod_storage_backend", "files");
        World {
            game_id,
            enable_damage: same_text(damage.as_str(), "true"),
            enable_creative: same_text(creative.as_str(), "true"),
            backend: backend_type(backend.as_str()),
            player_backend: backend_type(player_backend.as_str()),
            auth_backend: backend_type(auth_backend.as_str()),
            mod_storage_backend: backend_type(mod_storage_backend.as_str()),
            mods: meta.values_with_prefix("load_mod_"),
            server_announce: same_text(announce.as_str(), "true"),
        }
    }

    pub fn game_id(&self) -> (r: &str)
        ensures
            r@ == self.game_id@,
    {
        self.game_id.as_str()
    }

    pub fn damage_enabled(&self) -> (r: bool)
        ensures
            r == self.enable_damage,
    {
        self.enable_damage
    }

    pub fn creative(&self) -> (r: bool)
        ensures
            r == self.enable_creative,
    {
        self.enable_creative
    }

    pub fn announcing(&self) -> (r: bool)
        ensures
            r == self.server_announce,
    {
        self.server_announce
    }

    pub fn backend(&self) -> (r: BackendType)
        ensures
            r == self.backend,
    {
        self.backend
    }

    pub fn player_backend(&self) -> (r: BackendType)
        ensures
            r == self.player_backend,
    {
        self.player_backend
    }

    pub fn auth_backend(&self) -> (r: BackendType)
        ensures
            r == self.auth_backend,
    {
        self.auth_backend
    }

    pub fn mod_storage_backend(&self) -> (r: BackendType)
        ensures
            r == self.mod_storage_backend,
    {
        self.mod_storage_backend
    }

    pub fn mods(&self) -> (r: &Vec<String>)
        ensures
            r@ == self.mods@,
    {
        &self.mods
    }
}

} // verus!
