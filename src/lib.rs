//! Persistence layer of a voxel-world game server: the packed block address,
//! the versioned block codec, the block store, the world metadata and the
//! reconciling store of player accounts.

pub mod accounts;
pub mod address;
pub mod auth;
pub mod block_codec;
pub mod key_value;
pub mod map_store;
pub mod metadata;
pub mod reconcile;
mod sql;
pub mod statement;
pub mod text;
pub mod txt_auth;
pub mod types;
pub mod world;

pub use accounts::AuthSqlBackend;
pub use address::HashedCoordinate;
pub use block_codec::{deserialize_block_data, LightBank, MapBlock, MapBlock29, MapBlockData};
pub use key_value::KeyValue;
pub use map_store::SQLite3MapReader;
pub use metadata::{BackendType, World};
pub use reconcile::{AccountRow, AuthSqlBackendUser, SavePlan};
pub use types::{Area, CoordinateError, CoordinateFrame, SpatialCoordinate};
pub use world::{Block, WorldError};
