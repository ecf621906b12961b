use vstd::prelude::*;

use crate::types::SpatialCoordinate;

verus! {

/// The failures of the world's stores and codecs.
#[derive(Clone, Debug, PartialEq, Eq)]
pub enum WorldError {
    /// No account carries this id.
    IdNotFound(i32),
    /// No account carries this name.
    NameNotFound(String),
    /// The storage could not be opened.
    FileNotFound(String),
    /// A coordinate outside the addressable range.
    OutOfBounds(SpatialCoordinate),
    /// No block is stored at this coordinate.
    PartitionNotFound(SpatialCoordinate),
    /// A payload too short or malformed to decode.
    CorruptData(String),
    /// A payload whose leading version byte has no decoder.
    UnsupportedVersion(u8),
    /// A statement failed in the storage engine.
    DatabaseError(String),
    UnknownError(String),
}

/// The unit a world is built of, known by its id.
pub trait Block {
    fn id(&self) -> &str;
}

} // verus!
