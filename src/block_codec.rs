//! The versioned block payload: a leading version byte selects the decoder.
//! Version 29 is the one decoded; its 13-byte header carries four flag bits
//! in its byte at index 2.
use vstd::prelude::*;
use vstd::string::*;

use crate::types::SpatialCoordinate;
use crate::world::WorldError;

verus! {

/// The version byte of the one decoded format.
pub const VERSION_29: u8 = 29;

/// The length of the version-29 header.
pub const HEADER_LEN: usize = 13;

pub enum LightBank {
    Day,
    Night,
}

/// What a decoded block exposes, whatever its version.
pub trait MapBlockData {
    /// The byte of the header that holds the flags.
    spec fn flag_byte(&self) -> u8;

    /// The payload that decodes back to this block.
    spec fn payload(&self) -> Seq<u8>;

    fn serialize(&self) -> (r: Vec<u8>)
        ensures
            r@ == self.payload(),
    ;

    /// True when the block has no view of the sky.
    fn underground(&self) -> (r: bool)
        ensures
            r == (self.flag_byte() & 0x01 != 0),
    ;

    /// True when some node of the block is lit differently by day and by night.
    fn day_night_differs(&self) -> (r: bool)
        ensures
            r == (self.flag_byte() & 0x02 != 0),
    ;

    /// True when the lighting must be computed again.
    fn light_dirty(&self) -> (r: bool)
        ensures
            r == (self.flag_byte() & 0x04 != 0),
    ;

    fn was_generated(&self) -> (r: bool)
        ensures
            r == (self.flag_byte() & 0x08 != 0),
    ;

    fn light_complete(&self, bank: LightBank, direction: SpatialCoordinate) -> (r: bool);

    fn timestamp(&self) -> (r: u32);
}

/// A block in the version-29 format: its header, version byte excluded.
pub struct MapBlock29 {
    header_bytes: Vec<u8>,
}

impl View for MapBlock29 {
    type V = Seq<u8>;

    closed spec fn view(&self) -> Seq<u8> {
        self.header_bytes@
    }
}

impl MapBlock29 {
    #[verifier::type_invariant]
    spec fn header_is_whole(&self) -> bool {
        self.header_bytes@.len() == 13
    }

    /// Reads the header from the first 13 bytes of `data`.
    pub fn deserialize(data: &[u8]) -> (r: MapBlock29)
        requires
            data@.len() >= 13,
        ensures
            r@ == data@.subrange(0, 13),
    {
        Self::read_header(data, 0)
    }

    /// Reads the header from the first 13 bytes of `data`; `CorruptData`
    /// when there are fewer.
    pub fn try_deserialize(data: &[u8]) -> (r: Result<MapBlock29, WorldError>)
        ensures
            data@.len() >= 13 ==> (r matches Ok(b) && b@ == data@.subrange(0, 13)),
            data@.len() < 13 ==> (r matches Err(e) && e is CorruptData),
    {
        if data.len() < HEADER_LEN {
            return Err(WorldError::CorruptData(String::from_str("block header is truncated")));
        }
        Ok(Self::read_header(data, 0))
    }

    fn read_header(data: &[u8], start: usize) -> (r: MapBlock29)
        requires
            start + 13 <= data@.len(),
        ensures
            r@ == data@.subrange(start as int, start + 13),
    {
        let n = data.len();
        let mut header_bytes: Vec<u8> = Vec::new();
        let mut i: usize = 0;
        while i < HEADER_LEN
            invariant
                i <= 13,
                n == data@.len(),
                start + 13 <= data@.len(),
                header_bytes@ == data@.subrange(start as int, start + i),
            decreases 13 - i,
        {
            header_bytes.push(data[start + i]);
            assert(header_bytes@ =~= data@.subrange(start as int, start + i + 1));
            i = i + 1;
        }
        MapBlock29 { header_bytes }
    }
}

impl MapBlockData for MapBlock29 {
    open spec fn flag_byte(&self) -> u8 {
        self@[2]
    }

    open spec fn payload(&self) -> Seq<u8> {
        seq![VERSION_29] + self@
    }

    /// The version byte followed by the header.
    fn serialize(&self) -> (r: Vec<u8>) {
        let mut r: Vec<u8> = Vec::new();
        r.push(VERSION_29);
        let mut i: usize = 0;
        while i < self.header_bytes.len()
            invariant
                i <= self.header_bytes@.len(),
                r@ == seq![VERSION_29] + self.header_bytes@.subrange(0, i as int),
            decreases self.header_bytes@.len() - i,
        {
            r.push(self.header_bytes[i]);
            assert(r@ =~= seq![VERSION_29] + self.header_bytes@.subrange(0, i + 1));
            i = i + 1;
        }
        assert(self.header_bytes@.subrange(0, i as int) =~= self.header_bytes@);
        r
    }

    fn underground(&self) -> (r: bool) {
        proof {
            use_type_invariant(self);
        }
        (self.header_bytes[2] & 0x01) != 0
    }

    fn day_night_differs(&self) -> (r: bool) {
        proof {
            use_type_invariant(self);
        }
        (self.header_bytes[2] & 0x02) != 0
    }

    fn light_dirty(&self) -> (r: bool) {
        proof {
            use_type_invariant(self);
        }
        (self.header_bytes[2] & 0x04) != 0
    }

    fn was_generated(&self) -> (r: bool) {
        proof {
            use_type_invariant(self);
        }
        (self.header_bytes[2] & 0x08) != 0
    }

    /// Not carried by the header alone; always false.
    fn light_complete(&self, bank: LightBank, direction: SpatialCoordinate) -> (r: bool) {
        false
    }

    /// Not carried by the header alone; always 0.
    fn timestamp(&self) -> (r: u32) {
        0
    }
}

/// A decoded block, one variant per supported version.
pub enum MapBlock {
    V29(MapBlock29),
}

impl MapBlockData for MapBlock {
    open spec fn flag_byte(&self) -> u8 {
        match self {
            MapBlock::V29(b) => b.flag_byte(),
        }
    }

    open spec fn payload(&self) -> Seq<u8> {
        match self {
            MapBlock::V29(b) => b.payload(),
        }
    }

    fn serialize(&self) -> (r: Vec<u8>) {
        match self {
            MapBlock::V29(b) => b.serialize(),
        }
    }

    fn underground(&self) -> (r: bool) {
        match self {
            MapBlock::V29(b) => b.underground(),
        }
    }

    fn day_night_differs(&self) -> (r: bool) {
        match self {
            MapBlock::V29(b) => b.day_night_differs(),
        }
    }

    fn light_dirty(&self) -> (r: bool) {
        match self {
            MapBlock::V29(b) => b.light_dirty(),
        }
    }

    fn was_generated(&self) -> (r: bool) {
        match self {
            MapBlock::V29(b) => b.was_generated(),
        }
    }

    fn light_complete(&self, bank: LightBank, direction: SpatialCoordinate) -> (r: bool) {
        match self {
            MapBlock::V29(b) => b.light_complete(bank, direction),
        }
    }

    fn timestamp(&self) -> (r: u32) {
        match self {
            MapBlock::V29(b) => b.timestamp(),
        }
    }
}

/// The header that a payload decodes to: `Some` exactly for a version-29
/// payload of at least 14 bytes.
pub open spec fn decoded_header(p: Seq<u8>) -> Option<Seq<u8>> {
    if p.len() >= 14 && p[0] == VERSION_29 {
        Some(p.subrange(1, 14))
    } else {
        None
    }
}

/// Decodes a payload by its version byte. An empty payload, or a version-29
/// payload shorter than its header, is `CorruptData`; any other version byte
/// is `UnsupportedVersion`.
pub fn deserialize_block_data(data: &Vec<u8>) -> (r: Result<MapBlock, WorldError>)
    ensures
        decoded_header(data@) matches Some(h) ==> (r matches Ok(MapBlock::V29(b)) && b@ == h),
        data@.len() == 0 ==> (r matches Err(e) && e is CorruptData),
        data@.len() > 0 && data@[0] != VERSION_29 ==> r == Err::<MapBlock, WorldError>(
            WorldError::UnsupportedVersion(data@[0]),
        ),
        data@.len() > 0 && data@[0] == VERSION_29 && data@.len() < 14 ==> (r matches Err(
            e,
        ) && e is CorruptData),
{
    if data.len() == 0 {
        return Err(WorldError::CorruptData(String::from_str("empty block payload")));
    }
    let version = data[0];
    if version != VERSION_29 {
        return Err(WorldError::UnsupportedVersion(version));
    }
    if data.len() < 1 + HEADER_LEN {
        return Err(WorldError::CorruptData(String::from_str("block header is truncated")));
    }
    Ok(MapBlock::V29(MapBlock29::read_header(data.as_slice(), 1)))
}

/// Serializing a decoded block gives back the first 14 bytes of the payload
/// it came from, and decoding a serialized block gives back its header.
pub proof fn lemma_block_round_trip(p: Seq<u8>, b: MapBlock29)
    requires
        b@.len() == 13,
    ensures
        decoded_header(p) matches Some(h) ==> (seq![VERSION_29] + h) == p.subrange(0, 14),
        decoded_header(b.payload()) == Some(b@),
{
    if decoded_header(p) is Some {
        assert((seq![VERSION_29] + p.subrange(1, 14)) =~= p.subrange(0, 14));
    }
    assert(b.payload().subrange(1, 14) =~= b@);
}

} // verus!
