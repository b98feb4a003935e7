//! The data model: an observation, and the unit that is persisted.

use vstd::prelude::*;

verus! {

/// A point-in-time observation.
///
/// Latitude and longitude are carried as the bit patterns of IEEE-754
/// double-precision numbers, so that a value is stored and handed back
/// exactly as it came in. No range is enforced on any field.
#[derive(Clone, Copy, Debug, PartialEq, Eq, Structural)]
pub struct Location {
    /// Bit pattern of the latitude.
    pub lat_bits: u64,
    /// Bit pattern of the longitude.
    pub lon_bits: u64,
    /// Timestamp of the observation.
    pub time: u64,
}

impl Location {
    /// An observation with the given fields.
    pub fn new(lat_bits: u64, lon_bits: u64, time: u64) -> (location: Location)
        ensures
            location == (Location { lat_bits, lon_bits, time }),
    {
        Location { lat_bits, lon_bits, time }
    }
}

/// The persisted unit: an observation with the id it is stored under and the
/// secret that authorizes changing it.
#[derive(Clone, Debug, PartialEq, Eq)]
pub struct StoredRecord {
    /// Identifier of the record, and its key in the table.
    pub id: String,
    /// Token whose possession grants the right to update the record.
    pub secret: String,
    /// The current observation.
    pub location: Location,
}

/// What a `StoredRecord` is, mathematically.
pub struct RecordView {
    pub id: Seq<char>,
    pub secret: Seq<char>,
    pub location: Location,
}

impl View for StoredRecord {
    type V = RecordView;

    open spec fn view(&self) -> RecordView {
        RecordView { id: self.id@, secret: self.secret@, location: self.location }
    }
}

impl StoredRecord {
    /// A record with the given fields.
    pub fn new(id: String, secret: String, location: Location) -> (record: StoredRecord)
        ensures
            record@ == (RecordView { id: id@, secret: secret@, location }),
    {
        StoredRecord { id, secret, location }
    }
}

} // verus!
