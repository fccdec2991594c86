//! Data model: coordinates, location records, queries and the caller
//! identifier.
//!
//! Coordinates are carried as integer microdegrees (a millionth of a
//! degree, about eleven centimetres of latitude), validated at the
//! transport boundary.  Cell identifiers are the spatial index's opaque,
//! totally ordered 64-bit values.

use vstd::prelude::*;

verus! {

/// Southernmost latitude, in microdegrees.
pub const MIN_LATITUDE_UDEG: i64 = -90_000_000;

/// Northernmost latitude, in microdegrees.
pub const MAX_LATITUDE_UDEG: i64 = 90_000_000;

/// Westernmost longitude, in microdegrees.
pub const MIN_LONGITUDE_UDEG: i64 = -180_000_000;

/// Easternmost longitude, in microdegrees.
pub const MAX_LONGITUDE_UDEG: i64 = 180_000_000;

/// Latitude lies in [-90°, 90°].
pub open spec fn valid_latitude_udeg(latitude_udeg: i64) -> bool {
    MIN_LATITUDE_UDEG <= latitude_udeg <= MAX_LATITUDE_UDEG
}

/// Longitude lies in [-180°, 180°].
pub open spec fn valid_longitude_udeg(longitude_udeg: i64) -> bool {
    MIN_LONGITUDE_UDEG <= longitude_udeg <= MAX_LONGITUDE_UDEG
}

/// Both halves of a coordinate lie in range.
pub open spec fn valid_coordinate(latitude_udeg: i64, longitude_udeg: i64) -> bool {
    valid_latitude_udeg(latitude_udeg) && valid_longitude_udeg(longitude_udeg)
}

/// Boundary check for a coordinate, for the transport layer to run
/// before it hands a request to the core.
pub fn coordinate_in_range(latitude_udeg: i64, longitude_udeg: i64) -> (r: bool)
    ensures
        r == valid_coordinate(latitude_udeg, longitude_udeg),
{
    MIN_LATITUDE_UDEG <= latitude_udeg && latitude_udeg <= MAX_LATITUDE_UDEG
        && MIN_LONGITUDE_UDEG <= longitude_udeg && longitude_udeg <= MAX_LONGITUDE_UDEG
}

/// Mathematical image of a stored record.
pub ghost struct LocationView {
    pub id: Seq<char>,
    pub latitude_udeg: i64,
    pub longitude_udeg: i64,
    pub geo_index: u64,
}

/// A stored location record: the store-assigned identifier, the
/// coordinate, and the cell it was indexed into.  Created only by a
/// successful write transaction and immutable thereafter.
#[derive(Debug)]
pub struct Location {
    pub id: String,
    pub latitude_udeg: i64,
    pub longitude_udeg: i64,
    pub geo_index: u64,
}

impl View for Location {
    type V = LocationView;

    open spec fn view(&self) -> LocationView {
        LocationView {
            id: self.id@,
            latitude_udeg: self.latitude_udeg,
            longitude_udeg: self.longitude_udeg,
            geo_index: self.geo_index,
        }
    }
}

impl Location {
    /// The record's coordinate lies in range.
    pub open spec fn wf(self) -> bool {
        valid_coordinate(self.latitude_udeg, self.longitude_udeg)
    }
}

/// Mathematical image of a write request.
pub ghost struct LocationCommandView {
    pub latitude_udeg: i64,
    pub longitude_udeg: i64,
    pub geo_index: u64,
    pub uid: Seq<char>,
}

/// A write request: the coordinate to claim, the cell it indexes into,
/// and the identifier of the submitting caller.
#[derive(Debug)]
pub struct LocationCommand {
    pub latitude_udeg: i64,
    pub longitude_udeg: i64,
    pub geo_index: u64,
    pub uid: String,
}

impl View for LocationCommand {
    type V = LocationCommandView;

    open spec fn view(&self) -> LocationCommandView {
        LocationCommandView {
            latitude_udeg: self.latitude_udeg,
            longitude_udeg: self.longitude_udeg,
            geo_index: self.geo_index,
            uid: self.uid@,
        }
    }
}

impl LocationCommand {
    /// The requested coordinate lies in range.
    pub open spec fn wf(self) -> bool {
        valid_coordinate(self.latitude_udeg, self.longitude_udeg)
    }
}

/// A read-path query: the cell a coordinate indexed into and the
/// candidate cells to search.
#[derive(Debug)]
pub struct LocationQuery {
    geo_index: u64,
    get_indices: Vec<u64>,
}

impl LocationQuery {
    /// The cell the queried coordinate falls in.
    pub closed spec fn spec_geo_index(self) -> u64 {
        self.geo_index
    }

    /// The candidate cells to search.
    pub closed spec fn spec_get_indices(self) -> Seq<u64> {
        self.get_indices@
    }

    /// Pack a query from a centre cell and its candidate cells.
    pub fn new(geo_index: u64, get_indices: Vec<u64>) -> (q: LocationQuery)
        ensures
            q.spec_geo_index() == geo_index,
            q.spec_get_indices() == get_indices@,
    {
        LocationQuery { geo_index, get_indices }
    }

    /// The cell the queried coordinate falls in.
    pub fn geo_index(&self) -> (c: u64)
        ensures
            c == self.spec_geo_index(),
    {
        self.geo_index
    }

    /// The candidate cells to search.
    pub fn get_indices(&self) -> (cells: &Vec<u64>)
        ensures
            cells@ == self.spec_get_indices(),
    {
        &self.get_indices
    }
}

/// The caller identifier, carried by the `UID` transport header.
#[derive(Debug)]
pub struct UID {
    pub uid: String,
}

impl UID {
    /// The name of the transport header that carries the identifier.
    pub fn name() -> (s: String)
        ensures
            s@ == "UID"@,
    {
        "UID".to_owned()
    }
}

impl From<String> for UID {
    fn from(s: String) -> (u: UID) {
        UID { uid: s }
    }
}

impl vstd::std_specs::convert::FromSpecImpl<String> for UID {
    open spec fn obeys_from_spec() -> bool {
        true
    }

    open spec fn from_spec(s: String) -> UID {
        UID { uid: s }
    }
}

impl From<UID> for String {
    fn from(u: UID) -> (s: String) {
        u.uid
    }
}

impl vstd::std_specs::convert::FromSpecImpl<UID> for String {
    open spec fn obeys_from_spec() -> bool {
        true
    }

    open spec fn from_spec(u: UID) -> String {
        u.uid
    }
}

/// A lock handle as the quorum lock backend hands it out: the locked
/// resource, the fencing value the backend chose, and how long the lock
/// stays valid.  The backend adapter converts its own handle type to and
/// from this one.
#[derive(Debug)]
pub struct MyLock {
    pub resource: Vec<u8>,
    pub val: Vec<u8>,
    pub validity_time: usize,
}

} // verus!
