//! Values exchanged with callers: geocoding candidates, resolved places and
//! the error kinds of a resolution.

use vstd::prelude::*;
use crate::text::{parse_tz, tz_known};

verus! {

/// A geocoding candidate, holding the text fields of an OpenStreetMap
/// search result that a resolution reads or hands on.
#[derive(Debug, Clone, Default, PartialEq, Eq)]
pub struct OpenStreetMapPlace {
    pub place_id: i64,
    pub licence: String,
    pub osm_type: String,
    pub osm_id: i64,
    pub lat: String,
    pub lon: String,
    pub category: String,
    pub type_field: String,
    pub place_rank: i64,
    pub addresstype: String,
    pub name: String,
    pub display_name: String,
}

pub type Places = Vec<OpenStreetMapPlace>;

/// A resolved place joined with the name of its time zone.
#[derive(Debug, Clone, PartialEq, Eq)]
pub struct PlaceWithTimeZone {
    pub id: i64,
    pub name: String,
    pub display_name: String,
    /// The zone's name in the time zone database.
    pub time_zone: String,
}

/// The mathematical value of a [`PlaceWithTimeZone`].
pub struct PlaceView {
    pub id: i64,
    pub name: Seq<char>,
    pub display_name: Seq<char>,
    pub time_zone: Seq<char>,
}

impl View for PlaceWithTimeZone {
    type V = PlaceView;

    open spec fn view(&self) -> PlaceView {
        PlaceView {
            id: self.id,
            name: self.name@,
            display_name: self.display_name@,
            time_zone: self.time_zone@,
        }
    }
}

impl PlaceWithTimeZone {
    /// The zone value, for offsets and abbreviations; `None` only when the
    /// name is not in the time zone database.
    pub fn tz(&self) -> (r: Option<chrono_tz::Tz>)
        ensures
            r is Some <==> tz_known(self.time_zone@),
    {
        parse_tz(&self.time_zone)
    }
}

/// Which stored or received value failed to be what it must be.
#[derive(Debug, Clone, Copy, PartialEq, Eq, Structural)]
pub enum Fault {
    /// A place refers to a time zone record that does not exist.
    ZoneRecordMissing,
    /// A zone name is not in the time zone database.
    ZoneUnknown,
    /// A candidate's latitude or longitude is not a number.
    CoordinatesMalformed,
}

/// Why a resolution ended without a place.
#[derive(Debug, Clone, PartialEq, Eq)]
pub enum RuhrError {
    /// Neither the cache nor the geocoder knows the place.
    NotFound,
    /// The user cancelled the choice among candidates.
    Aborted,
    /// The geocoder could not be reached, or answered with a bad status.
    NetworkError { connection_refused: bool, status: Option<u16> },
    /// Stored or received data is inconsistent.
    DataIntegrityError(Fault),
    /// The underlying storage failed; the text is its own message.
    DatabaseError(String),
    /// Every record identifier has been handed out.
    StoreFull,
}

} // verus!
