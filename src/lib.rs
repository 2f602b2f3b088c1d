//! Resolution of place names to time zones, backed by a cache of places,
//! time zones and aliases.
//!
//! [`Store`] holds the cache and keeps its records unique; [`Resolution`]
//! looks a query up in it and, on a miss, tells the caller which outside
//! step to perform next, then records what was found.

pub mod consistency;
pub mod resolver;
pub mod store;
pub mod text;
pub mod types;

pub use resolver::{Resolution, Stage, Step};
pub use store::{
    AliasRecord, AliasRow, Lookup, PlaceRecord, PlaceRow, Store, StoreView, TimeZoneRecord,
    ZoneRow,
};
pub use text::{ascii_lower, ascii_lower_char, same_alias, tz_known};
pub use types::{Fault, OpenStreetMapPlace, PlaceView, PlaceWithTimeZone, Places, RuhrError};
