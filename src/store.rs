//! The cache of places, time zones and aliases, with the uniqueness rules
//! that keep it consistent.

use vstd::prelude::*;
use crate::text::{ascii_lower, eq_ignore_ascii_case, parse_tz, same_alias, tz_known};
use crate::types::{Fault, OpenStreetMapPlace, PlaceView, PlaceWithTimeZone, RuhrError};

verus! {

/// A time zone record: a zone name, stored once.
#[derive(Debug, Clone, PartialEq, Eq)]
pub struct TimeZoneRecord {
    pub id: i64,
    pub name: String,
}

/// A place record, unique by its display name.
#[derive(Debug, Clone, PartialEq, Eq)]
pub struct PlaceRecord {
    pub id: i64,
    pub name: String,
    pub display_name: String,
    pub time_zone_id: i64,
}

/// An alias record, unique by its name up to ASCII case.
#[derive(Debug, Clone, PartialEq, Eq)]
pub struct AliasRecord {
    pub id: i64,
    pub name: String,
    pub place_id: i64,
}

pub struct ZoneRow {
    pub id: i64,
    pub name: Seq<char>,
}

pub struct PlaceRow {
    pub id: i64,
    pub name: Seq<char>,
    pub display_name: Seq<char>,
    pub time_zone_id: i64,
}

pub struct AliasRow {
    pub id: i64,
    pub name: Seq<char>,
    pub place_id: i64,
}

impl View for TimeZoneRecord {
    type V = ZoneRow;

    open spec fn view(&self) -> ZoneRow {
        ZoneRow { id: self.id, name: self.name@ }
    }
}

impl View for PlaceRecord {
    type V = PlaceRow;

    open spec fn view(&self) -> PlaceRow {
        PlaceRow {
            id: self.id,
            name: self.name@,
            display_name: self.display_name@,
            time_zone_id: self.time_zone_id,
        }
    }
}

impl View for AliasRecord {
    type V = AliasRow;

    open spec fn view(&self) -> AliasRow {
        AliasRow { id: self.id, name: self.name@, place_id: self.place_id }
    }
}

/// What an alias lookup finds.
pub enum Lookup {
    /// No alias matches, or its place is gone.
    Missing,
    /// The place's time zone is missing or not a known zone.
    Broken(Fault),
    Found(PlaceView),
}

/// The contents of a [`Store`]: its three tables and the next identifier
/// it hands out.
pub struct StoreView {
    pub zones: Seq<ZoneRow>,
    pub places: Seq<PlaceRow>,
    pub aliases: Seq<AliasRow>,
    pub next_id: i64,
}

impl StoreView {
    pub open spec fn zone_at(self, i: int, name: Seq<char>) -> bool {
        0 <= i < self.zones.len() && self.zones[i].name == name
    }

    pub open spec fn has_zone(self, name: Seq<char>) -> bool {
        exists|i: int| self.zone_at(i, name)
    }

    /// The identifier of the zone record with this name.
    pub open spec fn zone_id(self, name: Seq<char>) -> i64 {
        self.zones[choose|i: int| self.zone_at(i, name)].id
    }

    pub open spec fn zone_id_at(self, i: int, id: i64) -> bool {
        0 <= i < self.zones.len() && self.zones[i].id == id
    }

    pub open spec fn has_zone_id(self, id: i64) -> bool {
        exists|i: int| self.zone_id_at(i, id)
    }

    /// The zone record with this identifier.
    pub open spec fn zone_by_id(self, id: i64) -> ZoneRow {
        self.zones[choose|i: int| self.zone_id_at(i, id)]
    }

    pub open spec fn place_at(self, i: int, display_name: Seq<char>) -> bool {
        0 <= i < self.places.len() && self.places[i].display_name == display_name
    }

    pub open spec fn has_place(self, display_name: Seq<char>) -> bool {
        exists|i: int| self.place_at(i, display_name)
    }

    /// The place record with this display name.
    pub open spec fn place_named(self, display_name: Seq<char>) -> PlaceRow {
        self.places[choose|i: int| self.place_at(i, display_name)]
    }

    pub open spec fn place_id_at(self, i: int, id: i64) -> bool {
        0 <= i < self.places.len() && self.places[i].id == id
    }

    pub open spec fn has_place_id(self, id: i64) -> bool {
        exists|i: int| self.place_id_at(i, id)
    }

    /// The place record with this identifier.
    pub open spec fn place_by_id(self, id: i64) -> PlaceRow {
        self.places[choose|i: int| self.place_id_at(i, id)]
    }

    pub open spec fn alias_at(self, i: int, name: Seq<char>) -> bool {
        0 <= i < self.aliases.len() && same_alias(self.aliases[i].name, name)
    }

    pub open spec fn has_alias(self, name: Seq<char>) -> bool {
        exists|i: int| self.alias_at(i, name)
    }

    /// The position of the alias that matches this name up to ASCII case.
    pub open spec fn alias_index(self, name: Seq<char>) -> int {
        choose|i: int| self.alias_at(i, name)
    }

    /// The identifier of the place that an alias name points to.
    pub open spec fn alias_target(self, name: Seq<char>) -> i64 {
        self.aliases[self.alias_index(name)].place_id
    }

    /// Identifiers are positive, below `next_id` and unique in each table;
    /// zone names, place display names and alias names up to ASCII case are
    /// unique.
    pub open spec fn wf(self) -> bool {
        &&& 1 <= self.next_id
        &&& forall|i: int| 0 <= i < self.zones.len()
            ==> 1 <= #[trigger] self.zones[i].id < self.next_id
        &&& forall|i: int| 0 <= i < self.places.len()
            ==> 1 <= #[trigger] self.places[i].id < self.next_id
        &&& forall|i: int| 0 <= i < self.aliases.len()
            ==> 1 <= #[trigger] self.aliases[i].id < self.next_id
        &&& forall|i: int, j: int|
            0 <= i < self.zones.len() && 0 <= j < self.zones.len()
                && (#[trigger] self.zones[i]).name == (#[trigger] self.zones[j]).name ==> i == j
        &&& forall|i: int, j: int|
            0 <= i < self.zones.len() && 0 <= j < self.zones.len()
                && (#[trigger] self.zones[i]).id == (#[trigger] self.zones[j]).id ==> i == j
        &&& forall|i: int, j: int|
            0 <= i < self.places.len() && 0 <= j < self.places.len()
                && (#[trigger] self.places[i]).display_name == (#[trigger] self.places[j]).display_name
                ==> i == j
        &&& forall|i: int, j: int|
            0 <= i < self.places.len() && 0 <= j < self.places.len()
                && (#[trigger] self.places[i]).id == (#[trigger] self.places[j]).id ==> i == j
        &&& forall|i: int, j: int|
            0 <= i < self.aliases.len() && 0 <= j < self.aliases.len()
                && ascii_lower((#[trigger] self.aliases[i]).name)
                == ascii_lower((#[trigger] self.aliases[j]).name) ==> i == j
        &&& forall|i: int, j: int|
            0 <= i < self.aliases.len() && 0 <= j < self.aliases.len()
                && (#[trigger] self.aliases[i]).id == (#[trigger] self.aliases[j]).id ==> i == j
    }

    /// Every alias points to a stored place, and every place to a stored
    /// time zone.
    pub open spec fn linked(self) -> bool {
        &&& forall|i: int| 0 <= i < self.aliases.len()
            ==> self.has_place_id(#[trigger] self.aliases[i].place_id)
        &&& forall|i: int| 0 <= i < self.places.len()
            ==> self.has_zone_id(#[trigger] self.places[i].time_zone_id)
    }

    /// Every stored zone name is in the time zone database.
    pub open spec fn zones_known(self) -> bool {
        forall|i: int| 0 <= i < self.zones.len() ==> tz_known(#[trigger] self.zones[i].name)
    }

    /// Finding a zone by name, or adding it: the store afterwards and the
    /// zone's identifier, `None` when no identifier is left for a new record.
    pub open spec fn with_zone(self, name: Seq<char>) -> (StoreView, Option<i64>) {
        if self.has_zone(name) {
            (self, Some(self.zone_id(name)))
        } else if self.next_id == i64::MAX {
            (self, None)
        } else {
            (
                StoreView {
                    zones: self.zones.push(ZoneRow { id: self.next_id, name }),
                    places: self.places,
                    aliases: self.aliases,
                    next_id: (self.next_id + 1) as i64,
                },
                Some(self.next_id),
            )
        }
    }

    /// Finding a place by display name, or adding it bound to a zone.
    pub open spec fn with_place(
        self,
        name: Seq<char>,
        display_name: Seq<char>,
        time_zone_id: i64,
    ) -> (StoreView, Option<i64>) {
        if self.has_place(display_name) {
            (self, Some(self.place_named(display_name).id))
        } else if self.next_id == i64::MAX {
            (self, None)
        } else {
            (
                StoreView {
                    zones: self.zones,
                    places: self.places.push(
                        PlaceRow { id: self.next_id, name, display_name, time_zone_id },
                    ),
                    aliases: self.aliases,
                    next_id: (self.next_id + 1) as i64,
                },
                Some(self.next_id),
            )
        }
    }

    /// Binding an alias name to a place, replacing the binding of a name
    /// equal up to ASCII case; `false` when no identifier is left for a new
    /// record.
    pub open spec fn with_alias(self, name: Seq<char>, place_id: i64) -> (StoreView, bool) {
        if self.has_alias(name) {
            let i = self.alias_index(name);
            (
                StoreView {
                    zones: self.zones,
                    places: self.places,
                    aliases: self.aliases.update(
                        i,
                        AliasRow { id: self.aliases[i].id, name, place_id },
                    ),
                    next_id: self.next_id,
                },
                true,
            )
        } else if self.next_id == i64::MAX {
            (self, false)
        } else {
            (
                StoreView {
                    zones: self.zones,
                    places: self.places,
                    aliases: self.aliases.push(AliasRow { id: self.next_id, name, place_id }),
                    next_id: (self.next_id + 1) as i64,
                },
                true,
            )
        }
    }

    /// Looking up a name as an alias, joined through its place to the zone.
    pub open spec fn lookup(self, name: Seq<char>) -> Lookup {
        if !self.has_alias(name) || !self.has_place_id(self.alias_target(name)) {
            Lookup::Missing
        } else {
            let p = self.place_by_id(self.alias_target(name));
            if !self.has_zone_id(p.time_zone_id) {
                Lookup::Broken(Fault::ZoneRecordMissing)
            } else if !tz_known(self.zone_by_id(p.time_zone_id).name) {
                Lookup::Broken(Fault::ZoneUnknown)
            } else {
                Lookup::Found(
                    PlaceView {
                        id: p.id,
                        name: p.name,
                        display_name: p.display_name,
                        time_zone: self.zone_by_id(p.time_zone_id).name,
                    },
                )
            }
        }
    }
}

/// Adding a zone keeps the store well-formed and linked, and the returned
/// identifier names a record with that zone name.
pub proof fn lemma_with_zone(v: StoreView, name: Seq<char>)
    requires
        v.wf(),
    ensures
        v.with_zone(name).0.wf(),
        v.linked() ==> v.with_zone(name).0.linked(),
        v.with_zone(name).1 matches Some(id) ==> {
            let w = v.with_zone(name).0;
            &&& w.has_zone_id(id)
            &&& w.zone_by_id(id).name == name
            &&& w.has_zone(name)
            &&& w.zone_id(name) == id
        },
        v.zones.is_prefix_of(v.with_zone(name).0.zones),
        v.with_zone(name).1 is None <==> !v.has_zone(name) && v.next_id == i64::MAX,
        v.with_zone(name).0.places == v.places,
        v.with_zone(name).0.aliases == v.aliases,
{
    let w = v.with_zone(name).0;
    if v.has_zone(name) {
        let i = choose|i: int| v.zone_at(i, name);
        assert(v.zone_id_at(i, v.zone_id(name)));
        let j = choose|j: int| v.zone_id_at(j, v.zone_id(name));
        assert(v.zones[i].id == v.zones[j].id);
    } else if v.next_id != i64::MAX {
        let n = v.zones.len() as int;
        assert forall|a: int, b: int|
            0 <= a < w.zones.len() && 0 <= b < w.zones.len() && (#[trigger] w.zones[a]).name
                == (#[trigger] w.zones[b]).name implies a == b by {
            if a == n && b != n {
                assert(v.zone_at(b, name));
            }
            if b == n && a != n {
                assert(v.zone_at(a, name));
            }
        }
        assert(w.zones[n].name == name);
        assert(w.zone_at(n, name));
        let k = choose|k: int| w.zone_at(k, name);
        assert(w.zones[k].name == w.zones[n].name);
        if v.linked() {
            assert forall|i: int| 0 <= i < w.places.len() implies w.has_zone_id(
                #[trigger] w.places[i].time_zone_id,
            ) by {
                assert(v.has_zone_id(v.places[i].time_zone_id));
                let k = choose|k: int| v.zone_id_at(k, v.places[i].time_zone_id);
                assert(w.zone_id_at(k, v.places[i].time_zone_id));
            }
            assert forall|i: int| 0 <= i < w.aliases.len() implies w.has_place_id(
                #[trigger] w.aliases[i].place_id,
            ) by {
                assert(v.has_place_id(v.aliases[i].place_id));
                let k = choose|k: int| v.place_id_at(k, v.aliases[i].place_id);
                assert(w.place_id_at(k, v.aliases[i].place_id));
            }
        }
        assert(w.zone_id_at(n, v.next_id));
        let j = choose|j: int| w.zone_id_at(j, v.next_id);
        assert(w.zones[j].id == w.zones[n].id);
    }
}

/// Adding a place keeps the store well-formed, and linked when its zone
/// exists; the returned identifier names a record with that display name.
pub proof fn lemma_with_place(
    v: StoreView,
    name: Seq<char>,
    display_name: Seq<char>,
    time_zone_id: i64,
)
    requires
        v.wf(),
    ensures
        v.with_place(name, display_name, time_zone_id).0.wf(),
        v.linked() && v.has_zone_id(time_zone_id) ==> v.with_place(
            name,
            display_name,
            time_zone_id,
        ).0.linked(),
        v.with_place(name, display_name, time_zone_id).1 matches Some(id) ==> {
            let w = v.with_place(name, display_name, time_zone_id).0;
            &&& w.has_place_id(id)
            &&& w.place_by_id(id) == w.place_named(display_name)
            &&& w.has_place(display_name)
            &&& !v.has_place(display_name) ==> w.place_named(display_name) == PlaceRow {
                id,
                name,
                display_name,
                time_zone_id,
            }
        },
        v.places.is_prefix_of(v.with_place(name, display_name, time_zone_id).0.places),
        v.with_place(name, display_name, time_zone_id).1 is None <==> !v.has_place(display_name)
            && v.next_id == i64::MAX,
        v.with_place(name, display_name, time_zone_id).0.zones == v.zones,
        v.with_place(name, display_name, time_zone_id).0.aliases == v.aliases,
{
    let w = v.with_place(name, display_name, time_zone_id).0;
    if v.has_place(display_name) {
        let i = choose|i: int| v.place_at(i, display_name);
        assert(v.place_id_at(i, v.places[i].id));
        let j = choose|j: int| v.place_id_at(j, v.places[i].id);
        assert(v.places[i].id == v.places[j].id);
    } else if v.next_id != i64::MAX {
        let n = v.places.len() as int;
        assert forall|a: int, b: int|
            0 <= a < w.places.len() && 0 <= b < w.places.len()
                && (#[trigger] w.places[a]).display_name == (#[trigger] w.places[b]).display_name
                implies a == b by {
            if a == n && b != n {
                assert(v.place_at(b, display_name));
            }
            if b == n && a != n {
                assert(v.place_at(a, display_name));
            }
        }
        assert(w.place_at(n, display_name));
        let i = choose|i: int| w.place_at(i, display_name);
        assert(w.places[i].display_name == w.places[n].display_name);
        assert(w.place_id_at(n, v.next_id));
        let j = choose|j: int| w.place_id_at(j, v.next_id);
        assert(w.places[j].id == w.places[n].id);
        if v.linked() && v.has_zone_id(time_zone_id) {
            assert forall|i: int| 0 <= i < w.aliases.len() implies w.has_place_id(
                #[trigger] w.aliases[i].place_id,
            ) by {
                assert(v.has_place_id(v.aliases[i].place_id));
                let k = choose|k: int| v.place_id_at(k, v.aliases[i].place_id);
                assert(w.place_id_at(k, v.aliases[i].place_id));
            }
            assert forall|i: int| 0 <= i < w.places.len() implies w.has_zone_id(
                #[trigger] w.places[i].time_zone_id,
            ) by {
                let z = w.places[i].time_zone_id;
                if i < n {
                    assert(v.has_zone_id(v.places[i].time_zone_id));
                }
                let k = choose|k: int| v.zone_id_at(k, z);
                assert(w.zone_id_at(k, z));
            }
        }
    }
}

/// Binding an alias keeps the store well-formed, and linked when its place
/// exists; afterwards the name points to that place.
pub proof fn lemma_with_alias(v: StoreView, name: Seq<char>, place_id: i64)
    requires
        v.wf(),
    ensures
        v.with_alias(name, place_id).0.wf(),
        v.linked() && v.has_place_id(place_id) ==> v.with_alias(name, place_id).0.linked(),
        v.with_alias(name, place_id).1 ==> {
            let w = v.with_alias(name, place_id).0;
            w.has_alias(name) && w.alias_target(name) == place_id
        },
        !v.with_alias(name, place_id).1 <==> !v.has_alias(name) && v.next_id == i64::MAX,
        v.with_alias(name, place_id).0.zones == v.zones,
        v.with_alias(name, place_id).0.places == v.places,
{
    let w = v.with_alias(name, place_id).0;
    if v.has_alias(name) {
        let i = v.alias_index(name);
        assert(w.alias_at(i, name));
        let j = w.alias_index(name);
        assert(ascii_lower(w.aliases[j].name) == ascii_lower(w.aliases[i].name));
        assert forall|a: int, b: int|
            0 <= a < w.aliases.len() && 0 <= b < w.aliases.len() && ascii_lower(
                (#[trigger] w.aliases[a]).name,
            ) == ascii_lower((#[trigger] w.aliases[b]).name) implies a == b by {
            if a == i && b != i {
                assert(ascii_lower(v.aliases[b].name) == ascii_lower(v.aliases[i].name));
            }
            if b == i && a != i {
                assert(ascii_lower(v.aliases[a].name) == ascii_lower(v.aliases[i].name));
            }
        }
        assert forall|a: int, b: int|
            0 <= a < w.aliases.len() && 0 <= b < w.aliases.len() && (#[trigger] w.aliases[a]).id
                == (#[trigger] w.aliases[b]).id implies a == b by {
            assert(v.aliases[a].id == w.aliases[a].id);
            assert(v.aliases[b].id == w.aliases[b].id);
        }
        if v.linked() && v.has_place_id(place_id) {
            assert forall|k: int| 0 <= k < w.aliases.len() implies w.has_place_id(
                #[trigger] w.aliases[k].place_id,
            ) by {
                let p = w.aliases[k].place_id;
                if k != i {
                    assert(v.has_place_id(v.aliases[k].place_id));
                }
                let m = choose|m: int| v.place_id_at(m, p);
                assert(w.place_id_at(m, p));
            }
            assert forall|k: int| 0 <= k < w.places.len() implies w.has_zone_id(
                #[trigger] w.places[k].time_zone_id,
            ) by {
                assert(v.has_zone_id(v.places[k].time_zone_id));
                let m = choose|m: int| v.zone_id_at(m, v.places[k].time_zone_id);
                assert(w.zone_id_at(m, v.places[k].time_zone_id));
            }
        }
    } else if v.next_id != i64::MAX {
        let n = v.aliases.len() as int;
        assert(w.alias_at(n, name));
        let j = w.alias_index(name);
        assert(ascii_lower(w.aliases[j].name) == ascii_lower(w.aliases[n].name));
        assert forall|a: int, b: int|
            0 <= a < w.aliases.len() && 0 <= b < w.aliases.len() && ascii_lower(
                (#[trigger] w.aliases[a]).name,
            ) == ascii_lower((#[trigger] w.aliases[b]).name) implies a == b by {
            if a == n && b != n {
                assert(v.alias_at(b, name));
            }
            if b == n && a != n {
                assert(v.alias_at(a, name));
            }
        }
        if v.linked() && v.has_place_id(place_id) {
            assert forall|k: int| 0 <= k < w.aliases.len() implies w.has_place_id(
                #[trigger] w.aliases[k].place_id,
            ) by {
                let p = w.aliases[k].place_id;
                if k != n {
                    assert(v.has_place_id(v.aliases[k].place_id));
                }
                let m = choose|m: int| v.place_id_at(m, p);
                assert(w.place_id_at(m, p));
            }
            assert forall|k: int| 0 <= k < w.places.len() implies w.has_zone_id(
                #[trigger] w.places[k].time_zone_id,
            ) by {
                assert(v.has_zone_id(v.places[k].time_zone_id));
                let m = choose|m: int| v.zone_id_at(m, v.places[k].time_zone_id);
                assert(w.zone_id_at(m, v.places[k].time_zone_id));
            }
        }
    }
}

impl StoreView {
    /// Recording a resolved place: its zone, then the place keyed by display
    /// name, then the alias bound to it. The identifier of the place, `None`
    /// when no identifier was left for a record that had to be added.
    pub open spec fn with_resolved(
        self,
        name: Seq<char>,
        display_name: Seq<char>,
        time_zone: Seq<char>,
        alias: Seq<char>,
    ) -> (StoreView, Option<i64>) {
        let (v1, z) = self.with_zone(time_zone);
        match z {
            None => (v1, None),
            Some(zone_id) => {
                let (v2, p) = v1.with_place(name, display_name, zone_id);
                match p {
                    None => (v2, None),
                    Some(place_id) => {
                        let (v3, bound) = v2.with_alias(alias, place_id);
                        (v3, if bound { Some(place_id) } else { None })
                    },
                }
            },
        }
    }
}

/// The result of a lookup, as [`Store::get_place`] returns it.
pub open spec fn lookup_outcome(l: Lookup, r: Result<PlaceWithTimeZone, RuhrError>) -> bool {
    match l {
        Lookup::Missing => r == Err::<PlaceWithTimeZone, RuhrError>(RuhrError::NotFound),
        Lookup::Broken(f) => r == Err::<PlaceWithTimeZone, RuhrError>(
            RuhrError::DataIntegrityError(f),
        ),
        Lookup::Found(v) => r matches Ok(p) && p@ == v,
    }
}

/// Recording a resolved place keeps the store well-formed and linked, and
/// on success leaves the alias pointing to the place.
pub proof fn lemma_with_resolved(
    v: StoreView,
    name: Seq<char>,
    display_name: Seq<char>,
    time_zone: Seq<char>,
    alias: Seq<char>,
)
    requires
        v.wf(),
    ensures
        v.with_resolved(name, display_name, time_zone, alias).0.wf(),
        v.linked() ==> v.with_resolved(name, display_name, time_zone, alias).0.linked(),
        v.with_resolved(name, display_name, time_zone, alias).1 matches Some(place_id) ==> {
            let w = v.with_resolved(name, display_name, time_zone, alias).0;
            &&& w.has_alias(alias)
            &&& w.alias_target(alias) == place_id
            &&& w.has_place_id(place_id)
            &&& w.place_by_id(place_id) == w.place_named(display_name)
        },
{
    lemma_with_zone(v, time_zone);
    let (v1, z) = v.with_zone(time_zone);
    if let Some(zone_id) = z {
        lemma_with_place(v1, name, display_name, zone_id);
        let (v2, p) = v1.with_place(name, display_name, zone_id);
        if let Some(place_id) = p {
            lemma_with_alias(v2, alias, place_id);
            let w = v2.with_alias(alias, place_id).0;
            assert(w.places == v2.places);
            let m = choose|m: int| v2.place_id_at(m, place_id);
            assert(w.place_id_at(m, place_id));
            let j = choose|j: int| w.place_id_at(j, place_id);
            assert(w.places[j].id == w.places[m].id);
            let m2 = choose|k: int| v2.place_at(k, display_name);
            assert(w.place_at(m2, display_name));
            let k = choose|k: int| w.place_at(k, display_name);
            assert(w.places[k].display_name == w.places[m2].display_name);
        }
    }
}

/// The cache of places, time zones and aliases.
pub struct Store {
    time_zones: Vec<TimeZoneRecord>,
    places: Vec<PlaceRecord>,
    aliases: Vec<AliasRecord>,
    next_id: i64,
}

impl View for Store {
    type V = StoreView;

    closed spec fn view(&self) -> StoreView {
        StoreView {
            zones: self.time_zones@.map_values(|r: TimeZoneRecord| r@),
            places: self.places@.map_values(|r: PlaceRecord| r@),
            aliases: self.aliases@.map_values(|r: AliasRecord| r@),
            next_id: self.next_id,
        }
    }
}

impl Store {
    /// Position of the zone record with this name.
    fn zone_index(&self, name: &String) -> (r: Option<usize>)
        requires
            self@.wf(),
        ensures
            match r {
                Some(i) => self@.zone_at(i as int, name@),
                None => !self@.has_zone(name@),
            },
    {
        let mut i: usize = 0;
        while i < self.time_zones.len()
            invariant
                i <= self.time_zones@.len(),
                forall|k: int| 0 <= k < i ==> !self@.zone_at(k, name@),
            decreases self.time_zones@.len() - i,
        {
            if self.time_zones[i].name == *name {
                return Some(i);
            }
            i = i + 1;
        }
        None
    }

    /// Position of the zone record with this identifier.
    fn zone_index_by_id(&self, id: i64) -> (r: Option<usize>)
        requires
            self@.wf(),
        ensures
            match r {
                Some(i) => self@.zone_id_at(i as int, id),
                None => !self@.has_zone_id(id),
            },
    {
        let mut i: usize = 0;
        while i < self.time_zones.len()
            invariant
                i <= self.time_zones@.len(),
                forall|k: int| 0 <= k < i ==> !self@.zone_id_at(k, id),
            decreases self.time_zones@.len() - i,
        {
            if self.time_zones[i].id == id {
                return Some(i);
            }
            i = i + 1;
        }
        None
    }

    /// Position of the place record with this display name.
    fn place_index(&self, display_name: &String) -> (r: Option<usize>)
        requires
            self@.wf(),
        ensures
            match r {
                Some(i) => self@.place_at(i as int, display_name@),
                None => !self@.has_place(display_name@),
            },
    {
        let mut i: usize = 0;
        while i < self.places.len()
            invariant
                i <= self.places@.len(),
                forall|k: int| 0 <= k < i ==> !self@.place_at(k, display_name@),
            decreases self.places@.len() - i,
        {
            if self.places[i].display_name == *display_name {
                return Some(i);
            }
            i = i + 1;
        }
        None
    }

    /// Position of the place record with this identifier.
    fn place_index_by_id(&self, id: i64) -> (r: Option<usize>)
        requires
            self@.wf(),
        ensures
            match r {
                Some(i) => self@.place_id_at(i as int, id),
                None => !self@.has_place_id(id),
            },
    {
        let mut i: usize = 0;
        while i < self.places.len()
            invariant
                i <= self.places@.len(),
                forall|k: int| 0 <= k < i ==> !self@.place_id_at(k, id),
            decreases self.places@.len() - i,
        {
            if self.places[i].id == id {
                return Some(i);
            }
            i = i + 1;
        }
        None
    }

    /// Position of the alias that matches this name up to ASCII case.
    fn alias_position(&self, name: &String) -> (r: Option<usize>)
        requires
            self@.wf(),
        ensures
            match r {
                Some(i) => self@.alias_at(i as int, name@),
                None => !self@.has_alias(name@),
            },
    {
        let mut i: usize = 0;
        while i < self.aliases.len()
            invariant
                i <= self.aliases@.len(),
                forall|k: int| 0 <= k < i ==> !self@.alias_at(k, name@),
            decreases self.aliases@.len() - i,
        {
            if eq_ignore_ascii_case(&self.aliases[i].name, name) {
                return Some(i);
            }
            i = i + 1;
        }
        None
    }

    /// An empty store.
    pub fn new() -> (r: Store)
        ensures
            r@.wf(),
            r@.linked(),
            r@.zones_known(),
            r@.zones.len() == 0,
            r@.places.len() == 0,
            r@.aliases.len() == 0,
            r@.next_id == 1,
    {
        let r = Store { time_zones: Vec::new(), places: Vec::new(), aliases: Vec::new(), next_id: 1 };
        proof {
            assert(r@.zones =~= Seq::empty());
            assert(r@.places =~= Seq::empty());
            assert(r@.aliases =~= Seq::empty());
        }
        r
    }
}

impl Store {
    /// Looks a time zone up by name and adds it when absent; the identifier
    /// of the one record with that name.
    pub fn find_time_zone_or_create(&mut self, name: &String) -> (r: Result<i64, RuhrError>)
        requires
            old(self)@.wf(),
        ensures
            final(self)@ == old(self)@.with_zone(name@).0,
            match r {
                Ok(id) => old(self)@.with_zone(name@).1 == Some(id),
                Err(e) => old(self)@.with_zone(name@).1 is None && e == RuhrError::StoreFull,
            },
    {
        match self.zone_index(name) {
            Some(i) => {
                proof {
                    let v = self@;
                    assert(v.zone_at(i as int, name@));
                    let j = choose|j: int| v.zone_at(j, name@);
                    assert(v.zones[j].name == v.zones[i as int].name);
                }
                Ok(self.time_zones[i].id)
            },
            None => {
                if self.next_id == i64::MAX {
                    return Err(RuhrError::StoreFull);
                }
                let id = self.next_id;
                let ghost before = self@;
                self.time_zones.push(TimeZoneRecord { id, name: name.clone() });
                self.next_id = id + 1;
                proof {
                    assert(self@.zones =~= before.zones.push(ZoneRow { id, name: name@ }));
                    assert(self@.places =~= before.places);
                    assert(self@.aliases =~= before.aliases);
                }
                Ok(id)
            },
        }
    }

    /// Looks a place up by display name and adds it, bound to the given
    /// zone, when absent; the identifier of the one record with that name.
    pub fn find_place_or_create(
        &mut self,
        name: &String,
        display_name: &String,
        time_zone_id: i64,
    ) -> (r: Result<i64, RuhrError>)
        requires
            old(self)@.wf(),
        ensures
            final(self)@ == old(self)@.with_place(name@, display_name@, time_zone_id).0,
            match r {
                Ok(id) => old(self)@.with_place(name@, display_name@, time_zone_id).1 == Some(id),
                Err(e) => old(self)@.with_place(name@, display_name@, time_zone_id).1 is None
                    && e == RuhrError::StoreFull,
            },
    {
        match self.place_index(display_name) {
            Some(i) => {
                proof {
                    let v = self@;
                    let j = choose|j: int| v.place_at(j, display_name@);
                    assert(v.places[j].display_name == v.places[i as int].display_name);
                }
                Ok(self.places[i].id)
            },
            None => {
                if self.next_id == i64::MAX {
                    return Err(RuhrError::StoreFull);
                }
                let id = self.next_id;
                let ghost before = self@;
                self.places.push(
                    PlaceRecord {
                        id,
                        name: name.clone(),
                        display_name: display_name.clone(),
                        time_zone_id,
                    },
                );
                self.next_id = id + 1;
                proof {
                    assert(self@.places =~= before.places.push(
                        PlaceRow { id, name: name@, display_name: display_name@, time_zone_id },
                    ));
                    assert(self@.zones =~= before.zones);
                    assert(self@.aliases =~= before.aliases);
                }
                Ok(id)
            },
        }
    }

    /// Binds an alias name to a place, replacing the binding of any name
    /// equal to it up to ASCII case.
    pub fn upsert_alias(&mut self, name: &String, place_id: i64) -> (r: Result<(), RuhrError>)
        requires
            old(self)@.wf(),
        ensures
            final(self)@ == old(self)@.with_alias(name@, place_id).0,
            r is Ok <==> old(self)@.with_alias(name@, place_id).1,
            r matches Err(e) ==> e == RuhrError::StoreFull,
    {
        match self.alias_position(name) {
            Some(i) => {
                let ghost before = self@;
                let id = self.aliases[i].id;
                self.aliases.remove(i);
                self.aliases.insert(i, AliasRecord { id, name: name.clone(), place_id });
                proof {
                    let j = choose|j: int| before.alias_at(j, name@);
                    assert(ascii_lower(before.aliases[j].name) == ascii_lower(
                        before.aliases[i as int].name,
                    ));
                    assert(self@.aliases =~= before.aliases.update(
                        i as int,
                        AliasRow { id, name: name@, place_id },
                    ));
                    assert(self@.zones =~= before.zones);
                    assert(self@.places =~= before.places);
                }
                Ok(())
            },
            None => {
                if self.next_id == i64::MAX {
                    return Err(RuhrError::StoreFull);
                }
                let id = self.next_id;
                let ghost before = self@;
                self.aliases.push(AliasRecord { id, name: name.clone(), place_id });
                self.next_id = id + 1;
                proof {
                    assert(self@.aliases =~= before.aliases.push(
                        AliasRow { id, name: name@, place_id },
                    ));
                    assert(self@.zones =~= before.zones);
                    assert(self@.places =~= before.places);
                }
                Ok(())
            },
        }
    }
}

impl Store {
    /// Looks a name up as an alias, up to ASCII case, and joins its place
    /// with the place's time zone.
    pub fn get_place(&self, name: &String) -> (r: Result<PlaceWithTimeZone, RuhrError>)
        requires
            self@.wf(),
        ensures
            lookup_outcome(self@.lookup(name@), r),
    {
        let ghost v = self@;
        let a = match self.alias_position(name) {
            Some(a) => a,
            None => return Err(RuhrError::NotFound),
        };
        proof {
            let j = v.alias_index(name@);
            assert(ascii_lower(v.aliases[j].name) == ascii_lower(v.aliases[a as int].name));
        }
        let place_id = self.aliases[a].place_id;
        let p = match self.place_index_by_id(place_id) {
            Some(p) => p,
            None => return Err(RuhrError::NotFound),
        };
        proof {
            let j = choose|j: int| v.place_id_at(j, place_id);
            assert(v.places[j].id == v.places[p as int].id);
        }
        let zone_id = self.places[p].time_zone_id;
        let z = match self.zone_index_by_id(zone_id) {
            Some(z) => z,
            None => return Err(RuhrError::DataIntegrityError(Fault::ZoneRecordMissing)),
        };
        proof {
            let j = choose|j: int| v.zone_id_at(j, zone_id);
            assert(v.zones[j].id == v.zones[z as int].id);
        }
        let time_zone = self.time_zones[z].name.clone();
        match parse_tz(&time_zone) {
            None => Err(RuhrError::DataIntegrityError(Fault::ZoneUnknown)),
            Some(_) => Ok(
                PlaceWithTimeZone {
                    id: self.places[p].id,
                    name: self.places[p].name.clone(),
                    display_name: self.places[p].display_name.clone(),
                    time_zone,
                },
            ),
        }
    }

    /// Records a resolved candidate with the name of its zone under an
    /// alias, then reads the place back through that alias. A zone name the
    /// time zone database does not know is refused before anything is
    /// written.
    pub fn add_place(
        &mut self,
        place: &OpenStreetMapPlace,
        time_zone: &String,
        alias: String,
    ) -> (r: Result<PlaceWithTimeZone, RuhrError>)
        requires
            old(self)@.wf(),
        ensures
            final(self)@.wf(),
            old(self)@.linked() ==> final(self)@.linked(),
            !tz_known(time_zone@) ==> final(self)@ == old(self)@ && r == Err::<
                PlaceWithTimeZone,
                RuhrError,
            >(RuhrError::DataIntegrityError(Fault::ZoneUnknown)),
            tz_known(time_zone@) ==> {
                let (w, placed) = old(self)@.with_resolved(
                    place.name@,
                    place.display_name@,
                    time_zone@,
                    alias@,
                );
                &&& final(self)@ == w
                &&& placed is None ==> r == Err::<PlaceWithTimeZone, RuhrError>(
                    RuhrError::StoreFull,
                )
                &&& placed is Some ==> lookup_outcome(w.lookup(alias@), r)
            },
    {
        if parse_tz(time_zone).is_none() {
            return Err(RuhrError::DataIntegrityError(Fault::ZoneUnknown));
        }
        proof {
            lemma_with_resolved(
                self@,
                place.name@,
                place.display_name@,
                time_zone@,
                alias@,
            );
            lemma_with_zone(self@, time_zone@);
        }
        let zone_id = self.find_time_zone_or_create(time_zone)?;
        proof {
            lemma_with_place(self@, place.name@, place.display_name@, zone_id);
        }
        let place_id = self.find_place_or_create(&place.name, &place.display_name, zone_id)?;
        self.upsert_alias(&alias, place_id)?;
        self.get_place(&alias)
    }
}

impl Store {
    /// The time zone records, in the order they were added.
    pub fn time_zones(&self) -> (r: &Vec<TimeZoneRecord>)
        ensures
            r@.map_values(|z: TimeZoneRecord| z@) == self@.zones,
    {
        &self.time_zones
    }

    /// The place records, in the order they were added.
    pub fn places(&self) -> (r: &Vec<PlaceRecord>)
        ensures
            r@.map_values(|p: PlaceRecord| p@) == self@.places,
    {
        &self.places
    }

    /// The alias records, in the order they were added.
    pub fn aliases(&self) -> (r: &Vec<AliasRecord>)
        ensures
            r@.map_values(|a: AliasRecord| a@) == self@.aliases,
    {
        &self.aliases
    }

    /// Whether some alias record has this identifier.
    fn alias_id_taken(&self, id: i64) -> (r: bool)
        ensures
            r <==> exists|k: int| 0 <= k < self@.aliases.len() && self@.aliases[k].id == id,
    {
        let mut i: usize = 0;
        while i < self.aliases.len()
            invariant
                i <= self.aliases@.len(),
                forall|k: int| 0 <= k < i ==> self@.aliases[k].id != id,
            decreases self.aliases@.len() - i,
        {
            if self.aliases[i].id == id {
                assert(self@.aliases[i as int].id == id);
                return true;
            }
            i = i + 1;
        }
        false
    }

    /// Brings back a stored time zone record. It is taken when its
    /// identifier is positive, below `i64::MAX` and unused, and its name is
    /// new; otherwise the store is left as it is.
    pub fn restore_time_zone(&mut self, record: TimeZoneRecord) -> (r: bool)
        requires
            old(self)@.wf(),
        ensures
            final(self)@.wf(),
            old(self)@.linked() ==> final(self)@.linked(),
            r <==> 1 <= record.id < i64::MAX && !old(self)@.has_zone(record.name@)
                && !old(self)@.has_zone_id(record.id),
            r ==> final(self)@.zones == old(self)@.zones.push(record@),
            r ==> final(self)@.places == old(self)@.places,
            r ==> final(self)@.aliases == old(self)@.aliases,
            !r ==> final(self)@ == old(self)@,
    {
        if record.id < 1 || record.id == i64::MAX {
            return false;
        }
        if self.zone_index(&record.name).is_some() || self.zone_index_by_id(record.id).is_some() {
            return false;
        }
        let ghost v = self@;
        let ghost row = record@;
        let id = record.id;
        self.time_zones.push(record);
        if self.next_id <= id {
            self.next_id = id + 1;
        }
        proof {
            let w = self@;
            let n = v.zones.len() as int;
            assert(w.zones =~= v.zones.push(row));
            assert(w.places =~= v.places);
            assert(w.aliases =~= v.aliases);
            assert forall|a: int, b: int|
                0 <= a < w.zones.len() && 0 <= b < w.zones.len() && (#[trigger] w.zones[a]).name
                    == (#[trigger] w.zones[b]).name implies a == b by {
                if a == n && b != n {
                    assert(v.zone_at(b, row.name));
                }
                if b == n && a != n {
                    assert(v.zone_at(a, row.name));
                }
            }
            assert forall|a: int, b: int|
                0 <= a < w.zones.len() && 0 <= b < w.zones.len() && (#[trigger] w.zones[a]).id
                    == (#[trigger] w.zones[b]).id implies a == b by {
                if a == n && b != n {
                    assert(v.zone_id_at(b, row.id));
                }
                if b == n && a != n {
                    assert(v.zone_id_at(a, row.id));
                }
            }
            if v.linked() {
                assert forall|k: int| 0 <= k < w.places.len() implies w.has_zone_id(
                    #[trigger] w.places[k].time_zone_id,
                ) by {
                    assert(v.has_zone_id(v.places[k].time_zone_id));
                    let m = choose|m: int| v.zone_id_at(m, v.places[k].time_zone_id);
                    assert(w.zone_id_at(m, v.places[k].time_zone_id));
                }
                assert forall|k: int| 0 <= k < w.aliases.len() implies w.has_place_id(
                    #[trigger] w.aliases[k].place_id,
                ) by {
                    assert(v.has_place_id(v.aliases[k].place_id));
                    let m = choose|m: int| v.place_id_at(m, v.aliases[k].place_id);
                    assert(w.place_id_at(m, v.aliases[k].place_id));
                }
            }
        }
        true
    }

    /// Brings back a stored place record. It is taken when its identifier is
    /// positive, below `i64::MAX` and unused, its display name is new and
    /// its time zone is stored; otherwise the store is left as it is.
    pub fn restore_place(&mut self, record: PlaceRecord) -> (r: bool)
        requires
            old(self)@.wf(),
        ensures
            final(self)@.wf(),
            old(self)@.linked() ==> final(self)@.linked(),
            r <==> 1 <= record.id < i64::MAX && !old(self)@.has_place(record.display_name@)
                && !old(self)@.has_place_id(record.id) && old(self)@.has_zone_id(
                record.time_zone_id,
            ),
            r ==> final(self)@.places == old(self)@.places.push(record@),
            r ==> final(self)@.zones == old(self)@.zones,
            r ==> final(self)@.aliases == old(self)@.aliases,
            !r ==> final(self)@ == old(self)@,
    {
        if record.id < 1 || record.id == i64::MAX {
            return false;
        }
        if self.place_index(&record.display_name).is_some() || self.place_index_by_id(
            record.id,
        ).is_some() || self.zone_index_by_id(record.time_zone_id).is_none() {
            return false;
        }
        let ghost v = self@;
        let ghost row = record@;
        let id = record.id;
        self.places.push(record);
        if self.next_id <= id {
            self.next_id = id + 1;
        }
        proof {
            let w = self@;
            let n = v.places.len() as int;
            assert(w.places =~= v.places.push(row));
            assert(w.zones =~= v.zones);
            assert(w.aliases =~= v.aliases);
            assert forall|a: int, b: int|
                0 <= a < w.places.len() && 0 <= b < w.places.len()
                    && (#[trigger] w.places[a]).display_name == (#[trigger] w.places[b]).display_name
                    implies a == b by {
                if a == n && b != n {
                    assert(v.place_at(b, row.display_name));
                }
                if b == n && a != n {
                    assert(v.place_at(a, row.display_name));
                }
            }
            assert forall|a: int, b: int|
                0 <= a < w.places.len() && 0 <= b < w.places.len() && (#[trigger] w.places[a]).id
                    == (#[trigger] w.places[b]).id implies a == b by {
                if a == n && b != n {
                    assert(v.place_id_at(b, row.id));
                }
                if b == n && a != n {
                    assert(v.place_id_at(a, row.id));
                }
            }
            if v.linked() {
                assert forall|k: int| 0 <= k < w.places.len() implies w.has_zone_id(
                    #[trigger] w.places[k].time_zone_id,
                ) by {
                    let t = w.places[k].time_zone_id;
                    if k < n {
                        assert(v.has_zone_id(v.places[k].time_zone_id));
                    }
                    let m = choose|m: int| v.zone_id_at(m, t);
                    assert(w.zone_id_at(m, t));
                }
                assert forall|k: int| 0 <= k < w.aliases.len() implies w.has_place_id(
                    #[trigger] w.aliases[k].place_id,
                ) by {
                    assert(v.has_place_id(v.aliases[k].place_id));
                    let m = choose|m: int| v.place_id_at(m, v.aliases[k].place_id);
                    assert(w.place_id_at(m, v.aliases[k].place_id));
                }
            }
        }
        true
    }

    /// Brings back a stored alias record. It is taken when its identifier is
    /// positive, below `i64::MAX` and unused, no alias equal to its name up
    /// to ASCII case is stored, and its place is stored; otherwise the store
    /// is left as it is.
    pub fn restore_alias(&mut self, record: AliasRecord) -> (r: bool)
        requires
            old(self)@.wf(),
        ensures
            final(self)@.wf(),
            old(self)@.linked() ==> final(self)@.linked(),
            r <==> 1 <= record.id < i64::MAX && !old(self)@.has_alias(record.name@) && !(exists|
                k: int,
            |
                0 <= k < old(self)@.aliases.len() && old(self)@.aliases[k].id == record.id)
                && old(self)@.has_place_id(record.place_id),
            r ==> final(self)@.aliases == old(self)@.aliases.push(record@),
            r ==> final(self)@.zones == old(self)@.zones,
            r ==> final(self)@.places == old(self)@.places,
            !r ==> final(self)@ == old(self)@,
    {
        if record.id < 1 || record.id == i64::MAX {
            return false;
        }
        if self.alias_position(&record.name).is_some() || self.alias_id_taken(record.id)
            || self.place_index_by_id(record.place_id).is_none() {
            return false;
        }
        let ghost v = self@;
        let ghost row = record@;
        let id = record.id;
        self.aliases.push(record);
        if self.next_id <= id {
            self.next_id = id + 1;
        }
        proof {
            let w = self@;
            let n = v.aliases.len() as int;
            assert(w.aliases =~= v.aliases.push(row));
            assert(w.zones =~= v.zones);
            assert(w.places =~= v.places);
            assert forall|a: int, b: int|
                0 <= a < w.aliases.len() && 0 <= b < w.aliases.len() && ascii_lower(
                    (#[trigger] w.aliases[a]).name,
                ) == ascii_lower((#[trigger] w.aliases[b]).name) implies a == b by {
                if a == n && b != n {
                    assert(v.alias_at(b, row.name));
                }
                if b == n && a != n {
                    assert(v.alias_at(a, row.name));
                }
            }
            if v.linked() {
                assert forall|k: int| 0 <= k < w.aliases.len() implies w.has_place_id(
                    #[trigger] w.aliases[k].place_id,
                ) by {
                    let t = w.aliases[k].place_id;
                    if k < n {
                        assert(v.has_place_id(v.aliases[k].place_id));
                    }
                    let m = choose|m: int| v.place_id_at(m, t);
                    assert(w.place_id_at(m, t));
                }
                assert forall|k: int| 0 <= k < w.places.len() implies w.has_zone_id(
                    #[trigger] w.places[k].time_zone_id,
                ) by {
                    assert(v.has_zone_id(v.places[k].time_zone_id));
                    let m = choose|m: int| v.zone_id_at(m, v.places[k].time_zone_id);
                    assert(w.zone_id_at(m, v.places[k].time_zone_id));
                }
            }
        }
        true
    }
}

} // verus!
