//! Properties of the cache that hold across operations: repeated
//! find-or-create calls change nothing, zone records are shared, alias
//! bindings are last-write-wins and case-insensitive, and an alias recorded
//! by a resolution finds its place afterwards.

use vstd::prelude::*;
use crate::store::{
    lemma_with_alias, lemma_with_place, lemma_with_resolved, lemma_with_zone, Lookup, StoreView,
};
use crate::text::{ascii_lower, same_alias, tz_known};

verus! {

proof fn lemma_zone_id_is(u: StoreView, i: int, name: Seq<char>)
    requires
        u.wf(),
        u.zone_at(i, name),
    ensures
        u.has_zone(name),
        u.zone_id(name) == u.zones[i].id,
{
    let k = choose|k: int| u.zone_at(k, name);
    assert(u.zones[k].name == u.zones[i].name);
}

proof fn lemma_zone_by_id_is(u: StoreView, i: int, id: i64)
    requires
        u.wf(),
        u.zone_id_at(i, id),
    ensures
        u.has_zone_id(id),
        u.zone_by_id(id) == u.zones[i],
{
    let k = choose|k: int| u.zone_id_at(k, id);
    assert(u.zones[k].id == u.zones[i].id);
}

proof fn lemma_place_named_is(u: StoreView, i: int, display_name: Seq<char>)
    requires
        u.wf(),
        u.place_at(i, display_name),
    ensures
        u.has_place(display_name),
        u.place_named(display_name) == u.places[i],
{
    let k = choose|k: int| u.place_at(k, display_name);
    assert(u.places[k].display_name == u.places[i].display_name);
}

proof fn lemma_place_by_id_is(u: StoreView, i: int, id: i64)
    requires
        u.wf(),
        u.place_id_at(i, id),
    ensures
        u.has_place_id(id),
        u.place_by_id(id) == u.places[i],
{
    let k = choose|k: int| u.place_id_at(k, id);
    assert(u.places[k].id == u.places[i].id);
}

/// Once a resolution has recorded a place under an alias, looking that
/// alias up finds the place, so a later resolution of the alias ends at
/// once with it.
pub proof fn lemma_resolved_alias_found(
    v: StoreView,
    name: Seq<char>,
    display_name: Seq<char>,
    time_zone: Seq<char>,
    alias: Seq<char>,
)
    requires
        v.wf(),
        v.linked(),
        v.zones_known(),
        tz_known(time_zone),
    ensures
        ({
            let (w, placed) = v.with_resolved(name, display_name, time_zone, alias);
            &&& w.zones_known()
            &&& placed matches Some(place_id) ==> (w.lookup(alias) matches Lookup::Found(p)
                && p.id == place_id && p.display_name == display_name)
        }),
{
    lemma_with_resolved(v, name, display_name, time_zone, alias);
    lemma_with_zone(v, time_zone);
    let (w, placed) = v.with_resolved(name, display_name, time_zone, alias);
    let (w1, z) = v.with_zone(time_zone);
    assert forall|i: int| 0 <= i < w1.zones.len() implies tz_known(#[trigger] w1.zones[i].name) by {
        if i < v.zones.len() {
            assert(w1.zones[i] == v.zones[i]);
        }
    }
    if let Some(zone_id) = z {
        lemma_with_place(w1, name, display_name, zone_id);
        let (w2, p) = w1.with_place(name, display_name, zone_id);
        if let Some(place_id) = p {
            lemma_with_alias(w2, alias, place_id);
            assert(w.zones == w1.zones);
            let k = choose|k: int| w.place_id_at(k, place_id);
            lemma_place_by_id_is(w, k, place_id);
            let m = choose|m: int| w2.place_at(m, display_name);
            assert(w.place_at(m, display_name));
            lemma_place_named_is(w, m, display_name);
            let row = w.places[k];
            assert(w.has_zone_id(row.time_zone_id));
            let j = choose|j: int| w.zone_id_at(j, row.time_zone_id);
            lemma_zone_by_id_is(w, j, row.time_zone_id);
        }
    }
}

/// Finding or creating a place twice with the same display name leaves the
/// store as the first call left it and gives the same identifier.
pub proof fn lemma_find_place_idempotent(
    v: StoreView,
    name: Seq<char>,
    display_name: Seq<char>,
    time_zone_id: i64,
    name2: Seq<char>,
    time_zone_id2: i64,
)
    requires
        v.wf(),
    ensures
        ({
            let (w, r) = v.with_place(name, display_name, time_zone_id);
            r is Some ==> w.with_place(name2, display_name, time_zone_id2) == (w, r)
        }),
{
    lemma_with_place(v, name, display_name, time_zone_id);
    let (w, r) = v.with_place(name, display_name, time_zone_id);
    if let Some(id) = r {
        let k = choose|k: int| w.place_id_at(k, id);
        lemma_place_by_id_is(w, k, id);
    }
}

/// Finding or creating a zone twice with the same name leaves the store as
/// the first call left it and gives the same identifier.
pub proof fn lemma_find_zone_idempotent(v: StoreView, name: Seq<char>)
    requires
        v.wf(),
    ensures
        ({
            let (w, r) = v.with_zone(name);
            r is Some ==> w.with_zone(name) == (w, r)
        }),
{
    lemma_with_zone(v, name);
}

/// Two new places recorded with the same zone name refer to one zone
/// record, the only one with that name.
pub proof fn lemma_zone_shared(
    v: StoreView,
    name1: Seq<char>,
    display_name1: Seq<char>,
    alias1: Seq<char>,
    name2: Seq<char>,
    display_name2: Seq<char>,
    alias2: Seq<char>,
    time_zone: Seq<char>,
)
    requires
        v.wf(),
        !v.has_place(display_name1),
        !v.has_place(display_name2),
        display_name1 != display_name2,
    ensures
        ({
            let (v1, r1) = v.with_resolved(name1, display_name1, time_zone, alias1);
            let (u, r2) = v1.with_resolved(name2, display_name2, time_zone, alias2);
            r1 is Some && r2 is Some ==> {
                let t = u.place_named(display_name1).time_zone_id;
                &&& u.place_named(display_name2).time_zone_id == t
                &&& u.has_zone_id(t)
                &&& u.zone_by_id(t).name == time_zone
                &&& forall|i: int, j: int|
                    u.zone_at(i, time_zone) && u.zone_at(j, time_zone) ==> i == j
            }
        }),
{
    let (v1, r1) = v.with_resolved(name1, display_name1, time_zone, alias1);
    let (u, r2) = v1.with_resolved(name2, display_name2, time_zone, alias2);
    lemma_with_resolved(v, name1, display_name1, time_zone, alias1);
    lemma_with_resolved(v1, name2, display_name2, time_zone, alias2);
    if r1 is Some && r2 is Some {
        lemma_with_zone(v, time_zone);
        let (w1, z1) = v.with_zone(time_zone);
        let zone_id = z1->0;
        lemma_with_place(w1, name1, display_name1, zone_id);
        let (w2, p1) = w1.with_place(name1, display_name1, zone_id);
        let place1 = p1->0;
        lemma_with_alias(w2, alias1, place1);
        let n0 = v.places.len() as int;
        assert forall|i: int| !w1.place_at(i, display_name1) by {
            assert(!v.place_at(i, display_name1));
        }
        assert(v1.places == w2.places);
        assert(v1.places == v.places.push(
            crate::store::PlaceRow {
                id: place1,
                name: name1,
                display_name: display_name1,
                time_zone_id: zone_id,
            },
        ));
        // the zone already exists in v1 with the same identifier
        let iz = choose|i: int| w1.zone_at(i, time_zone);
        lemma_zone_id_is(w1, iz, time_zone);
        assert(v1.zones == w1.zones);
        assert(v1.zone_at(iz, time_zone));
        lemma_zone_id_is(v1, iz, time_zone);
        assert(v1.with_zone(time_zone) == (v1, Some(zone_id)));
        // the second place is new in v1
        assert forall|i: int| !v1.place_at(i, display_name2) by {
            if 0 <= i < n0 {
                assert(!v.place_at(i, display_name2));
            }
        }
        lemma_with_place(v1, name2, display_name2, zone_id);
        let (x2, p2) = v1.with_place(name2, display_name2, zone_id);
        let place2 = p2->0;
        lemma_with_alias(x2, alias2, place2);
        assert(u.places == x2.places);
        assert(u.zones == v1.zones);
        lemma_place_named_is(u, n0, display_name1);
        lemma_place_named_is(u, n0 + 1, display_name2);
        assert(u.zone_id_at(iz, zone_id));
        lemma_zone_by_id_is(u, iz, zone_id);
    }
}

/// After an alias is bound to a place, the alias and every name equal to
/// it up to ASCII case point to that place, whatever they pointed to before.
pub proof fn lemma_alias_last_write_wins(v: StoreView, alias: Seq<char>, place_id: i64)
    requires
        v.wf(),
    ensures
        ({
            let (w, bound) = v.with_alias(alias, place_id);
            bound ==> {
                &&& forall|other: Seq<char>|
                    #[trigger] same_alias(other, alias) ==> w.has_alias(other) && w.alias_target(
                        other,
                    ) == place_id
                &&& w.lookup(alias) matches Lookup::Found(p) ==> p.id == place_id
                &&& v.linked() && v.zones_known() && v.has_place_id(place_id) ==> w.lookup(
                    alias,
                ) is Found
            }
        }),
{
    lemma_with_alias(v, alias, place_id);
    let (w, bound) = v.with_alias(alias, place_id);
    if bound {
        assert forall|other: Seq<char>| #[trigger] same_alias(other, alias) implies w.has_alias(
            other,
        ) && w.alias_target(other) == place_id by {
            let i = w.alias_index(alias);
            assert(w.alias_at(i, other));
            let j = w.alias_index(other);
            assert(ascii_lower(w.aliases[j].name) == ascii_lower(w.aliases[i].name));
        }
        if w.has_place_id(place_id) {
            let k = choose|k: int| w.place_id_at(k, place_id);
            lemma_place_by_id_is(w, k, place_id);
        }
        if v.linked() && v.zones_known() && v.has_place_id(place_id) {
            assert(w.zones == v.zones);
            assert(w.places == v.places);
            let k = choose|k: int| v.place_id_at(k, place_id);
            assert(w.place_id_at(k, place_id));
            lemma_place_by_id_is(w, k, place_id);
            let t = w.places[k].time_zone_id;
            assert(v.has_zone_id(t));
            let j = choose|j: int| v.zone_id_at(j, t);
            assert(w.zone_id_at(j, t));
            lemma_zone_by_id_is(w, j, t);
        }
    }
}

/// Names equal up to ASCII case look up the same place.
pub proof fn lemma_alias_case_insensitive(v: StoreView, a: Seq<char>, b: Seq<char>)
    requires
        v.wf(),
        same_alias(a, b),
    ensures
        v.lookup(a) == v.lookup(b),
{
    assert forall|i: int| v.alias_at(i, a) <==> v.alias_at(i, b) by {}
    if v.has_alias(a) {
        let i = v.alias_index(a);
        assert(v.alias_at(i, b));
        let j = v.alias_index(b);
        assert(ascii_lower(v.aliases[j].name) == ascii_lower(v.aliases[i].name));
    } else {
        assert(!v.has_alias(b));
    }
}

} // verus!
