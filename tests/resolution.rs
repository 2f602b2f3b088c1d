use ruhr::{
    AliasRecord, Fault, OpenStreetMapPlace, PlaceRecord, PlaceWithTimeZone, Resolution, RuhrError,
    Step, Store, TimeZoneRecord,
};

fn candidate(name: &str, display_name: &str, lat: &str, lon: &str) -> OpenStreetMapPlace {
    OpenStreetMapPlace {
        name: name.to_string(),
        display_name: display_name.to_string(),
        lat: lat.to_string(),
        lon: lon.to_string(),
        ..OpenStreetMapPlace::default()
    }
}

/// Runs a resolution through every step, answering with the given candidates,
/// choosing the first one and giving the zone name.
fn resolve_fresh(
    store: &mut Store,
    query: &str,
    alias: Option<&str>,
    found: OpenStreetMapPlace,
    zone: &str,
) -> Step {
    let mut r = Resolution::new(query.to_string(), alias.map(|a| a.to_string()));
    assert_eq!(r.start(store), Step::Search(query.to_string()));
    match r.on_candidates(vec![found]) {
        Step::Choose(_) => {}
        other => panic!("unexpected step {:?}", other),
    }
    match r.on_choice(Some(0)) {
        Step::LocateZone { .. } => {}
        other => panic!("unexpected step {:?}", other),
    }
    r.on_zone(store, &zone.to_string())
}

fn done(step: Step) -> PlaceWithTimeZone {
    match step {
        Step::Done(p) => p,
        other => panic!("expected a place, got {:?}", other),
    }
}

#[test]
fn berlin_resolves_then_comes_from_the_cache() {
    let mut store = Store::new();
    let mut r = Resolution::new("Berlin".to_string(), None);
    assert_eq!(r.start(&mut store), Step::Search("Berlin".to_string()));
    let berlin = candidate("Berlin", "Berlin, Germany", "52.52", "13.40");
    assert_eq!(
        r.on_candidates(vec![berlin]),
        Step::Choose(vec!["Berlin, Germany".to_string()])
    );
    assert_eq!(
        r.on_choice(Some(0)),
        Step::LocateZone { lat: "52.52".to_string(), lon: "13.40".to_string() }
    );
    let place = done(r.on_zone(&mut store, &"Europe/Berlin".to_string()));
    assert_eq!(place.name, "Berlin");
    assert_eq!(place.display_name, "Berlin, Germany");
    assert_eq!(place.time_zone, "Europe/Berlin");
    assert_eq!(place.tz().map(|t| t.name()), Some("Europe/Berlin"));

    let mut again = Resolution::new("Berlin".to_string(), None);
    assert_eq!(again.start(&mut store), Step::Done(place.clone()));
    assert_eq!(store.get_place(&"Berlin".to_string()), Ok(place));
}

#[test]
fn requested_alias_replaces_the_query_as_binding() {
    let mut store = Store::new();
    let tokyo = candidate("Tokyo", "Tokyo, Japan", "35.68", "139.76");
    let place = done(resolve_fresh(&mut store, "tok", Some("tokyo"), tokyo, "Asia/Tokyo"));
    assert_eq!(store.get_place(&"tokyo".to_string()), Ok(place));
    assert_eq!(store.get_place(&"tok".to_string()), Err(RuhrError::NotFound));
    assert_eq!(store.aliases().len(), 1);
    assert_eq!(store.aliases()[0].name, "tokyo");
}

#[test]
fn no_candidates_is_not_found() {
    let mut store = Store::new();
    let mut r = Resolution::new("Atlantis".to_string(), None);
    assert_eq!(r.start(&mut store), Step::Search("Atlantis".to_string()));
    assert_eq!(r.on_candidates(vec![]), Step::Failed(RuhrError::NotFound));
    assert_eq!(store.places().len(), 0);
}

#[test]
fn cached_alias_needs_no_search() {
    let mut store = Store::new();
    let lima = candidate("Lima", "Lima, Peru", "-12.04", "-77.03");
    let place = done(resolve_fresh(&mut store, "Lima", None, lima, "America/Lima"));
    let mut r = Resolution::new("Lima".to_string(), None);
    assert_eq!(r.start(&mut store), Step::Done(place));
}

#[test]
fn alias_lookup_ignores_case() {
    let mut store = Store::new();
    let paris = candidate("Paris", "Paris, France", "48.85", "2.35");
    let place = done(resolve_fresh(&mut store, "Paris", None, paris, "Europe/Paris"));
    assert_eq!(store.get_place(&"paris".to_string()), Ok(place.clone()));
    assert_eq!(store.get_place(&"PARIS".to_string()), Ok(place.clone()));
    let mut r = Resolution::new("pArIs".to_string(), None);
    assert_eq!(r.start(&mut store), Step::Done(place));
    assert_eq!(store.get_place(&"Pariss".to_string()), Err(RuhrError::NotFound));
}

#[test]
fn alias_rebinding_is_last_write_wins() {
    let mut store = Store::new();
    let a = candidate("New York", "New York, USA", "40.71", "-74.00");
    let b = candidate("Newark", "Newark, USA", "40.73", "-74.17");
    let first = store.add_place(&a, &"America/New_York".to_string(), "nyc".to_string()).unwrap();
    let second =
        store.add_place(&b, &"America/New_York".to_string(), "newark".to_string()).unwrap();
    assert_ne!(first.id, second.id);
    assert_eq!(store.get_place(&"nyc".to_string()), Ok(first));
    store.upsert_alias(&"NYC".to_string(), second.id).unwrap();
    assert_eq!(store.get_place(&"nyc".to_string()), Ok(second.clone()));
    let mut r = Resolution::new("nyc".to_string(), None);
    assert_eq!(r.start(&mut store), Step::Done(second));
    assert_eq!(store.aliases().len(), 2);
}

#[test]
fn find_place_or_create_is_idempotent() {
    let mut store = Store::new();
    let zone = store.find_time_zone_or_create(&"Europe/Rome".to_string()).unwrap();
    let name = "Rome".to_string();
    let display = "Rome, Italy".to_string();
    let first = store.find_place_or_create(&name, &display, zone).unwrap();
    let second = store.find_place_or_create(&name, &display, zone).unwrap();
    assert_eq!(first, second);
    assert_eq!(store.places().len(), 1);
}

#[test]
fn time_zone_record_is_shared() {
    let mut store = Store::new();
    let zone = "Europe/Madrid".to_string();
    let first = store.find_time_zone_or_create(&zone).unwrap();
    let second = store.find_time_zone_or_create(&zone).unwrap();
    assert_eq!(first, second);
    let madrid = candidate("Madrid", "Madrid, Spain", "40.41", "-3.70");
    let seville = candidate("Seville", "Seville, Spain", "37.38", "-5.98");
    store.add_place(&madrid, &zone, "madrid".to_string()).unwrap();
    store.add_place(&seville, &zone, "seville".to_string()).unwrap();
    assert_eq!(store.time_zones().len(), 1);
    assert_eq!(store.places().len(), 2);
    assert_eq!(store.places()[0].time_zone_id, first);
    assert_eq!(store.places()[1].time_zone_id, first);
}

#[test]
fn identifiers_count_up_from_one() {
    let mut store = Store::new();
    let oslo = candidate("Oslo", "Oslo, Norway", "59.91", "10.75");
    let place = store.add_place(&oslo, &"Europe/Oslo".to_string(), "oslo".to_string()).unwrap();
    assert_eq!(store.time_zones()[0].id, 1);
    assert_eq!(place.id, 2);
    assert_eq!(store.aliases()[0].id, 3);
}

#[test]
fn readding_a_place_keeps_the_stored_record() {
    let mut store = Store::new();
    let first = candidate("Cairo", "Cairo, Egypt", "30.04", "31.24");
    let place = store.add_place(&first, &"Africa/Cairo".to_string(), "cairo".to_string()).unwrap();
    let renamed = candidate("Al Qahira", "Cairo, Egypt", "30.04", "31.24");
    let again =
        store.add_place(&renamed, &"Africa/Cairo".to_string(), "qahira".to_string()).unwrap();
    assert_eq!(again, place);
    assert_eq!(store.places().len(), 1);
    assert_eq!(store.aliases().len(), 2);
}

#[test]
fn requested_alias_on_a_hit_adds_a_second_name() {
    let mut store = Store::new();
    let rome = candidate("Rome", "Rome, Italy", "41.89", "12.48");
    let place = done(resolve_fresh(&mut store, "Rome", None, rome, "Europe/Rome"));
    let mut r = Resolution::new("rome".to_string(), Some("home".to_string()));
    assert_eq!(r.start(&mut store), Step::Done(place.clone()));
    assert_eq!(store.get_place(&"home".to_string()), Ok(place.clone()));
    assert_eq!(store.get_place(&"Rome".to_string()), Ok(place));
    assert_eq!(store.aliases().len(), 2);
}

#[test]
fn requested_alias_equal_to_query_adds_nothing() {
    let mut store = Store::new();
    let rome = candidate("Rome", "Rome, Italy", "41.89", "12.48");
    done(resolve_fresh(&mut store, "Rome", None, rome, "Europe/Rome"));
    let mut r = Resolution::new("Rome".to_string(), Some("ROME".to_string()));
    assert!(matches!(r.start(&mut store), Step::Done(_)));
    assert_eq!(store.aliases().len(), 1);
    assert_eq!(store.aliases()[0].name, "Rome");
}

#[test]
fn unknown_zone_name_is_refused() {
    let mut store = Store::new();
    let mars = candidate("Olympus", "Olympus Mons, Mars", "18.65", "-133.8");
    let step = resolve_fresh(&mut store, "olympus", None, mars, "Mars/Olympus");
    assert_eq!(step, Step::Failed(RuhrError::DataIntegrityError(Fault::ZoneUnknown)));
    assert_eq!(store.time_zones().len(), 0);
    assert_eq!(store.places().len(), 0);
    assert_eq!(store.aliases().len(), 0);
}

#[test]
fn zone_names_are_matched_exactly() {
    let mut store = Store::new();
    let berlin = candidate("Berlin", "Berlin, Germany", "52.52", "13.40");
    let step = resolve_fresh(&mut store, "Berlin", None, berlin, "europe/berlin");
    assert_eq!(step, Step::Failed(RuhrError::DataIntegrityError(Fault::ZoneUnknown)));
}

#[test]
fn stored_zone_that_is_unknown_is_an_integrity_error() {
    let mut store = Store::new();
    assert!(store.restore_time_zone(TimeZoneRecord { id: 1, name: "Nowhere/Town".to_string() }));
    assert!(store.restore_place(PlaceRecord {
        id: 2,
        name: "Town".to_string(),
        display_name: "Town, Nowhere".to_string(),
        time_zone_id: 1,
    }));
    assert!(store.restore_alias(AliasRecord { id: 3, name: "town".to_string(), place_id: 2 }));
    assert_eq!(
        store.get_place(&"Town".to_string()),
        Err(RuhrError::DataIntegrityError(Fault::ZoneUnknown))
    );
    let mut r = Resolution::new("town".to_string(), None);
    assert_eq!(
        r.start(&mut store),
        Step::Failed(RuhrError::DataIntegrityError(Fault::ZoneUnknown))
    );
}

#[test]
fn cancelled_choice_is_aborted() {
    let mut store = Store::new();
    let mut r = Resolution::new("Springfield".to_string(), None);
    r.start(&mut store);
    let a = candidate("Springfield", "Springfield, Illinois", "39.80", "-89.64");
    let b = candidate("Springfield", "Springfield, Missouri", "37.21", "-93.29");
    assert_eq!(
        r.on_candidates(vec![a.clone(), b.clone()]),
        Step::Choose(vec![
            "Springfield, Illinois".to_string(),
            "Springfield, Missouri".to_string()
        ])
    );
    assert_eq!(r.on_choice(None), Step::Failed(RuhrError::Aborted));

    let mut r = Resolution::new("Springfield".to_string(), None);
    r.start(&mut store);
    r.on_candidates(vec![a, b]);
    assert_eq!(r.on_choice(Some(2)), Step::Failed(RuhrError::Aborted));
}

#[test]
fn second_candidate_can_be_chosen() {
    let mut store = Store::new();
    let mut r = Resolution::new("Springfield".to_string(), None);
    r.start(&mut store);
    let a = candidate("Springfield", "Springfield, Illinois", "39.80", "-89.64");
    let b = candidate("Springfield", "Springfield, Missouri", "37.21", "-93.29");
    r.on_candidates(vec![a, b.clone()]);
    assert_eq!(
        r.on_choice(Some(1)),
        Step::LocateZone { lat: "37.21".to_string(), lon: "-93.29".to_string() }
    );
    let place = done(r.on_zone(&mut store, &"America/Chicago".to_string()));
    assert_eq!(place.display_name, "Springfield, Missouri");
}

#[test]
fn network_failure_ends_the_resolution() {
    let mut store = Store::new();
    let mut r = Resolution::new("Quito".to_string(), None);
    r.start(&mut store);
    let err = RuhrError::NetworkError { connection_refused: true, status: None };
    assert_eq!(r.on_error(err.clone()), Step::Failed(err));
}

#[test]
fn store_full_when_identifiers_run_out() {
    let mut store = Store::new();
    assert!(store.restore_time_zone(TimeZoneRecord { id: i64::MAX - 1, name: "UTC".to_string() }));
    assert_eq!(
        store.find_time_zone_or_create(&"Europe/Paris".to_string()),
        Err(RuhrError::StoreFull)
    );
    assert_eq!(store.find_time_zone_or_create(&"UTC".to_string()), Ok(i64::MAX - 1));
    let paris = candidate("Paris", "Paris, France", "48.85", "2.35");
    assert_eq!(
        store.add_place(&paris, &"UTC".to_string(), "paris".to_string()),
        Err(RuhrError::StoreFull)
    );
}

#[test]
fn restore_refuses_conflicts() {
    let mut store = Store::new();
    assert!(store.restore_time_zone(TimeZoneRecord { id: 4, name: "Asia/Seoul".to_string() }));
    assert!(!store.restore_time_zone(TimeZoneRecord { id: 5, name: "Asia/Seoul".to_string() }));
    assert!(!store.restore_time_zone(TimeZoneRecord { id: 4, name: "Asia/Tokyo".to_string() }));
    assert!(!store.restore_time_zone(TimeZoneRecord { id: 0, name: "Asia/Tokyo".to_string() }));
    assert!(!store.restore_place(PlaceRecord {
        id: 6,
        name: "Seoul".to_string(),
        display_name: "Seoul, Korea".to_string(),
        time_zone_id: 9,
    }));
    assert!(store.restore_place(PlaceRecord {
        id: 6,
        name: "Seoul".to_string(),
        display_name: "Seoul, Korea".to_string(),
        time_zone_id: 4,
    }));
    assert!(!store.restore_alias(AliasRecord { id: 7, name: "seoul".to_string(), place_id: 8 }));
    assert!(store.restore_alias(AliasRecord { id: 7, name: "seoul".to_string(), place_id: 6 }));
    assert!(!store.restore_alias(AliasRecord { id: 8, name: "SEOUL".to_string(), place_id: 6 }));
    let place = store.get_place(&"Seoul".to_string()).unwrap();
    assert_eq!(place.id, 6);
    assert_eq!(place.time_zone, "Asia/Seoul");
    let zone = store.find_time_zone_or_create(&"Asia/Tokyo".to_string()).unwrap();
    assert_eq!(zone, 8);
}
