//! Resolution of a query to a place, cache first. The decisions stand here;
//! the caller performs each step that needs the outside world (a geocoding
//! search, a choice by the user, a zone lookup by coordinates) and hands the
//! result back.

use vstd::prelude::*;
use crate::store::{Lookup, Store};
use crate::text::{eq_ignore_ascii_case, same_alias, tz_known};
use crate::types::{Fault, OpenStreetMapPlace, PlaceWithTimeZone, RuhrError};

verus! {

/// What the caller is to do next.
#[derive(Debug, Clone, PartialEq, Eq)]
pub enum Step {
    /// The resolution is over with this place.
    Done(PlaceWithTimeZone),
    /// Ask the geocoder for the candidates matching this text.
    Search(String),
    /// Let the user choose one of these display names, or cancel.
    Choose(Vec<String>),
    /// Find the zone name at these latitude and longitude texts.
    LocateZone { lat: String, lon: String },
    /// The resolution is over without a place.
    Failed(RuhrError),
}

/// Where a resolution stands.
#[derive(Debug, Clone, PartialEq, Eq)]
pub enum Stage {
    Lookup,
    Searching,
    Choosing(Vec<OpenStreetMapPlace>),
    Locating(OpenStreetMapPlace),
    Finished,
}

/// One resolution of a query, with the alias the user asked for, if any.
#[derive(Debug, Clone, PartialEq, Eq)]
pub struct Resolution {
    query: String,
    alias: Option<String>,
    stage: Stage,
}

impl Resolution {
    pub closed spec fn query(&self) -> Seq<char> {
        self.query@
    }

    pub closed spec fn requested_alias(&self) -> Option<Seq<char>> {
        match self.alias {
            Some(a) => Some(a@),
            None => None,
        }
    }

    pub closed spec fn stage(&self) -> Stage {
        self.stage
    }

    /// The alias a new place is recorded under: the requested one, else the
    /// query as it was typed.
    pub open spec fn binding(&self) -> Seq<char> {
        match self.requested_alias() {
            Some(a) => a,
            None => self.query(),
        }
    }

    pub fn new(query: String, alias: Option<String>) -> (r: Resolution)
        ensures
            r.query() == query@,
            r.requested_alias() == (match alias {
                Some(a) => Some(a@),
                None => None::<Seq<char>>,
            }),
            r.stage() == Stage::Lookup,
    {
        Resolution { query, alias, stage: Stage::Lookup }
    }

    /// Looks the query up as an alias. On a hit the place is the answer, and
    /// a requested alias that differs from the query up to ASCII case is
    /// bound to it as well; on a miss the geocoder is to be asked.
    pub fn start(&mut self, store: &mut Store) -> (r: Step)
        requires
            old(self).stage() == Stage::Lookup,
            old(store)@.wf(),
        ensures
            final(store)@.wf(),
            old(store)@.linked() ==> final(store)@.linked(),
            final(self).query() == old(self).query(),
            final(self).requested_alias() == old(self).requested_alias(),
            match old(store)@.lookup(old(self).query()) {
                Lookup::Missing => {
                    &&& final(store)@ == old(store)@
                    &&& r matches Step::Search(q) && q@ == old(self).query()
                    &&& final(self).stage() == Stage::Searching
                },
                Lookup::Broken(f) => {
                    &&& final(store)@ == old(store)@
                    &&& r == Step::Failed(RuhrError::DataIntegrityError(f))
                    &&& final(self).stage() == Stage::Finished
                },
                Lookup::Found(p) => {
                    &&& final(self).stage() == Stage::Finished
                    &&& match old(self).requested_alias() {
                        Some(a) if !same_alias(a, old(self).query()) => {
                            let (w, bound) = old(store)@.with_alias(a, p.id);
                            &&& final(store)@ == w
                            &&& bound ==> (r matches Step::Done(d) && d@ == p)
                            &&& !bound ==> r == Step::Failed(RuhrError::StoreFull)
                        },
                        _ => {
                            &&& final(store)@ == old(store)@
                            &&& r matches Step::Done(d) && d@ == p
                        },
                    }
                },
            },
    {
        let looked = store.get_place(&self.query);
        match looked {
            Ok(place) => {
                self.stage = Stage::Finished;
                match &self.alias {
                    Some(a) => {
                        if eq_ignore_ascii_case(a, &self.query) {
                            Step::Done(place)
                        } else {
                            proof {
                                crate::store::lemma_with_alias(store@, a@, place.id);
                            }
                            match store.upsert_alias(a, place.id) {
                                Ok(()) => Step::Done(place),
                                Err(e) => Step::Failed(e),
                            }
                        }
                    },
                    None => Step::Done(place),
                }
            },
            Err(RuhrError::NotFound) => {
                self.stage = Stage::Searching;
                Step::Search(self.query.clone())
            },
            Err(e) => {
                self.stage = Stage::Finished;
                Step::Failed(e)
            },
        }
    }
}

/// A field-by-field copy of a candidate.
fn copy_place(p: &OpenStreetMapPlace) -> (r: OpenStreetMapPlace)
    ensures
        r == *p,
{
    OpenStreetMapPlace {
        place_id: p.place_id,
        licence: p.licence.clone(),
        osm_type: p.osm_type.clone(),
        osm_id: p.osm_id,
        lat: p.lat.clone(),
        lon: p.lon.clone(),
        category: p.category.clone(),
        type_field: p.type_field.clone(),
        place_rank: p.place_rank,
        addresstype: p.addresstype.clone(),
        name: p.name.clone(),
        display_name: p.display_name.clone(),
    }
}

/// The display names of the candidates, in their order.
pub open spec fn display_names(candidates: Seq<OpenStreetMapPlace>) -> Seq<Seq<char>> {
    candidates.map_values(|c: OpenStreetMapPlace| c.display_name@)
}

impl Resolution {
    /// Takes the geocoder's answer. No candidate ends the resolution with
    /// `NotFound`; otherwise the user is to choose among them.
    pub fn on_candidates(&mut self, candidates: Vec<OpenStreetMapPlace>) -> (r: Step)
        requires
            old(self).stage() == Stage::Searching,
        ensures
            final(self).query() == old(self).query(),
            final(self).requested_alias() == old(self).requested_alias(),
            candidates@.len() == 0 ==> r == Step::Failed(RuhrError::NotFound) && final(self).stage()
                == Stage::Finished,
            candidates@.len() > 0 ==> {
                &&& final(self).stage() == Stage::Choosing(candidates)
                &&& r matches Step::Choose(names)
                &&& names@.map_values(|n: String| n@) == display_names(candidates@)
            },
    {
        if candidates.len() == 0 {
            self.stage = Stage::Finished;
            return Step::Failed(RuhrError::NotFound);
        }
        let mut names: Vec<String> = Vec::new();
        let mut i: usize = 0;
        while i < candidates.len()
            invariant
                i <= candidates@.len(),
                names@.len() == i,
                forall|k: int| 0 <= k < i ==> (#[trigger] names@[k])@ == candidates@[k].display_name@,
            decreases candidates@.len() - i,
        {
            names.push(candidates[i].display_name.clone());
            i = i + 1;
        }
        proof {
            assert(names@.map_values(|n: String| n@) =~= display_names(candidates@));
        }
        self.stage = Stage::Choosing(candidates);
        Step::Choose(names)
    }

    /// Takes the user's choice, a position among the candidates. No choice,
    /// or a position past the end, ends the resolution as cancelled;
    /// otherwise the zone at the chosen candidate's coordinates is wanted.
    pub fn on_choice(&mut self, choice: Option<usize>) -> (r: Step)
        requires
            old(self).stage() is Choosing,
        ensures
            final(self).query() == old(self).query(),
            final(self).requested_alias() == old(self).requested_alias(),
            ({
                let candidates = old(self).stage()->Choosing_0@;
                match choice {
                    Some(i) if i < candidates.len() => {
                        &&& final(self).stage() == Stage::Locating(candidates[i as int])
                        &&& r matches Step::LocateZone { lat, lon }
                        &&& lat@ == candidates[i as int].lat@
                        &&& lon@ == candidates[i as int].lon@
                    },
                    _ => r == Step::Failed(RuhrError::Aborted) && final(self).stage()
                        == Stage::Finished,
                }
            }),
    {
        let step = match &self.stage {
            Stage::Choosing(candidates) => {
                match choice {
                    Some(i) => {
                        if i < candidates.len() {
                            let chosen = copy_place(&candidates[i]);
                            let step = Step::LocateZone {
                                lat: chosen.lat.clone(),
                                lon: chosen.lon.clone(),
                            };
                            self.stage = Stage::Locating(chosen);
                            return step;
                        }
                        Step::Failed(RuhrError::Aborted)
                    },
                    None => Step::Failed(RuhrError::Aborted),
                }
            },
            _ => Step::Failed(RuhrError::Aborted),
        };
        self.stage = Stage::Finished;
        step
    }
}

/// A lookup's result, as the step that ends a resolution with it.
pub open spec fn step_outcome(l: Lookup, r: Step) -> bool {
    match l {
        Lookup::Missing => r == Step::Failed(RuhrError::NotFound),
        Lookup::Broken(f) => r == Step::Failed(RuhrError::DataIntegrityError(f)),
        Lookup::Found(v) => r matches Step::Done(p) && p@ == v,
    }
}

impl Resolution {
    /// Takes the zone name found at the chosen candidate's coordinates and
    /// records the candidate under the requested alias, or under the query
    /// when none was requested. The resolution ends with the place as read
    /// back through that alias.
    pub fn on_zone(&mut self, store: &mut Store, zone: &String) -> (r: Step)
        requires
            old(self).stage() is Locating,
            old(store)@.wf(),
        ensures
            final(store)@.wf(),
            old(store)@.linked() ==> final(store)@.linked(),
            final(self).stage() == Stage::Finished,
            final(self).query() == old(self).query(),
            final(self).requested_alias() == old(self).requested_alias(),
            !tz_known(zone@) ==> final(store)@ == old(store)@ && r == Step::Failed(
                RuhrError::DataIntegrityError(Fault::ZoneUnknown),
            ),
            tz_known(zone@) ==> {
                let c = old(self).stage()->Locating_0;
                let (w, placed) = old(store)@.with_resolved(
                    c.name@,
                    c.display_name@,
                    zone@,
                    old(self).binding(),
                );
                &&& final(store)@ == w
                &&& placed is None ==> r == Step::Failed(RuhrError::StoreFull)
                &&& placed is Some ==> step_outcome(w.lookup(old(self).binding()), r)
            },
    {
        let alias = match &self.alias {
            Some(a) => a.clone(),
            None => self.query.clone(),
        };
        let step = match &self.stage {
            Stage::Locating(chosen) => {
                match store.add_place(chosen, zone, alias) {
                    Ok(place) => Step::Done(place),
                    Err(e) => Step::Failed(e),
                }
            },
            _ => Step::Failed(RuhrError::Aborted),
        };
        self.stage = Stage::Finished;
        step
    }

    /// Ends the resolution with an error met while performing a step: a
    /// network failure, or coordinates that are not numbers.
    pub fn on_error(&mut self, error: RuhrError) -> (r: Step)
        ensures
            final(self).stage() == Stage::Finished,
            final(self).query() == old(self).query(),
            final(self).requested_alias() == old(self).requested_alias(),
            r == Step::Failed(error),
    {
        self.stage = Stage::Finished;
        Step::Failed(error)
    }
}

} // verus!
