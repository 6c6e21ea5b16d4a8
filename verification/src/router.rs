//! The router: a pool of models in order of priority, and their breakers.
use crate::breaker::{
    after_5xx, after_backoff, after_check, after_probe_sent, after_pull_out, after_retry_on,
    after_success, availability, breaker_of, can_back_off, can_count_5xx, can_count_retry_on,
    Availability, BreakerEntry, CircuitBreaker, VendorBreaker, FULL_WEIGHT, MIN_BACKOFF_SECS,
};
use crate::catalog::{with_entries, ModelCatalog};
use crate::clock::{in_calendar, later_of, Clock, SystemClock, Timestamp};
use crate::config::{route_to, spec_next_refresh, ModelEntry, ModelEntryView, Route, RouterError};
use crate::selector::{
    entries_of, ids_of, lemma_one_more_look, lemma_soonest_after_looks, looked_at, next_pick,
    place_of, position, retry_after, selectable, soonest, sooner, RouteSelector,
    DEFAULT_RETRY_AFTER_SECS,
};
use crate::text::texts;
use vstd::prelude::*;

verus! {

/// What a probe is worth among candidates: less than a closed breaker, more
/// than any warm-up.
pub const PROBE_WEIGHT: u32 = 99;

/// What a look at a model's breaker shows it to be worth among candidates, 0
/// where it cannot be picked.
pub open spec fn worth(avail: Availability) -> u32 {
    match avail {
        Availability::Available => FULL_WEIGHT,
        Availability::ProbeAllowed { .. } => PROBE_WEIGHT,
        Availability::AvailableWithWeight(weight) => weight,
        Availability::Unavailable => 0,
    }
}

/// What a candidate is worth: nothing where the catalog does not know it, else
/// what its breaker shows.
pub open spec fn candidate_worth(
    catalog: Map<Seq<char>, ModelEntryView>,
    breakers: Map<Seq<char>, VendorBreaker>,
    id: Seq<char>,
    now: Timestamp,
) -> u32 {
    if catalog.contains_key(id) {
        worth(availability(after_check(breaker_of(breakers, id), now).state, now))
    } else {
        0
    }
}

/// The first of the candidates that are worth most, if any is worth something.
pub open spec fn best_candidate(
    catalog: Map<Seq<char>, ModelEntryView>,
    breakers: Map<Seq<char>, VendorBreaker>,
    ids: Seq<Seq<char>>,
    now: Timestamp,
) -> Option<int>
    decreases ids.len(),
{
    if ids.len() == 0 {
        None
    } else {
        let last = candidate_worth(catalog, breakers, ids.last(), now);
        match best_candidate(catalog, breakers, ids.drop_last(), now) {
            Some(i) => if candidate_worth(catalog, breakers, ids[i], now) < last {
                Some(ids.len() - 1)
            } else {
                Some(i)
            },
            None => if last > 0 {
                Some(ids.len() - 1)
            } else {
                None
            },
        }
    }
}

/// The best candidate is worth something, no candidate is worth more, and none
/// before it is worth as much. There is none only where all are worth nothing.
pub proof fn best_candidate_is_worth_most(
    catalog: Map<Seq<char>, ModelEntryView>,
    breakers: Map<Seq<char>, VendorBreaker>,
    ids: Seq<Seq<char>>,
    now: Timestamp,
)
    ensures
        match best_candidate(catalog, breakers, ids, now) {
            Some(i) => {
                &&& 0 <= i < ids.len()
                &&& candidate_worth(catalog, breakers, ids[i], now) > 0
                &&& forall|j: int|
                    0 <= j < ids.len() ==> candidate_worth(catalog, breakers, #[trigger] ids[j], now)
                        <= candidate_worth(catalog, breakers, ids[i], now)
                &&& forall|j: int|
                    0 <= j < i ==> candidate_worth(catalog, breakers, #[trigger] ids[j], now)
                        < candidate_worth(catalog, breakers, ids[i], now)
            },
            None => forall|j: int|
                0 <= j < ids.len() ==> candidate_worth(catalog, breakers, #[trigger] ids[j], now) == 0,
        },
    decreases ids.len(),
{
    if ids.len() > 0 {
        let front = ids.drop_last();
        best_candidate_is_worth_most(catalog, breakers, front, now);
        assert forall|j: int| 0 <= j < front.len() implies front[j] == #[trigger] ids[j] by {}
    }
}

/// The candidates that the catalog knows.
pub open spec fn known(
    catalog: Map<Seq<char>, ModelEntryView>,
    ids: Seq<Seq<char>>,
) -> Seq<Seq<char>> {
    ids.filter(|id: Seq<char>| catalog.contains_key(id))
}

/// A well-formed breaker is worth no more than a closed one.
proof fn lemma_worth_bound(breaker: &CircuitBreaker, id: Seq<char>, now: Timestamp)
    requires
        breaker.wf(),
    ensures
        worth(availability(after_check(breaker_of(breaker@, id), now).state, now)) <= FULL_WEIGHT,
{
    breaker.lemma_wf(id);
    let state = after_check(breaker_of(breaker@, id), now).state;
    if let BreakerEntry::Warmup { success_count, .. } = state {
        assert(1 <= success_count <= 4);
    }
}

/// A candidate that is worth as much as any can be ends the search.
proof fn lemma_search_ends(
    catalog: Map<Seq<char>, ModelEntryView>,
    breakers: Map<Seq<char>, VendorBreaker>,
    ids: Seq<Seq<char>>,
    k: int,
    i: int,
    now: Timestamp,
)
    requires
        0 <= i < k <= ids.len(),
        best_candidate(catalog, breakers, ids.take(k), now) == Some(i),
        candidate_worth(catalog, breakers, ids[i], now) == FULL_WEIGHT,
        forall|id: Seq<char>| #[trigger]
            candidate_worth(catalog, breakers, id, now) <= FULL_WEIGHT,
    ensures
        best_candidate(catalog, breakers, ids, now) == Some(i),
    decreases ids.len(),
{
    if k == ids.len() {
        assert(ids.take(k) =~= ids);
    } else {
        assert(ids.drop_last().take(k) =~= ids.take(k));
        lemma_search_ends(catalog, breakers, ids.drop_last(), k, i, now);
        assert(candidate_worth(catalog, breakers, ids.last(), now) <= FULL_WEIGHT);
    }
}

/// The pick of a model that has been looked at.
proof fn lemma_pick_after_look(
    before: Map<Seq<char>, VendorBreaker>,
    seen: Map<Seq<char>, VendorBreaker>,
    visited: Seq<Seq<char>>,
    id: Seq<char>,
    now: Timestamp,
)
    requires
        looked_at(before, seen, visited, None, now),
        visited.contains(id),
        selectable(breaker_of(before, id), now),
    ensures
        looked_at(
            before,
            seen.insert(id, after_probe_sent(breaker_of(seen, id), now)),
            visited,
            Some(id),
            now,
        ),
        !(availability(after_check(breaker_of(before, id), now).state, now) is ProbeAllowed)
            ==> looked_at(before, seen, visited, Some(id), now),
{
    assert(breaker_of(seen, id) == after_check(breaker_of(before, id), now));
    let sent = seen.insert(id, after_probe_sent(breaker_of(seen, id), now));
    assert forall|other: Seq<char>| other != id implies #[trigger] breaker_of(sent, other)
        == breaker_of(seen, other) by {}
}

/// How far the search among candidates goes: it ends at the first one that is
/// fully available.
pub open spec fn search_end(
    catalog: Map<Seq<char>, ModelEntryView>,
    breakers: Map<Seq<char>, VendorBreaker>,
    ids: Seq<Seq<char>>,
    now: Timestamp,
) -> int {
    match best_candidate(catalog, breakers, ids, now) {
        Some(i) if candidate_worth(catalog, breakers, ids[i], now) == FULL_WEIGHT => i + 1,
        _ => ids.len() as int,
    }
}

/// When a model that hit its rate limit is back: at its next refresh, or when
/// the upstream says, whichever is later. Where the calendar ends before what
/// the upstream says, the next refresh counts.
pub open spec fn rate_limit_until(
    entry: ModelEntryView,
    now: Timestamp,
    retry_after_secs: Option<u64>,
) -> Timestamp {
    let wait = match retry_after_secs {
        Some(secs) => secs as int,
        None => 0,
    };
    if in_calendar(now.secs + wait) {
        later_of(spec_next_refresh(entry, now), now.moved(wait))
    } else {
        spec_next_refresh(entry, now)
    }
}

/// Whether the answer to this model's probe is being waited for.
pub open spec fn probing(vb: VendorBreaker) -> bool {
    vb.state matches BreakerEntry::HalfOpen { probe_in_flight, .. } && probe_in_flight
}

/// A server error.
pub open spec fn is_5xx(status: u16) -> bool {
    500 <= status < 600
}

/// What the reply with this status makes of the model's breaker.
pub open spec fn after_reply(
    entry: ModelEntryView,
    vb: VendorBreaker,
    status: u16,
    retry_after_secs: Option<u64>,
    now: Timestamp,
) -> VendorBreaker {
    if status == 429 {
        if probing(vb) {
            after_backoff(vb, MIN_BACKOFF_SECS, now, "probe 429")
        } else {
            after_pull_out(vb, rate_limit_until(entry, now, retry_after_secs), "429")
        }
    } else if is_5xx(status) {
        if probing(vb) {
            after_backoff(vb, entry.cooldown_5xx_secs, now, "probe 5xx")
        } else {
            after_5xx(vb, entry.retry_count_5xx, now, entry.cooldown_5xx_secs)
        }
    } else if entry.retry_on.contains(status) {
        if probing(vb) {
            after_backoff(vb, entry.retry_on_cooldown_secs, now, "probe retry-on")
        } else {
            after_retry_on(vb, entry.retry_on_count, now, entry.retry_on_cooldown_secs)
        }
    } else {
        after_success(vb)
    }
}

/// The reply can be taken into account: counts have room, and a cool-down that
/// it starts ends within the calendar.
pub open spec fn can_take(
    entry: ModelEntryView,
    vb: VendorBreaker,
    status: u16,
    now: Timestamp,
) -> bool {
    if status == 429 {
        probing(vb) ==> can_back_off(vb, MIN_BACKOFF_SECS, now)
    } else if is_5xx(status) {
        if probing(vb) {
            can_back_off(vb, entry.cooldown_5xx_secs, now)
        } else {
            can_count_5xx(vb, entry.retry_count_5xx, now, entry.cooldown_5xx_secs)
        }
    } else if entry.retry_on.contains(status) {
        if probing(vb) {
            can_back_off(vb, entry.retry_on_cooldown_secs, now)
        } else {
            can_count_retry_on(vb, entry.retry_on_count, now, entry.retry_on_cooldown_secs)
        }
    } else {
        true
    }
}

/// Whether a reply of this model with this status sends the request on to the
/// next model: the catalog lists the code for the model.
pub open spec fn gives_way(router: RouterView, model_id: Seq<char>, status: u16) -> bool {
    router.catalog.contains_key(model_id) && router.catalog[model_id].retry_on.contains(status)
}

/// The router of a pool, with the clock that it reads.
pub struct Router<C> {
    pool: Vec<ModelEntry>,
    catalog: ModelCatalog,
    breaker: CircuitBreaker,
    clock: C,
}

/// The pool, the catalog and the breakers of a router.
pub struct RouterView {
    pub pool: Seq<ModelEntryView>,
    pub catalog: Map<Seq<char>, ModelEntryView>,
    pub breakers: Map<Seq<char>, VendorBreaker>,
}

impl<C> View for Router<C> {
    type V = RouterView;

    closed spec fn view(&self) -> RouterView {
        RouterView {
            pool: entries_of(self.pool@),
            catalog: self.catalog@,
            breakers: self.breaker@,
        }
    }
}

/// What `select` at the time `now` makes of a router, and what it answers.
pub open spec fn selected(
    before: RouterView,
    after: RouterView,
    model: Seq<char>,
    now: Timestamp,
    r: Result<Route, RouterError>,
) -> bool {
    let ids = ids_of(before.pool);
    &&& after.pool == before.pool
    &&& after.catalog == before.catalog
    &&& match place_of(ids, model) {
        None => {
            &&& r matches Err(RouterError::UnknownModel(name)) && name@ == model
            &&& after.breakers == before.breakers
        },
        Some(start) => match next_pick(ids, before.breakers, start, now) {
            Some(i) => {
                &&& r matches Ok(route) && route@ == route_to(before.pool[i])
                &&& looked_at(
                    before.breakers,
                    after.breakers,
                    ids.subrange(start, i + 1),
                    Some(ids[i]),
                    now,
                )
            },
            None => {
                &&& r matches Err(RouterError::AllUnavailable { retry_after_secs })
                    && retry_after_secs == retry_after(ids, before.breakers, now)
                &&& looked_at(
                    before.breakers,
                    after.breakers,
                    ids.subrange(start, ids.len() as int),
                    None,
                    now,
                )
            },
        },
    }
}

/// What `select_candidates` at the time `now` makes of a router, and what it
/// answers.
pub open spec fn candidate_selected(
    before: RouterView,
    after: RouterView,
    ids: Seq<Seq<char>>,
    now: Timestamp,
    r: Result<Route, RouterError>,
) -> bool {
    let visited = known(
        before.catalog,
        ids.take(search_end(before.catalog, before.breakers, ids, now)),
    );
    &&& after.pool == before.pool
    &&& after.catalog == before.catalog
    &&& match best_candidate(before.catalog, before.breakers, ids, now) {
        Some(i) => {
            &&& r matches Ok(route) && route@ == route_to(before.catalog[ids[i]])
            &&& looked_at(before.breakers, after.breakers, visited, Some(ids[i]), now)
        },
        None => {
            &&& r matches Err(RouterError::AllUnavailable { retry_after_secs })
                && retry_after_secs == retry_after(ids, before.breakers, now)
            &&& looked_at(before.breakers, after.breakers, visited, None, now)
        },
    }
}

/// What a reply makes of a router: of the breaker of the model it came from,
/// if that is in the pool, and of nothing else.
pub open spec fn recorded(
    before: RouterView,
    after: RouterView,
    model_id: Seq<char>,
    status: u16,
    retry_after_secs: Option<u64>,
    now: Timestamp,
) -> bool {
    &&& after.pool == before.pool
    &&& after.catalog == before.catalog
    &&& after.breakers == (match place_of(ids_of(before.pool), model_id) {
        Some(i) => before.breakers.insert(
            model_id,
            after_reply(
                before.pool[i],
                breaker_of(before.breakers, model_id),
                status,
                retry_after_secs,
                now,
            ),
        ),
        None => before.breakers,
    })
}

/// A reply from this model can be taken into account.
pub open spec fn recordable(
    router: RouterView,
    model_id: Seq<char>,
    status: u16,
    now: Timestamp,
) -> bool {
    match place_of(ids_of(router.pool), model_id) {
        Some(i) => can_take(router.pool[i], breaker_of(router.breakers, model_id), status, now),
        None => true,
    }
}

impl<C> Router<C> {
    /// The catalog and the breakers are well-formed.
    pub closed spec fn wf(&self) -> bool {
        &&& self.catalog.wf()
        &&& self.breaker.wf()
    }

    /// The clock that the router reads.
    pub closed spec fn spec_clock(&self) -> C {
        self.clock
    }

    /// Each entry of the catalog stands under its own id, and the breaker of
    /// every model is well-formed.
    pub proof fn lemma_wf(&self, model_id: Seq<char>)
        requires
            self.wf(),
        ensures
            self@.catalog.contains_key(model_id) ==> self@.catalog[model_id].id == model_id,
            breaker_of(self@.breakers, model_id).wf(),
    {
        self.catalog.lemma_ids();
        self.breaker.lemma_wf(model_id);
    }

    /// A router for a pool of models in order of priority, the first one first.
    pub fn new(pool: Vec<ModelEntry>, clock: C) -> (router: Router<C>)
        ensures
            router.wf(),
            router.spec_clock() == clock,
            router@.pool == entries_of(pool@),
            router@.catalog == with_entries(Map::empty(), entries_of(pool@)),
            router@.breakers == Map::<Seq<char>, VendorBreaker>::empty(),
    {
        let mut catalog = ModelCatalog::new();
        let mut i: usize = 0;
        let ghost all = entries_of(pool@);
        assert(all.take(0) =~= Seq::empty());
        while i < pool.len()
            invariant
                i <= pool@.len(),
                all == entries_of(pool@),
                catalog.wf(),
                catalog@ == with_entries(Map::empty(), all.take(i as int)),
            decreases pool@.len() - i,
        {
            assert(all.take(i + 1).drop_last() =~= all.take(i as int));
            assert(all.take(i + 1).last() == pool@[i as int]@);
            catalog.insert(pool[i].clone());
            i = i + 1;
        }
        assert(all.take(all.len() as int) =~= all);
        Router { pool, catalog, breaker: CircuitBreaker::new(), clock }
    }

    /// Resolves a request for `model` at the time `now`: from the model's place
    /// in the pool on, the first one that can be picked.
    pub fn select_at(&mut self, model: &str, now: Timestamp) -> (r: Result<Route, RouterError>)
        requires
            old(self).wf(),
        ensures
            final(self).wf(),
            final(self).spec_clock() == old(self).spec_clock(),
            selected(old(self)@, final(self)@, model@, now, r),
    {
        let selector = RouteSelector::new(&self.pool, now);
        selector.select(&mut self.breaker, model)
    }

    /// The candidate that is worth most at the time `now`, the first of equals.
    /// Candidates that the catalog does not know are skipped.
    pub fn select_candidates_at(&mut self, candidates: &[String], now: Timestamp) -> (r: Result<
        Route,
        RouterError,
    >)
        requires
            old(self).wf(),
        ensures
            final(self).wf(),
            final(self).spec_clock() == old(self).spec_clock(),
            candidate_selected(
                old(self)@,
                final(self)@,
                texts(candidates@),
                now,
                r,
            ),
    {
        let ghost ids = texts(candidates@);
        let ghost before = self.breaker@;
        let ghost catalog = self.catalog@;
        let ghost known_id = |id: Seq<char>| catalog.contains_key(id);
        let mut best: Option<usize> = None;
        let mut best_worth: u32 = 0;
        let mut is_probe: bool = false;
        let mut done: bool = false;
        let mut i: usize = 0;
        proof {
            assert(ids.take(0) =~= Seq::empty());
            assert(known(catalog, ids.take(0)) =~= Seq::empty());
            assert forall|id: Seq<char>| #[trigger]
                candidate_worth(catalog, before, id, now) <= FULL_WEIGHT by {
                lemma_worth_bound(&self.breaker, id, now);
            }
        }
        while i < candidates.len() && !done
            invariant
                i <= candidates@.len(),
                ids == texts(candidates@),
                before == old(self)@.breakers,
                catalog == old(self)@.catalog,
                entries_of(self.pool@) == old(self)@.pool,
                self.catalog@ == catalog,
                self.clock == old(self).clock,
                known_id == (|id: Seq<char>| catalog.contains_key(id)),
                self.wf(),
                looked_at(before, self.breaker@, known(catalog, ids.take(i as int)), None, now),
                best_candidate(catalog, before, ids.take(i as int), now) == (match best {
                    Some(b) => Some(b as int),
                    None => None,
                }),
                best_worth == (match best {
                    Some(b) => candidate_worth(catalog, before, ids[b as int], now),
                    None => 0,
                }),
                best matches Some(b) ==> b < i && best_worth > 0 && is_probe == (availability(
                    after_check(breaker_of(before, ids[b as int]), now).state,
                    now,
                ) is ProbeAllowed),
                done == (best_worth == FULL_WEIGHT),
                done ==> best == Some((i - 1) as usize) && i > 0,
                forall|id: Seq<char>| #[trigger]
                    candidate_worth(catalog, before, id, now) <= FULL_WEIGHT,
            decreases candidates@.len() - i,
        {
            let id = candidates[i].as_str();
            let ghost shorter = ids.take(i as int);
            let ghost seen = self.breaker@;
            proof {
                assert(ids[i as int] == id@);
                assert(ids.take(i + 1) =~= shorter.push(id@));
                assert(ids.take(i + 1).drop_last() =~= shorter);
                shorter.lemma_filter_push(id@, known_id);
                if let Some(b) = best {
                    assert(ids.take(i + 1)[b as int] == ids[b as int]);
                }
            }
            if self.catalog.get(id).is_some() {
                let avail = self.breaker.check_availability_mut(id, now);
                proof {
                    lemma_one_more_look(
                        before,
                        seen,
                        self.breaker@,
                        known(catalog, shorter),
                        id@,
                        now,
                    );
                    assert(candidate_worth(catalog, before, id@, now) <= FULL_WEIGHT);
                }
                let this_worth: u32 = match avail {
                    Availability::Available => FULL_WEIGHT,
                    Availability::ProbeAllowed { .. } => PROBE_WEIGHT,
                    Availability::AvailableWithWeight(weight) => weight,
                    Availability::Unavailable => 0,
                };
                if this_worth > best_worth {
                    best = Some(i);
                    best_worth = this_worth;
                    is_probe = matches!(avail, Availability::ProbeAllowed { .. });
                    done = this_worth == FULL_WEIGHT;
                }
            }
            i = i + 1;
        }
        let ghost seen = self.breaker@;
        proof {
            assert(ids.take(ids.len() as int) =~= ids);
            if done {
                lemma_search_ends(catalog, before, ids, i as int, i - 1, now);
            }
        }
        match best {
            Some(b) => {
                let id = candidates[b].as_str();
                proof {
                    let visited = known(catalog, ids.take(i as int));
                    assert(ids.take(i as int)[b as int] == id@);
                    ids.take(i as int).lemma_filter_contains(known_id, b as int);
                    lemma_pick_after_look(before, seen, visited, id@, now);
                }
                if is_probe {
                    self.breaker.record_probe_sent(id, now);
                }
                match self.catalog.get(id) {
                    Some(entry) => Ok(Route::to_model(entry)),
                    None => Err(RouterError::UnknownModel(id.to_owned())),
                }
            },
            None => {
                proof {
                    lemma_soonest_after_looks(ids, before, seen, known(catalog, ids), now);
                }
                let mut min_until: Option<Timestamp> = None;
                let mut k: usize = 0;
                assert(ids.take(0) =~= Seq::empty());
                while k < candidates.len()
                    invariant
                        k <= candidates@.len(),
                        ids == texts(candidates@),
                        self.wf(),
                        self.breaker@ == seen,
                        min_until == soonest(ids.take(k as int), seen, now),
                    decreases candidates@.len() - k,
                {
                    assert(ids.take(k + 1).drop_last() =~= ids.take(k as int));
                    assert(ids.take(k + 1).last() == candidates@[k as int]@);
                    min_until = sooner(
                        min_until,
                        self.breaker.unavailable_until(candidates[k].as_str()),
                        now,
                    );
                    k = k + 1;
                }
                let retry_after_secs: u64 = match min_until {
                    Some(until) => now.secs_until(&until),
                    None => DEFAULT_RETRY_AFTER_SECS,
                };
                Err(RouterError::AllUnavailable { retry_after_secs })
            },
        }
    }

    /// Takes a reply of `model_id` into account: a rate limit takes the model
    /// out until its next refresh, or for as long as the upstream asks. Server
    /// errors, and the status codes on which the model gives way to the next,
    /// are counted, and at their threshold take it out for a while. A probe
    /// that fails in any of these ways takes it out for the next backoff.
    /// Anything else is a success. A model that is not in the pool is ignored.
    pub fn record_at(
        &mut self,
        model_id: &str,
        status: u16,
        retry_after_secs: Option<u64>,
        now: Timestamp,
    )
        requires
            old(self).wf(),
            recordable(old(self)@, model_id@, status, now),
        ensures
            final(self).wf(),
            final(self).spec_clock() == old(self).spec_clock(),
            recorded(old(self)@, final(self)@, model_id@, status, retry_after_secs, now),
    {
        let at: usize = match position(&self.pool, model_id) {
            Some(at) => at,
            None => {
                return ;
            },
        };
        let entry = &self.pool[at];
        assert(entry@ == entries_of(self.pool@)[at as int]);
        let is_probe = self.breaker.is_probe_in_flight(model_id);
        if status == 429 {
            if is_probe {
                self.breaker.pull_out_with_backoff(model_id, MIN_BACKOFF_SECS, now, "probe 429");
            } else {
                let until = rate_limit_end(entry, now, retry_after_secs);
                self.breaker.pull_out(model_id, until, "429");
            }
        } else if 500 <= status && status < 600 {
            let cooldown: u64 = entry.cooldown_5xx();
            if is_probe {
                self.breaker.pull_out_with_backoff(model_id, cooldown, now, "probe 5xx");
            } else {
                self.breaker.record_5xx(model_id, entry.retry_count_5xx, now, cooldown);
            }
        } else if holds_code(&entry.retry_on, status) {
            let cooldown: u64 = entry.cooldown_retry_on();
            if is_probe {
                self.breaker.pull_out_with_backoff(model_id, cooldown, now, "probe retry-on");
            } else {
                self.breaker.record_retry_on(model_id, entry.retry_on_count, now, cooldown);
            }
        } else {
            self.breaker.reset(model_id);
        }
    }

    /// Whether a reply of `model_id` can be taken into account.
    pub fn can_record_at(&self, model_id: &str, status: u16, now: Timestamp) -> (b: bool)
        requires
            self.wf(),
        ensures
            b == recordable(self@, model_id@, status, now),
    {
        let at: usize = match position(&self.pool, model_id) {
            Some(at) => at,
            None => {
                return true;
            },
        };
        let entry = &self.pool[at];
        assert(entry@ == entries_of(self.pool@)[at as int]);
        let vb = self.breaker.entry(model_id);
        let is_probe = self.breaker.is_probe_in_flight(model_id);
        if status == 429 {
            !is_probe || vb.backoff_fits(MIN_BACKOFF_SECS, now)
        } else if 500 <= status && status < 600 {
            if is_probe {
                vb.backoff_fits(entry.cooldown_5xx_secs, now)
            } else {
                vb.consecutive_5xx < u32::MAX && (vb.consecutive_5xx + 1 < entry.retry_count_5xx
                    || now.after_cooldown(entry.cooldown_5xx_secs).is_some())
            }
        } else if holds_code(&entry.retry_on, status) {
            if is_probe {
                vb.backoff_fits(entry.retry_on_cooldown_secs, now)
            } else {
                vb.consecutive_403 < u32::MAX && (vb.consecutive_403 + 1 < entry.retry_on_count
                    || now.after_cooldown(entry.retry_on_cooldown_secs).is_some())
            }
        } else {
            true
        }
    }

    /// Whether a reply of `model_id` with this status sends the request on to the
    /// next model.
    pub fn gives_way(&self, model_id: &str, status: u16) -> (b: bool)
        requires
            self.wf(),
        ensures
            b == gives_way(self@, model_id@, status),
    {
        match self.catalog.get(model_id) {
            Some(entry) => holds_code(&entry.retry_on, status),
            None => false,
        }
    }

    /// The availability of a model at the time `now`. An open breaker whose
    /// time is over becomes half open.
    pub fn check_availability_at(&mut self, model_id: &str, now: Timestamp) -> (a: Availability)
        requires
            old(self).wf(),
        ensures
            final(self).wf(),
            final(self).spec_clock() == old(self).spec_clock(),
            a == availability(
                after_check(breaker_of(old(self)@.breakers, model_id@), now).state,
                now,
            ),
            final(self)@ == (RouterView {
                breakers: old(self)@.breakers.insert(
                    model_id@,
                    after_check(breaker_of(old(self)@.breakers, model_id@), now),
                ),
                ..old(self)@
            }),
    {
        self.breaker.check_availability_mut(model_id, now)
    }

    /// The name of the state of a model's breaker.
    pub fn breaker_state(&self, model_id: &str) -> (name: &'static str)
        requires
            self.wf(),
        ensures
            name == (match breaker_of(self@.breakers, model_id@).state {
                BreakerEntry::Closed => "Closed",
                BreakerEntry::Open { .. } => "Open",
                BreakerEntry::HalfOpen { .. } => "HalfOpen",
                BreakerEntry::Warmup { .. } => "Warmup",
            }),
    {
        self.breaker.state_name(model_id)
    }

    /// Models in the pool, in order of priority.
    pub fn pool(&self) -> (pool: &Vec<ModelEntry>)
        ensures
            entries_of(pool@) == self@.pool,
    {
        &self.pool
    }

    /// Ids of the models in the pool, in order of priority.
    pub fn model_ids(&self) -> (ids: Vec<String>)
        ensures
            texts(ids@) == ids_of(self@.pool),
    {
        let mut ids: Vec<String> = Vec::new();
        let mut i: usize = 0;
        while i < self.pool.len()
            invariant
                i <= self.pool@.len(),
                ids@.len() == i,
                forall|j: int| 0 <= j < i ==> ids@[j]@ == self.pool@[j].id@,
            decreases self.pool@.len() - i,
        {
            ids.push(self.pool[i].id.clone());
            i = i + 1;
        }
        assert(texts(ids@) =~= ids_of(self@.pool));
        ids
    }

    /// The catalog of all models of the pool.
    pub fn catalog(&self) -> (catalog: &ModelCatalog)
        requires
            self.wf(),
        ensures
            catalog.wf(),
            catalog@ == self@.catalog,
    {
        &self.catalog
    }
}

/// Whether a list of status codes holds this one.
fn holds_code(codes: &Vec<u16>, status: u16) -> (b: bool)
    ensures
        b == codes@.contains(status),
{
    let mut i: usize = 0;
    while i < codes.len()
        invariant
            i <= codes@.len(),
            forall|j: int| 0 <= j < i ==> codes@[j] != status,
        decreases codes@.len() - i,
    {
        if codes[i] == status {
            return true;
        }
        i = i + 1;
    }
    false
}

/// When a model that hit its rate limit is back.
fn rate_limit_end(entry: &ModelEntry, now: Timestamp, retry_after_secs: Option<u64>) -> (t: Timestamp)
    ensures
        t == rate_limit_until(entry@, now, retry_after_secs),
{
    let refresh = entry.next_refresh(now);
    let wait: u64 = match retry_after_secs {
        Some(secs) => secs,
        None => 0,
    };
    match now.plus_secs(wait) {
        Some(t) => refresh.max(t),
        None => refresh,
    }
}

impl<C: Clock> Router<C> {
    /// `select_at` at the time that the clock shows.
    pub fn select(&mut self, model: &str) -> (r: Result<Route, RouterError>)
        requires
            old(self).wf(),
        ensures
            final(self).wf(),
            final(self).spec_clock() == old(self).spec_clock(),
            exists|now: Timestamp|
                {
                    &&& #[trigger] call_ensures(C::now, (&old(self).spec_clock(),), now)
                    &&& selected(old(self)@, final(self)@, model@, now, r)
                },
    {
        let now = self.clock.now();
        assert(call_ensures(C::now, (&self.spec_clock(),), now));
        self.select_at(model, now)
    }

    /// `select_candidates_at` at the time that the clock shows.
    pub fn select_candidates(&mut self, candidates: &[String]) -> (r: Result<Route, RouterError>)
        requires
            old(self).wf(),
        ensures
            final(self).wf(),
            final(self).spec_clock() == old(self).spec_clock(),
            exists|now: Timestamp|
                {
                    &&& #[trigger] call_ensures(C::now, (&old(self).spec_clock(),), now)
                    &&& candidate_selected(
                        old(self)@,
                        final(self)@,
                        texts(candidates@),
                        now,
                        r,
                    )
                },
    {
        let now = self.clock.now();
        assert(call_ensures(C::now, (&self.spec_clock(),), now));
        self.select_candidates_at(candidates, now)
    }

    /// `check_availability_at` at the time that the clock shows.
    pub fn check_availability(&mut self, model_id: &str) -> (a: Availability)
        requires
            old(self).wf(),
        ensures
            final(self).wf(),
            final(self).spec_clock() == old(self).spec_clock(),
            exists|now: Timestamp|
                {
                    &&& #[trigger] call_ensures(C::now, (&old(self).spec_clock(),), now)
                    &&& a == availability(
                        after_check(breaker_of(old(self)@.breakers, model_id@), now).state,
                        now,
                    )
                    &&& final(self)@ == (RouterView {
                        breakers: old(self)@.breakers.insert(
                            model_id@,
                            after_check(breaker_of(old(self)@.breakers, model_id@), now),
                        ),
                        ..old(self)@
                    })
                },
    {
        let now = self.clock.now();
        assert(call_ensures(C::now, (&self.spec_clock(),), now));
        self.check_availability_at(model_id, now)
    }

    /// Takes a reply into account at the time that the clock shows, and says
    /// so. Where that cannot be done, a count being full or the calendar at its
    /// end, nothing changes.
    pub fn record(&mut self, model_id: &str, status: u16, retry_after_secs: Option<u64>) -> (done:
        bool)
        requires
            old(self).wf(),
        ensures
            final(self).wf(),
            final(self).spec_clock() == old(self).spec_clock(),
            exists|now: Timestamp|
                {
                    &&& #[trigger] call_ensures(C::now, (&old(self).spec_clock(),), now)
                    &&& done == recordable(old(self)@, model_id@, status, now)
                    &&& if done {
                        recorded(old(self)@, final(self)@, model_id@, status, retry_after_secs, now)
                    } else {
                        final(self)@ == old(self)@
                    }
                },
    {
        let now = self.clock.now();
        assert(call_ensures(C::now, (&self.spec_clock(),), now));
        if self.can_record_at(model_id, status, now) {
            self.record_at(model_id, status, retry_after_secs, now);
            true
        } else {
            false
        }
    }
}

impl Router<SystemClock> {
    /// A router that reads the clock of the machine.
    pub fn with_system_clock(pool: Vec<ModelEntry>) -> (router: Router<SystemClock>)
        ensures
            router.wf(),
            router@.pool == entries_of(pool@),
            router@.catalog == with_entries(Map::empty(), entries_of(pool@)),
            router@.breakers == Map::<Seq<char>, VendorBreaker>::empty(),
    {
        Router::new(pool, SystemClock)
    }
}

} // verus!
