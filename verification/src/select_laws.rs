//! Which model serves a request, and what is said where none can, in terms of
//! the states of the breakers.
use crate::breaker::{
    after_check, after_probe_sent, availability, Availability, BreakerEntry, VendorBreaker,
};
use crate::clock::Timestamp;
use crate::config::{ModelEntryView, Route, RouterError};
use crate::record_laws::{earlier, known_breaker, stands_at};
use crate::router::{
    best_candidate, best_candidate_is_worth_most, candidate_selected, candidate_worth, selected,
    Router, RouterView,
};
use crate::selector::{
    cooling_until, ids_of, lemma_next_pick, lemma_place_of, next_pick, place_of, retry_after,
    selectable, soonest,
};
use vstd::prelude::*;

verus! {

/// Whether a model can take a request at `now`: nothing is wrong with it, or it
/// warms up, or its cool-down is over and no other request has gone ahead as a
/// probe.
pub open spec fn can_serve(vb: VendorBreaker, now: Timestamp) -> bool {
    match vb.state {
        BreakerEntry::Closed => true,
        BreakerEntry::Warmup { .. } => true,
        BreakerEntry::Open { unavailable_until, .. } => !earlier(now, unavailable_until),
        BreakerEntry::HalfOpen { probe_in_flight, .. } => !probe_in_flight,
    }
}

/// Whether a model cools down at `now`.
pub open spec fn cools(vb: VendorBreaker, now: Timestamp) -> bool {
    match vb.state {
        BreakerEntry::Open { unavailable_until, .. } => earlier(now, unavailable_until),
        _ => false,
    }
}

/// Whether a point in time is more than so many seconds after `now`, or just as
/// many.
pub open spec fn so_far_off(now: Timestamp, until: Timestamp, secs: int) -> bool {
    now.secs + secs < until.secs || (now.secs + secs == until.secs && now.nanos <= until.nanos)
}

/// The first of these models that cools down is back after this many whole
/// seconds, and not one more. Where none cools down, it is a minute.
pub open spec fn is_the_shortest_wait(
    secs: u64,
    router: RouterView,
    ids: Seq<Seq<char>>,
    now: Timestamp,
) -> bool {
    &&& forall|j: int|
        0 <= j < ids.len() && cools(known_breaker(router, #[trigger] ids[j]), now) ==> so_far_off(
            now,
            known_breaker(router, ids[j]).state->unavailable_until,
            secs as int,
        )
    &&& (exists|j: int| 0 <= j < ids.len() && cools(known_breaker(router, #[trigger] ids[j]), now))
        ==> exists|j: int|
        {
            &&& 0 <= j < ids.len()
            &&& cools(known_breaker(router, #[trigger] ids[j]), now)
            &&& !so_far_off(
                now,
                known_breaker(router, ids[j]).state->unavailable_until,
                secs + 1,
            )
        }
    &&& (forall|j: int|
        0 <= j < ids.len() ==> !cools(known_breaker(router, #[trigger] ids[j]), now)) ==> secs == 60
}

/// The point that `soonest` finds is the end of the cool-down of one of the
/// models, and no cool-down among them ends before it.
proof fn lemma_soonest(ids: Seq<Seq<char>>, router: RouterView, now: Timestamp)
    ensures
        match soonest(ids, router.breakers, now) {
            Some(until) => {
                &&& earlier(now, until)
                &&& exists|j: int|
                    {
                        &&& 0 <= j < ids.len()
                        &&& cools(known_breaker(router, #[trigger] ids[j]), now)
                        &&& known_breaker(router, ids[j]).state->unavailable_until == until
                    }
                &&& forall|j: int|
                    0 <= j < ids.len() && cools(known_breaker(router, #[trigger] ids[j]), now)
                        ==> !earlier(known_breaker(router, ids[j]).state->unavailable_until, until)
            },
            None => forall|j: int|
                0 <= j < ids.len() ==> !cools(known_breaker(router, #[trigger] ids[j]), now),
        },
    decreases ids.len(),
{
    if ids.len() > 0 {
        let front = ids.drop_last();
        let n = ids.len() - 1;
        lemma_soonest(front, router, now);
        let last = known_breaker(router, ids[n]);
        assert(cools(last, now) <==> cooling_until(last, now) is Some);
        assert forall|j: int| 0 <= j < n implies front[j] == #[trigger] ids[j] by {}
        if let Some(until) = soonest(front, router.breakers, now) {
            let j = choose|j: int|
                {
                    &&& 0 <= j < front.len()
                    &&& cools(known_breaker(router, #[trigger] front[j]), now)
                    &&& known_breaker(router, front[j]).state->unavailable_until == until
                };
            assert(cools(known_breaker(router, ids[j]), now));
        }
        assert(cools(last, now) ==> cools(known_breaker(router, ids[n]), now));
    }
}

proof fn lemma_shortest_wait(secs: u64, ids: Seq<Seq<char>>, router: RouterView, now: Timestamp)
    requires
        secs == retry_after(ids, router.breakers, now),
    ensures
        is_the_shortest_wait(secs, router, ids, now),
{
    lemma_soonest(ids, router, now);
}

/// Where no model can serve a request, the answer says when to come back: after
/// the whole seconds until the first model of the pool that cools down is back.
pub proof fn failed_selection_tells_the_shortest_wait(
    before: RouterView,
    after: RouterView,
    model: Seq<char>,
    now: Timestamp,
    r: Result<Route, RouterError>,
    secs: u64,
)
    requires
        selected(before, after, model, now, r),
        r == Err::<Route, RouterError>(RouterError::AllUnavailable { retry_after_secs: secs }),
    ensures
        is_the_shortest_wait(secs, before, ids_of(before.pool), now),
        ids_of(before.pool).len() == before.pool.len(),
        forall|j: int| 0 <= j < before.pool.len() ==> ids_of(before.pool)[j] == (
        #[trigger] before.pool[j]).id,
{
    lemma_shortest_wait(secs, ids_of(before.pool), before, now);
}

/// Where no candidate can serve a request, the answer says when to come back:
/// after the whole seconds until the first candidate that cools down is back.
pub proof fn failed_choice_tells_the_shortest_wait(
    before: RouterView,
    after: RouterView,
    ids: Seq<Seq<char>>,
    now: Timestamp,
    r: Result<Route, RouterError>,
    secs: u64,
)
    requires
        candidate_selected(before, after, ids, now, r),
        r == Err::<Route, RouterError>(RouterError::AllUnavailable { retry_after_secs: secs }),
    ensures
        is_the_shortest_wait(secs, before, ids, now),
{
    lemma_shortest_wait(secs, ids, before, now);
}

proof fn lemma_selectable(router: RouterView, id: Seq<char>, now: Timestamp)
    ensures
        selectable(crate::breaker::breaker_of(router.breakers, id), now) == can_serve(
            known_breaker(router, id),
            now,
        ),
{
}

/// A route leads where a model's entry says.
pub open spec fn leads_to(route: Route, entry: ModelEntryView) -> bool {
    &&& route.model_id@ == entry.id
    &&& route.api == entry.api
    &&& route.base_url@ == entry.base_url
    &&& route.api_key@ == entry.api_key
}

/// A request for a model of the pool goes to it if it can serve, and else to the
/// next one of the pool after it that can; where none can it is refused, and
/// where the pool does not have the model it is refused by its name.
pub proof fn request_goes_to_the_next_that_can_serve(
    before: RouterView,
    after: RouterView,
    model: Seq<char>,
    start: int,
    now: Timestamp,
    r: Result<Route, RouterError>,
)
    requires
        selected(before, after, model, now, r),
        stands_at(before.pool, model, start),
    ensures
        match r {
            Ok(route) => exists|i: int|
                {
                    &&& start <= i < before.pool.len()
                    &&& can_serve(known_breaker(before, (#[trigger] before.pool[i]).id), now)
                    &&& leads_to(route, before.pool[i])
                    &&& forall|j: int|
                        start <= j < i ==> !can_serve(
                            known_breaker(before, (#[trigger] before.pool[j]).id),
                            now,
                        )
                },
            Err(e) => {
                &&& e is AllUnavailable
                &&& forall|j: int|
                    start <= j < before.pool.len() ==> !can_serve(
                        known_breaker(before, (#[trigger] before.pool[j]).id),
                        now,
                    )
            },
        },
{
    let ids = ids_of(before.pool);
    lemma_place_of(ids, model);
    assert(ids[start] == model);
    assert(ids.contains(model));
    let k = place_of(ids, model)->0;
    if k < start {
        assert(before.pool[k].id != model);
    }
    lemma_next_pick(ids, before.breakers, start, now);
    assert forall|j: int| 0 <= j < before.pool.len() implies can_serve(
        known_breaker(before, (#[trigger] before.pool[j]).id),
        now,
    ) == selectable(crate::breaker::breaker_of(before.breakers, ids[j]), now) by {
        lemma_selectable(before, before.pool[j].id, now);
    }
    if let Some(i) = next_pick(ids, before.breakers, start, now) {
        assert(can_serve(known_breaker(before, before.pool[i].id), now));
    }
}

/// A request for a model that the pool does not have is refused by its name, and
/// changes nothing.
pub proof fn unknown_model_is_refused_by_name(
    before: RouterView,
    after: RouterView,
    model: Seq<char>,
    now: Timestamp,
    r: Result<Route, RouterError>,
)
    requires
        selected(before, after, model, now, r),
        forall|j: int| 0 <= j < before.pool.len() ==> (#[trigger] before.pool[j]).id != model,
    ensures
        r matches Err(RouterError::UnknownModel(name)) && name@ == model,
        after == before,
{
    let ids = ids_of(before.pool);
    lemma_place_of(ids, model);
    if let Some(k) = place_of(ids, model) {
        assert(before.pool[k].id == ids[k]);
    }
    assert(after.breakers == before.breakers);
}

/// How much a model is preferred: one with which nothing is wrong most, then one
/// that is to be probed, then one that warms up, the further the more; and one
/// that cannot serve not at all.
pub open spec fn preference(vb: VendorBreaker, now: Timestamp) -> int {
    if !can_serve(vb, now) {
        0
    } else {
        match vb.state {
            BreakerEntry::Closed => 100,
            BreakerEntry::Warmup { success_count, .. } => 5 + 19 * (success_count - 1),
            _ => 99,
        }
    }
}

/// Among candidates that the catalog knows the one that is preferred most serves
/// the request, and the first of those that are preferred alike; the others are
/// passed over.
pub proof fn preferred_candidate_serves<C>(
    router: &Router<C>,
    after: RouterView,
    ids: Seq<Seq<char>>,
    now: Timestamp,
    r: Result<Route, RouterError>,
)
    requires
        router.wf(),
        candidate_selected(router@, after, ids, now, r),
    ensures
        match r {
            Ok(route) => exists|i: int|
                {
                    &&& 0 <= i < ids.len()
                    &&& router@.catalog.dom().contains(#[trigger] ids[i])
                    &&& can_serve(known_breaker(router@, ids[i]), now)
                    &&& leads_to(route, router@.catalog[ids[i]])
                    &&& forall|j: int|
                        0 <= j < ids.len() && router@.catalog.dom().contains(#[trigger] ids[j])
                            ==> preference(known_breaker(router@, ids[j]), now) <= preference(
                            known_breaker(router@, ids[i]),
                            now,
                        )
                    &&& forall|j: int|
                        0 <= j < i && router@.catalog.dom().contains(#[trigger] ids[j])
                            ==> preference(known_breaker(router@, ids[j]), now) < preference(
                            known_breaker(router@, ids[i]),
                            now,
                        )
                },
            Err(e) => {
                &&& e is AllUnavailable
                &&& forall|j: int|
                    0 <= j < ids.len() && router@.catalog.dom().contains(#[trigger] ids[j])
                        ==> !can_serve(known_breaker(router@, ids[j]), now)
            },
        },
{
    let catalog = router@.catalog;
    best_candidate_is_worth_most(catalog, router@.breakers, ids, now);
    assert forall|j: int| 0 <= j < ids.len() && catalog.dom().contains(#[trigger] ids[j]) implies (
    candidate_worth(catalog, router@.breakers, ids[j], now) == preference(
        known_breaker(router@, ids[j]),
        now,
    ) && (preference(known_breaker(router@, ids[j]), now) > 0 <==> can_serve(
        known_breaker(router@, ids[j]),
        now,
    ))) by {
        router.lemma_wf(ids[j]);
    }
    if let Some(i) = best_candidate(catalog, router@.breakers, ids, now) {
        assert(catalog.dom().contains(ids[i]));
    }
}

/// A selection leaves the pool and the catalog as they are, and every breaker
/// but for two things: one whose cool-down is over waits for a probe from then
/// on, and that of the model that serves the request has sent it.
pub proof fn selection_moves_breakers_on_alone(
    before: RouterView,
    after: RouterView,
    model: Seq<char>,
    now: Timestamp,
    r: Result<Route, RouterError>,
    id: Seq<char>,
)
    requires
        selected(before, after, model, now, r),
    ensures
        after.pool == before.pool,
        after.catalog == before.catalog,
        moved_on_alone(known_breaker(before, id), known_breaker(after, id), now),
        match r {
            Ok(route) => {
                &&& !can_serve(known_breaker(before, id), now) ==> known_breaker(after, id)
                    == known_breaker(before, id)
                &&& route.model_id@ == id && !(known_breaker(before, id).state is Closed)
                    && !(known_breaker(before, id).state is Warmup) ==> known_breaker(
                    after,
                    id,
                ).state == (BreakerEntry::HalfOpen { available_since: now, probe_in_flight: true })
                &&& route.model_id@ != id ==> !(known_breaker(after, id).state is HalfOpen)
                    || known_breaker(after, id).state->probe_in_flight == (known_breaker(
                    before,
                    id,
                ).state is HalfOpen && known_breaker(before, id).state->probe_in_flight)
            },
            Err(_) => known_breaker(after, id).state is HalfOpen && known_breaker(
                after,
                id,
            ).state->probe_in_flight ==> known_breaker(before, id).state is HalfOpen
                && known_breaker(before, id).state->probe_in_flight,
        },
{
    let ids = ids_of(before.pool);
    lemma_place_of(ids, model);
    assert(crate::breaker::breaker_of(after.breakers, id) == known_breaker(after, id));
    assert(crate::breaker::breaker_of(before.breakers, id) == known_breaker(before, id));
    if let Some(start) = place_of(ids, model) {
        lemma_next_pick(ids, before.breakers, start, now);
        if let Some(i) = next_pick(ids, before.breakers, start, now) {
            assert(ids[i] == before.pool[i].id);
            lemma_selectable(before, ids[i], now);
        }
    }
}

/// Only the state of a breaker has moved on, if anything: from the end of its
/// cool-down to the wait for a probe, or for the answer to it.
pub open spec fn moved_on_alone(was: VendorBreaker, is: VendorBreaker, now: Timestamp) -> bool {
    &&& is.consecutive_5xx == was.consecutive_5xx
    &&& is.consecutive_403 == was.consecutive_403
    &&& is.backoff_secs == was.backoff_secs
    &&& is.state == was.state || (!(was.state is Closed) && !(was.state is Warmup) && can_serve(
        was,
        now,
    ) && is.state is HalfOpen)
}

/// A model that cools down may be probed from the moment on that its cool-down is
/// over and it is looked at, and is not there before. A probe is out from the
/// moment on that it is sent. Nothing else changes by looking or sending.
pub proof fn cool_down_ends_in_a_probe(vb: VendorBreaker, now: Timestamp)
    ensures
        ({
            let seen = after_check(vb, now);
            let sent = after_probe_sent(seen, now);
            &&& seen.consecutive_5xx == vb.consecutive_5xx
            &&& seen.consecutive_403 == vb.consecutive_403
            &&& seen.backoff_secs == vb.backoff_secs
            &&& sent.consecutive_5xx == vb.consecutive_5xx
            &&& sent.consecutive_403 == vb.consecutive_403
            &&& sent.backoff_secs == vb.backoff_secs
            &&& match vb.state {
                BreakerEntry::Open { unavailable_until, .. } => if earlier(now, unavailable_until) {
                    &&& seen == vb
                    &&& sent == vb
                    &&& availability(seen.state, now) is Unavailable
                } else {
                    &&& seen.state == (BreakerEntry::HalfOpen {
                        available_since: now,
                        probe_in_flight: false,
                    })
                    &&& availability(seen.state, now) == (Availability::ProbeAllowed { since: now })
                    &&& sent.state == (BreakerEntry::HalfOpen {
                        available_since: now,
                        probe_in_flight: true,
                    })
                    &&& availability(sent.state, now) is Unavailable
                },
                BreakerEntry::HalfOpen { probe_in_flight, .. } => {
                    &&& seen == vb
                    &&& probe_in_flight ==> availability(seen.state, now) is Unavailable
                    &&& !probe_in_flight ==> availability(seen.state, now) == (
                    Availability::ProbeAllowed { since: now })
                    &&& sent.state == (BreakerEntry::HalfOpen {
                        available_since: now,
                        probe_in_flight: true,
                    })
                },
                BreakerEntry::Warmup { weight, .. } => {
                    &&& seen == vb
                    &&& sent == vb
                    &&& availability(seen.state, now) == Availability::AvailableWithWeight(weight)
                },
                BreakerEntry::Closed => {
                    &&& seen == vb
                    &&& sent == vb
                    &&& availability(seen.state, now) is Available
                },
            }
        }),
{
}

} // verus!
