//! What the steps of the breaker and the router add up to.
use crate::breaker::{
    after_5xx, after_check, after_retry_on, after_success, availability, breaker_of, fresh,
    next_backoff, Availability, BreakerEntry, VendorBreaker, FULL_WEIGHT, MAX_BACKOFF_SECS,
    MIN_BACKOFF_SECS, WARMUP_MIN_WEIGHT, WARMUP_REQUIRED_SUCCESSES,
};
use crate::clock::{in_calendar, span_secs, Timestamp};
use crate::config::{route_to, spec_next_refresh, ModelEntryView, Route, RouterError};
use crate::router::{
    after_reply, best_candidate, best_candidate_is_worth_most, candidate_selected,
    candidate_worth, is_5xx, probing, recorded, selected, worth, Router, RouterView, PROBE_WEIGHT,
};
use crate::selector::{
    after_pick, ids_of, lemma_next_pick, lemma_place_of, next_pick, place_of, selectable,
};
use vstd::prelude::*;

verus! {

/// The breaker after `n` server errors in a row, at these points in time.
pub open spec fn after_run_of_5xx(
    vb: VendorBreaker,
    threshold: u32,
    times: Seq<Timestamp>,
    cooldown_secs: u64,
) -> VendorBreaker
    decreases times.len(),
{
    if times.len() == 0 {
        vb
    } else {
        after_5xx(
            after_run_of_5xx(vb, threshold, times.drop_last(), cooldown_secs),
            threshold,
            times.last(),
            cooldown_secs,
        )
    }
}

/// The breaker after these replies in a row that call for another model.
pub open spec fn after_run_of_retry_on(
    vb: VendorBreaker,
    threshold: u32,
    times: Seq<Timestamp>,
    cooldown_secs: u64,
) -> VendorBreaker
    decreases times.len(),
{
    if times.len() == 0 {
        vb
    } else {
        after_retry_on(
            after_run_of_retry_on(vb, threshold, times.drop_last(), cooldown_secs),
            threshold,
            times.last(),
            cooldown_secs,
        )
    }
}

/// The breaker after this many successes in a row.
pub open spec fn after_successes(vb: VendorBreaker, n: nat) -> VendorBreaker
    decreases n,
{
    if n == 0 {
        vb
    } else {
        after_success(after_successes(vb, (n - 1) as nat))
    }
}

/// Server errors in a row open a closed breaker at the threshold, not before,
/// and from the time of the last of them for the length of the cool-down.
pub proof fn server_errors_open_at_the_threshold(
    threshold: u32,
    times: Seq<Timestamp>,
    cooldown_secs: u64,
)
    requires
        times.len() < u32::MAX,
    ensures
        ({
            let vb = after_run_of_5xx(fresh(), threshold, times, cooldown_secs);
            &&& vb.consecutive_5xx == times.len()
            &&& vb.backoff_secs == 0
            &&& if 0 < times.len() && threshold <= times.len() {
                vb.state matches BreakerEntry::Open { unavailable_until, .. } && unavailable_until
                    == times.last().moved(span_secs(cooldown_secs))
            } else {
                vb.state is Closed
            }
        }),
    decreases times.len(),
{
    if times.len() > 0 {
        server_errors_open_at_the_threshold(threshold, times.drop_last(), cooldown_secs);
    }
}

/// Replies in a row that call for another model leave a breaker closed below
/// the threshold, and at the threshold open it and start the count over.
pub proof fn retry_on_replies_open_at_the_threshold(
    threshold: u32,
    times: Seq<Timestamp>,
    cooldown_secs: u64,
)
    requires
        0 < times.len() <= threshold,
    ensures
        ({
            let vb = after_run_of_retry_on(fresh(), threshold, times, cooldown_secs);
            if times.len() == threshold {
                &&& vb.consecutive_403 == 0
                &&& vb.state matches BreakerEntry::Open { unavailable_until, .. }
                    && unavailable_until == times.last().moved(span_secs(cooldown_secs))
            } else {
                &&& vb.consecutive_403 == times.len()
                &&& vb.state is Closed
            }
        }),
    decreases times.len(),
{
    if times.len() > 1 {
        retry_on_replies_open_at_the_threshold(threshold, times.drop_last(), cooldown_secs);
    } else {
        assert(times.drop_last().len() == 0);
        assert(after_run_of_retry_on(fresh(), threshold, times.drop_last(), cooldown_secs)
            == fresh());
    }
}

/// A success of a model whose breaker is closed wipes out all that was counted.
pub proof fn success_resets_the_counts(vb: VendorBreaker)
    requires
        vb.state is Closed,
    ensures
        after_success(vb) == fresh(),
{
}

/// A model that cools down cannot be picked, and once the time is over one
/// probe can.
pub proof fn open_until_the_cooldown_ends(vb: VendorBreaker, now: Timestamp)
    requires
        vb.state is Open,
    ensures
        now.before(vb.state->unavailable_until) ==> !selectable(vb, now),
        !now.before(vb.state->unavailable_until) ==> availability(after_check(vb, now).state, now)
            == (Availability::ProbeAllowed { since: now }),
{
}

/// While the answer to a probe is out the model cannot be picked again, at any
/// time.
pub proof fn one_probe_at_a_time(vb: VendorBreaker, now: Timestamp, later: Timestamp)
    requires
        availability(after_check(vb, now).state, now) is ProbeAllowed,
    ensures
        probing(after_pick(vb, now)),
        !selectable(after_pick(vb, now), later),
{
}

/// A probe that succeeds starts the warm-up at the lowest weight; with four
/// more successes the breaker is closed and nothing of the failures is left.
pub proof fn successes_after_a_probe_close_the_breaker(vb: VendorBreaker)
    requires
        vb.state is HalfOpen,
    ensures
        after_success(vb).state == (BreakerEntry::Warmup {
            success_count: 1,
            required: WARMUP_REQUIRED_SUCCESSES,
            weight: WARMUP_MIN_WEIGHT,
        }),
        after_successes(vb, 2).state is Warmup,
        after_successes(vb, 3).state is Warmup,
        after_successes(vb, 4).state is Warmup,
        after_successes(vb, 5) == fresh(),
{
    reveal_with_fuel(after_successes, 6);
}

/// The weight of a warm-up only grows.
pub proof fn warmup_weight_grows(vb: VendorBreaker)
    requires
        vb.state is Warmup,
        vb.state.wf(),
    ensures
        vb.state.spec_weight() < after_success(vb).state.spec_weight() <= FULL_WEIGHT,
        after_success(vb).state.wf(),
{
}

/// The replies on which a model gives way.
pub open spec fn is_failure(entry: ModelEntryView, status: u16) -> bool {
    status == 429 || is_5xx(status) || entry.retry_on.contains(status)
}

/// A probe that fails opens the breaker again, for the next backoff.
pub proof fn failed_probe_reopens(
    entry: ModelEntryView,
    vb: VendorBreaker,
    status: u16,
    retry_after_secs: Option<u64>,
    now: Timestamp,
)
    requires
        vb.wf(),
        probing(vb),
        is_failure(entry, status),
    ensures
        ({
            let after = after_reply(entry, vb, status, retry_after_secs, now);
            &&& after.backoff_secs >= MIN_BACKOFF_SECS
            &&& after.state matches BreakerEntry::Open { unavailable_until, .. }
                && unavailable_until == now.moved(after.backoff_secs as int)
            &&& vb.backoff_secs != 0 ==> after.backoff_secs == (if vb.backoff_secs * 2
                <= MAX_BACKOFF_SECS {
                vb.backoff_secs * 2
            } else {
                MAX_BACKOFF_SECS as int
            })
        }),
{
}

/// A probe that succeeds never opens the breaker.
pub proof fn successful_probe_warms_up(
    entry: ModelEntryView,
    vb: VendorBreaker,
    status: u16,
    retry_after_secs: Option<u64>,
    now: Timestamp,
)
    requires
        probing(vb),
        !is_failure(entry, status),
    ensures
        after_reply(entry, vb, status, retry_after_secs, now).state is Warmup,
{
}

/// A rate limit in the warm-up opens the breaker again.
pub proof fn rate_limit_in_warmup_reopens(
    entry: ModelEntryView,
    vb: VendorBreaker,
    retry_after_secs: Option<u64>,
    now: Timestamp,
)
    requires
        vb.state is Warmup,
    ensures
        after_reply(entry, vb, 429, retry_after_secs, now).state is Open,
{
}

/// The backoff is at least a minute, and once there is one, at most an hour;
/// up to there it doubles with each failed probe.
pub proof fn backoff_doubles_up_to_an_hour(backoff_secs: u64, base_secs: u64)
    ensures
        next_backoff(backoff_secs, base_secs) >= (if backoff_secs == 0 {
            MIN_BACKOFF_SECS as int
        } else if backoff_secs * 2 <= MAX_BACKOFF_SECS {
            backoff_secs * 2
        } else {
            MAX_BACKOFF_SECS as int
        }),
        backoff_secs != 0 ==> next_backoff(backoff_secs, base_secs) <= MAX_BACKOFF_SECS,
        0 < backoff_secs <= MAX_BACKOFF_SECS ==> backoff_secs <= next_backoff(
            backoff_secs,
            base_secs,
        ),
{
}

/// After a rate limit the model cannot be picked before the upstream's wait is
/// over, nor before the next refresh.
pub proof fn rate_limit_keeps_the_model_out(
    entry: ModelEntryView,
    vb: VendorBreaker,
    retry_after_secs: Option<u64>,
    now: Timestamp,
    later: Timestamp,
)
    requires
        !probing(vb),
        later.before(spec_next_refresh(entry, now)) || (retry_after_secs matches Some(secs)
            && in_calendar(now.secs + secs) && later.before(now.moved(secs as int))),
    ensures
        !selectable(after_reply(entry, vb, 429, retry_after_secs, now), later),
{
}

/// A selected route leads to a model of the pool, at the requested one's place
/// or after it, which could be picked; none in between could.
pub proof fn selected_route_is_the_first_that_can_be_picked(
    before: RouterView,
    after: RouterView,
    model: Seq<char>,
    now: Timestamp,
    r: Result<Route, RouterError>,
)
    requires
        selected(before, after, model, now, r),
    ensures
        r is Ok ==> ({
            let start = place_of(ids_of(before.pool), model)->0;
            let i = next_pick(ids_of(before.pool), before.breakers, start, now)->0;
            &&& 0 <= start <= i < before.pool.len()
            &&& before.pool[start].id == model
            &&& r->Ok_0@ == route_to(before.pool[i])
            &&& selectable(breaker_of(before.breakers, before.pool[i].id), now)
            &&& forall|j: int|
                start <= j < i ==> !selectable(
                    breaker_of(before.breakers, (#[trigger] before.pool[j]).id),
                    now,
                )
        }),
        r is Err && r->Err_0 is UnknownModel ==> forall|j: int|
            0 <= j < before.pool.len() ==> (#[trigger] before.pool[j]).id != model,
{
    let ids = ids_of(before.pool);
    lemma_place_of(ids, model);
    assert forall|j: int| 0 <= j < before.pool.len() implies ids[j] == (
    #[trigger] before.pool[j]).id by {}
    if let Some(start) = place_of(ids, model) {
        lemma_next_pick(ids, before.breakers, start, now);
    } else {
        assert forall|j: int| 0 <= j < before.pool.len() implies (#[trigger] before.pool[j]).id
            != model by {
            assert(ids.contains(ids[j]));
        }
    }
}

/// A candidate is selected only if it could be picked, and only if no closed
/// breaker stands before it; a warm-up only where nothing better does.
pub proof fn selected_candidate_is_worth_most(
    before: RouterView,
    after: RouterView,
    ids: Seq<Seq<char>>,
    now: Timestamp,
    r: Result<Route, RouterError>,
)
    requires
        candidate_selected(before, after, ids, now, r),
    ensures
        r is Ok ==> ({
            let i = best_candidate(before.catalog, before.breakers, ids, now)->0;
            &&& 0 <= i < ids.len()
            &&& before.catalog.contains_key(ids[i])
            &&& r->Ok_0@ == route_to(before.catalog[ids[i]])
            &&& selectable(breaker_of(before.breakers, ids[i]), now)
            &&& forall|j: int|
                0 <= j < ids.len() ==> candidate_worth(
                    before.catalog,
                    before.breakers,
                    #[trigger] ids[j],
                    now,
                ) <= candidate_worth(before.catalog, before.breakers, ids[i], now)
            &&& forall|j: int|
                0 <= j < i ==> candidate_worth(
                    before.catalog,
                    before.breakers,
                    #[trigger] ids[j],
                    now,
                ) < candidate_worth(before.catalog, before.breakers, ids[i], now)
        }),
        r is Err ==> forall|j: int|
            0 <= j < ids.len() ==> candidate_worth(
                before.catalog,
                before.breakers,
                #[trigger] ids[j],
                now,
            ) == 0,
{
    best_candidate_is_worth_most(before.catalog, before.breakers, ids, now);
}

/// Closed comes before a probe, and a probe before any warm-up.
pub proof fn order_of_worth(vb: VendorBreaker, now: Timestamp)
    requires
        vb.state.wf(),
    ensures
        vb.state is Warmup ==> 0 < worth(availability(after_check(vb, now).state, now))
            < PROBE_WEIGHT < FULL_WEIGHT,
        worth(availability(after_check(vb, now).state, now)) > 0 <==> selectable(vb, now),
{
    if let BreakerEntry::Warmup { success_count, .. } = vb.state {
        assert(1 <= success_count <= 4);
    }
}

/// All candidates are unavailable exactly where none that the catalog knows can
/// be picked; there is no other reason not to select one.
pub proof fn all_unavailable_only_where_no_candidate_can_be_picked<C>(
    router: &Router<C>,
    after: RouterView,
    ids: Seq<Seq<char>>,
    now: Timestamp,
    r: Result<Route, RouterError>,
)
    requires
        router.wf(),
        candidate_selected(router@, after, ids, now, r),
    ensures
        r is Err ==> r->Err_0 is AllUnavailable,
        r is Err <==> forall|j: int|
            0 <= j < ids.len() && router@.catalog.contains_key(#[trigger] ids[j]) ==> !selectable(
                breaker_of(router@.breakers, ids[j]),
                now,
            ),
{
    best_candidate_is_worth_most(router@.catalog, router@.breakers, ids, now);
    assert forall|j: int|
        0 <= j < ids.len() && router@.catalog.contains_key(#[trigger] ids[j]) implies (
    candidate_worth(router@.catalog, router@.breakers, ids[j], now) > 0 <==> selectable(
        breaker_of(router@.breakers, ids[j]),
        now,
    )) by {
        router.lemma_wf(ids[j]);
        order_of_worth(breaker_of(router@.breakers, ids[j]), now);
    }
    if r is Ok {
        let i = best_candidate(router@.catalog, router@.breakers, ids, now)->0;
        assert(router@.catalog.contains_key(ids[i]));
    }
}

/// A reply of one model leaves the breakers of all others as they are.
pub proof fn reply_touches_one_model(
    before: RouterView,
    after: RouterView,
    model_id: Seq<char>,
    status: u16,
    retry_after_secs: Option<u64>,
    now: Timestamp,
    other: Seq<char>,
)
    requires
        recorded(before, after, model_id, status, retry_after_secs, now),
        other != model_id,
    ensures
        breaker_of(after.breakers, other) == breaker_of(before.breakers, other),
{
}

/// A selection moves no breaker but those it looks at, and sends out at most
/// the one probe of the model that it picks.
pub proof fn selection_sends_at_most_one_probe(
    before: RouterView,
    after: RouterView,
    model: Seq<char>,
    now: Timestamp,
    r: Result<Route, RouterError>,
    id: Seq<char>,
)
    requires
        selected(before, after, model, now, r),
        probing(breaker_of(after.breakers, id)),
    ensures
        probing(breaker_of(before.breakers, id)) || (r matches Ok(route) && route@.model_id == id),
{
    let ids = ids_of(before.pool);
    lemma_place_of(ids, model);
    if let Some(start) = place_of(ids, model) {
        lemma_next_pick(ids, before.breakers, start, now);
        assert(breaker_of(after.breakers, id) == breaker_of(after.breakers, id));
        if let Some(i) = next_pick(ids, before.breakers, start, now) {
            assert(ids[i] == before.pool[i].id);
        }
    }
}

} // verus!
