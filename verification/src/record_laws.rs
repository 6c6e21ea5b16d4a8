//! What each kind of reply makes of the breaker of the model that gave it, in
//! numbers.
use crate::breaker::{BreakerEntry, VendorBreaker};
use crate::clock::Timestamp;
use crate::config::{next_cycle, ModelEntryView};
use crate::router::{recorded, RouterView};
use crate::selector::{ids_of, lemma_place_of, place_of};
use vstd::prelude::*;

verus! {

/// What a router knows of a model's breaker. Of a model that has never replied
/// it is that nothing has gone wrong.
pub open spec fn known_breaker(router: RouterView, id: Seq<char>) -> VendorBreaker {
    if router.breakers.dom().contains(id) {
        router.breakers[id]
    } else {
        VendorBreaker {
            consecutive_5xx: 0,
            consecutive_403: 0,
            backoff_secs: 0,
            state: BreakerEntry::Closed,
        }
    }
}

/// The model stands at this place of the pool, and at none before it.
pub open spec fn stands_at(pool: Seq<ModelEntryView>, id: Seq<char>, i: int) -> bool {
    &&& 0 <= i < pool.len()
    &&& pool[i].id == id
    &&& forall|j: int| 0 <= j < i ==> (#[trigger] pool[j]).id != id
}

/// Whether a breaker waits for the answer to its probe.
pub open spec fn awaits_probe(vb: VendorBreaker) -> bool {
    match vb.state {
        BreakerEntry::HalfOpen { probe_in_flight, .. } => probe_in_flight,
        _ => false,
    }
}

/// Whether a breaker is open until `secs` seconds after `now`.
pub open spec fn open_for(vb: VendorBreaker, now: Timestamp, secs: int) -> bool {
    match vb.state {
        BreakerEntry::Open { unavailable_until, .. } => {
            &&& unavailable_until.secs == now.secs + secs
            &&& unavailable_until.nanos == now.nanos
        },
        _ => false,
    }
}

/// One point in time is earlier than another.
pub open spec fn earlier(a: Timestamp, b: Timestamp) -> bool {
    a.secs < b.secs || (a.secs == b.secs && a.nanos < b.nanos)
}

/// Whether a span of this many seconds can be added to `now`, and is one that
/// the calendar's arithmetic knows.
pub open spec fn can_wait(now: Timestamp, secs: u64) -> bool {
    secs <= 9_223_372_036_854_775 && now.secs + secs <= i64::MAX
}

proof fn lemma_found(router: RouterView, id: Seq<char>, i: int)
    requires
        stands_at(router.pool, id, i),
    ensures
        place_of(ids_of(router.pool), id) == Some(i),
{
    let ids = ids_of(router.pool);
    lemma_place_of(ids, id);
    assert(ids[i] == id);
    assert(ids.contains(id));
    let k = place_of(ids, id)->0;
    if k < i {
        assert(router.pool[k].id != id);
    }
}

/// Each server error, whatever its status between 500 and 599, is one more in a
/// row. The one that reaches the threshold takes the model out for its
/// cool-down, and those before it take it out of nothing. Nothing else changes.
pub proof fn each_server_error_counts(
    before: RouterView,
    after: RouterView,
    id: Seq<char>,
    i: int,
    status: u16,
    retry_after_secs: Option<u64>,
    now: Timestamp,
)
    requires
        recorded(before, after, id, status, retry_after_secs, now),
        stands_at(before.pool, id, i),
        500 <= status <= 599,
        !awaits_probe(known_breaker(before, id)),
        known_breaker(before, id).consecutive_5xx < 4_294_967_295,
        can_wait(now, before.pool[i].cooldown_5xx_secs),
    ensures
        ({
            let was = known_breaker(before, id);
            let is = known_breaker(after, id);
            &&& is.consecutive_5xx == was.consecutive_5xx + 1
            &&& is.consecutive_403 == was.consecutive_403
            &&& is.backoff_secs == was.backoff_secs
            &&& was.consecutive_5xx + 1 >= before.pool[i].retry_count_5xx ==> open_for(
                is,
                now,
                before.pool[i].cooldown_5xx_secs as int,
            )
            &&& was.consecutive_5xx + 1 < before.pool[i].retry_count_5xx ==> is.state == was.state
        }),
{
    lemma_found(before, id, i);
}

/// A run of server errors of any statuses between 500 and 599, and nothing else,
/// takes a model out that had no breaker exactly when it is as long as the
/// threshold, or longer: from the last of them on, for the cool-down.
pub proof fn run_of_server_errors_opens_at_the_threshold(
    states: Seq<RouterView>,
    statuses: Seq<u16>,
    waits: Seq<Option<u64>>,
    times: Seq<Timestamp>,
    id: Seq<char>,
    i: int,
)
    requires
        states.len() == statuses.len() + 1,
        waits.len() == statuses.len(),
        times.len() == statuses.len(),
        0 < statuses.len() < 4_294_967_295,
        stands_at(states[0].pool, id, i),
        !states[0].breakers.dom().contains(id),
        forall|k: int|
            0 <= k < statuses.len() ==> 500 <= #[trigger] statuses[k] <= 599 && recorded(
                states[k],
                states[k + 1],
                id,
                statuses[k],
                waits[k],
                times[k],
            ) && can_wait(times[k], states[0].pool[i].cooldown_5xx_secs),
    ensures
        ({
            let entry = states[0].pool[i];
            let vb = known_breaker(states.last(), id);
            &&& states.last().pool == states[0].pool
            &&& vb.consecutive_5xx == statuses.len()
            &&& statuses.len() >= entry.retry_count_5xx ==> open_for(
                vb,
                times.last(),
                entry.cooldown_5xx_secs as int,
            )
            &&& statuses.len() < entry.retry_count_5xx ==> vb.state is Closed
        }),
    decreases statuses.len(),
{
    let n = statuses.len() as int;
    let entry = states[0].pool[i];
    assert(500 <= statuses[n - 1] <= 599);
    if n > 1 {
        let s = states.drop_last();
        let c = statuses.drop_last();
        let w = waits.drop_last();
        let t = times.drop_last();
        assert forall|k: int| 0 <= k < c.len() implies 500 <= #[trigger] c[k] <= 599 && recorded(
            s[k],
            s[k + 1],
            id,
            c[k],
            w[k],
            t[k],
        ) && can_wait(t[k], s[0].pool[i].cooldown_5xx_secs) by {
            assert(500 <= statuses[k] <= 599);
        }
        run_of_server_errors_opens_at_the_threshold(s, c, w, t, id, i);
        assert(s.last() == states[n - 1]);
        assert(t.last() == times[n - 2]);
    }
    each_server_error_counts(
        states[n - 1],
        states[n],
        id,
        i,
        statuses[n - 1],
        waits[n - 1],
        times[n - 1],
    );
}

/// Each reply with a code that the model's entry lists is one more in a row. The
/// one that reaches the threshold takes the model out for its cool-down, and the
/// row starts over; those before it take it out of nothing.
pub proof fn each_listed_code_counts(
    before: RouterView,
    after: RouterView,
    id: Seq<char>,
    i: int,
    status: u16,
    retry_after_secs: Option<u64>,
    now: Timestamp,
)
    requires
        recorded(before, after, id, status, retry_after_secs, now),
        stands_at(before.pool, id, i),
        before.pool[i].retry_on.contains(status),
        status != 429,
        status < 500 || status > 599,
        !awaits_probe(known_breaker(before, id)),
        known_breaker(before, id).consecutive_403 < 4_294_967_295,
        can_wait(now, before.pool[i].retry_on_cooldown_secs),
    ensures
        ({
            let was = known_breaker(before, id);
            let is = known_breaker(after, id);
            &&& is.consecutive_5xx == was.consecutive_5xx
            &&& is.backoff_secs == was.backoff_secs
            &&& was.consecutive_403 + 1 >= before.pool[i].retry_on_count ==> is.consecutive_403 == 0
                && open_for(is, now, before.pool[i].retry_on_cooldown_secs as int)
            &&& was.consecutive_403 + 1 < before.pool[i].retry_on_count ==> is.consecutive_403
                == was.consecutive_403 + 1 && is.state == was.state
        }),
{
    lemma_found(before, id, i);
}

/// A rate limit takes the model out at once, at least for as long as the
/// upstream asks, and wipes out what was counted. The wait after a failed probe
/// gets longer by it: it is a minute, then twice as long as the last, up to an
/// hour.
pub proof fn rate_limit_takes_the_model_out(
    before: RouterView,
    after: RouterView,
    id: Seq<char>,
    i: int,
    retry_after_secs: Option<u64>,
    now: Timestamp,
)
    requires
        recorded(before, after, id, 429, retry_after_secs, now),
        stands_at(before.pool, id, i),
        !awaits_probe(known_breaker(before, id)),
    ensures
        ({
            let is = known_breaker(after, id);
            &&& is.consecutive_5xx == 0
            &&& is.consecutive_403 == 0
            &&& is.state is Open
            &&& known_breaker(before, id).backoff_secs == 0 ==> is.backoff_secs == 60
            &&& 0 < known_breaker(before, id).backoff_secs <= 1800 ==> is.backoff_secs == 2
                * known_breaker(before, id).backoff_secs
            &&& known_breaker(before, id).backoff_secs > 1800 ==> is.backoff_secs == 3600
            &&& match retry_after_secs {
                Some(secs) => -8_334_601_228_800 <= now.secs + secs <= 8_210_266_876_799
                    ==> !earlier(
                    is.state->unavailable_until,
                    Timestamp { secs: (now.secs + secs) as i64, nanos: now.nanos },
                ),
                None => true,
            }
        }),
{
    lemma_found(before, id, i);
}

/// What the upstream asks for only makes the wait longer: with it the model is
/// out until the later of that time and the time until which it is out without.
pub proof fn rate_limit_lasts_for_the_longer_wait(
    before: RouterView,
    asked: RouterView,
    unasked: RouterView,
    id: Seq<char>,
    i: int,
    secs: u64,
    now: Timestamp,
)
    requires
        recorded(before, asked, id, 429, Some(secs), now),
        recorded(before, unasked, id, 429, None, now),
        stands_at(before.pool, id, i),
        !awaits_probe(known_breaker(before, id)),
        -8_334_601_228_800 <= now.secs <= 8_210_266_876_799,
    ensures
        ({
            let with = known_breaker(asked, id).state->unavailable_until;
            let without = known_breaker(unasked, id).state->unavailable_until;
            let wanted = Timestamp { secs: (now.secs + secs) as i64, nanos: now.nanos };
            if now.secs + secs <= 8_210_266_876_799 && earlier(without, wanted) {
                with == wanted
            } else {
                with == without
            }
        }),
{
    lemma_found(before, id, i);
    let entry = before.pool[i];
    let anchor = entry.rate_limit_refresh_anchor;
    let interval = entry.rate_limit_refresh_interval_secs as int;
    if interval > 0 && !earlier(now, anchor) {
        let partial = if now.nanos < anchor.nanos {
            1int
        } else {
            0
        };
        let elapsed = now.secs - anchor.secs - partial;
        let n = elapsed / interval + 1;
        assert(n * interval > elapsed) by (nonlinear_arith)
            requires
                n == elapsed / interval + 1,
                interval > 0,
                elapsed >= 0,
        ;
    }
}

/// After a rate limit of which the upstream tells nothing more the model is out
/// until the next of its refresh points, which lie whole intervals apart and one
/// of which is the anchor: that point is ahead, and none that is ahead comes
/// before it.
pub proof fn rate_limit_ends_at_the_next_refresh(
    before: RouterView,
    after: RouterView,
    id: Seq<char>,
    i: int,
    now: Timestamp,
    k: int,
)
    requires
        recorded(before, after, id, 429, None, now),
        stands_at(before.pool, id, i),
        !awaits_probe(known_breaker(before, id)),
        before.pool[i].rate_limit_refresh_interval_secs > 0,
        -8_334_601_228_800 <= before.pool[i].rate_limit_refresh_anchor.secs,
        before.pool[i].rate_limit_refresh_anchor.secs <= now.secs,
        0 <= k,
        ({
            let entry = before.pool[i];
            let anchor = entry.rate_limit_refresh_anchor;
            let interval = entry.rate_limit_refresh_interval_secs;
            let at = anchor.secs + k * interval;
            &&& at <= 8_210_266_876_799
            &&& at > now.secs || (at == now.secs && anchor.nanos > now.nanos)
            &&& now.secs <= 8_210_266_876_799
        }),
    ensures
        ({
            let entry = before.pool[i];
            let anchor = entry.rate_limit_refresh_anchor;
            let interval = entry.rate_limit_refresh_interval_secs as int;
            let until = known_breaker(after, id).state->unavailable_until;
            &&& earlier(now, until)
            &&& until.nanos == anchor.nanos
            &&& (until.secs - anchor.secs) % interval == 0
            &&& until.secs <= anchor.secs + k * interval
        }),
{
    lemma_found(before, id, i);
    let entry = before.pool[i];
    let anchor = entry.rate_limit_refresh_anchor;
    let interval = entry.rate_limit_refresh_interval_secs as int;
    let until = known_breaker(after, id).state->unavailable_until;
    if !earlier(now, anchor) {
        let partial = if now.nanos < anchor.nanos {
            1int
        } else {
            0
        };
        let elapsed = now.secs - anchor.secs - partial;
        let n = elapsed / interval + 1;
        assert(n * interval > elapsed) by (nonlinear_arith)
            requires
                n == elapsed / interval + 1,
                interval > 0,
                elapsed >= 0,
        ;
        assert(n <= k) by (nonlinear_arith)
            requires
                n == elapsed / interval + 1,
                interval > 0,
                elapsed >= 0,
                k * interval > elapsed,
        ;
        assert(n * interval <= k * interval) by (nonlinear_arith)
            requires
                n <= k,
                interval > 0,
        ;
        assert((n * interval) % interval == 0) by (nonlinear_arith)
            requires
                interval > 0,
        ;
        assert(next_cycle(entry, now) == n);
        assert(until.secs - anchor.secs == n * interval);
    } else {
        assert(until == anchor);
        assert(0int % interval == 0) by (nonlinear_arith)
            requires
                interval > 0,
        ;
        assert(k * interval >= 0) by (nonlinear_arith)
            requires
                k >= 0,
                interval > 0,
        ;
    }
}

/// A probe that is answered with a rate limit, a server error or a listed code
/// takes the model out again. The first time that is for the cool-down that goes
/// with the reply, of at least a minute; from then on for twice as long as the
/// last time, up to an hour.
pub proof fn failed_probe_doubles_the_wait(
    before: RouterView,
    after: RouterView,
    id: Seq<char>,
    i: int,
    status: u16,
    retry_after_secs: Option<u64>,
    now: Timestamp,
)
    requires
        recorded(before, after, id, status, retry_after_secs, now),
        stands_at(before.pool, id, i),
        awaits_probe(known_breaker(before, id)),
        status == 429 || 500 <= status <= 599 || before.pool[i].retry_on.contains(status),
        now.secs + known_breaker(after, id).backoff_secs <= i64::MAX,
    ensures
        ({
            let entry = before.pool[i];
            let was = known_breaker(before, id);
            let is = known_breaker(after, id);
            let base = if status == 429 {
                60
            } else if 500 <= status <= 599 {
                entry.cooldown_5xx_secs as int
            } else {
                entry.retry_on_cooldown_secs as int
            };
            &&& is.consecutive_5xx == 0
            &&& is.consecutive_403 == 0
            &&& open_for(is, now, is.backoff_secs as int)
            &&& was.backoff_secs == 0 && base >= 60 ==> is.backoff_secs == base
            &&& was.backoff_secs == 0 && base < 60 ==> is.backoff_secs == 60
            &&& 0 < was.backoff_secs <= 1800 ==> is.backoff_secs == 2 * was.backoff_secs
            &&& was.backoff_secs > 1800 ==> is.backoff_secs == 3600
        }),
{
    lemma_found(before, id, i);
}

/// Whether a status is none of a rate limit, a server error and a listed code.
pub open spec fn is_fine(entry: ModelEntryView, status: u16) -> bool {
    &&& status != 429
    &&& status < 500 || status > 599
    &&& !entry.retry_on.contains(status)
}

/// Any other reply is a success. The first one after the model was out starts a
/// warm-up of little weight. Each of the next three adds as much weight as the
/// last, and the fourth closes the breaker and wipes out all that went wrong. A
/// closed breaker stays closed, with nothing counted, and an open one stays open.
pub proof fn successes_warm_up_and_close(
    before: RouterView,
    after: RouterView,
    id: Seq<char>,
    i: int,
    status: u16,
    retry_after_secs: Option<u64>,
    now: Timestamp,
)
    requires
        recorded(before, after, id, status, retry_after_secs, now),
        stands_at(before.pool, id, i),
        is_fine(before.pool[i], status),
        known_breaker(before, id).wf(),
    ensures
        ({
            let was = known_breaker(before, id);
            let is = known_breaker(after, id);
            match was.state {
                BreakerEntry::HalfOpen { .. } => {
                    &&& is.state matches BreakerEntry::Warmup { success_count, required, weight }
                        && success_count == 1 && required == 5 && weight == 5
                    &&& is.backoff_secs == was.backoff_secs
                },
                BreakerEntry::Warmup { success_count, .. } => if success_count < 4 {
                    is.state matches BreakerEntry::Warmup {
                        success_count: n,
                        required,
                        weight,
                    } && n == success_count + 1 && required == 5 && weight == 5 + 19
                        * success_count
                } else {
                    &&& is.state is Closed
                    &&& is.consecutive_5xx == 0
                    &&& is.consecutive_403 == 0
                    &&& is.backoff_secs == 0
                },
                _ => {
                    &&& is.state == was.state
                    &&& is.consecutive_5xx == 0
                    &&& is.consecutive_403 == 0
                    &&& is.backoff_secs == 0
                },
            }
        }),
{
    lemma_found(before, id, i);
}

/// A reply changes neither the pool nor the catalog, nor what is known of any
/// other model; and one of a model that is not in the pool changes nothing.
pub proof fn reply_changes_one_breaker_alone(
    before: RouterView,
    after: RouterView,
    id: Seq<char>,
    status: u16,
    retry_after_secs: Option<u64>,
    now: Timestamp,
    other: Seq<char>,
)
    requires
        recorded(before, after, id, status, retry_after_secs, now),
        other != id || (forall|j: int|
            0 <= j < before.pool.len() ==> (#[trigger] before.pool[j]).id != id),
    ensures
        after.pool == before.pool,
        after.catalog == before.catalog,
        known_breaker(after, other) == known_breaker(before, other),
{
    let ids = ids_of(before.pool);
    lemma_place_of(ids, id);
    if place_of(ids, id) is Some {
        let k = place_of(ids, id)->0;
        assert(before.pool[k].id == ids[k]);
    }
}

/// A model that a reply takes out is out for a reason that names what it was: a
/// rate limit, server errors or listed codes, and whether they met a probe.
pub proof fn reasons_name_what_took_the_model_out(
    before: RouterView,
    after: RouterView,
    id: Seq<char>,
    i: int,
    status: u16,
    retry_after_secs: Option<u64>,
    now: Timestamp,
)
    requires
        recorded(before, after, id, status, retry_after_secs, now),
        stands_at(before.pool, id, i),
        !(known_breaker(before, id).state is Open),
    ensures
        match known_breaker(after, id).state {
            BreakerEntry::Open { reason, .. } => {
                let probed = awaits_probe(known_breaker(before, id));
                &&& status == 429 && probed ==> reason@ == "probe 429"@
                &&& status == 429 && !probed ==> reason@ == "429"@
                &&& 500 <= status <= 599 && probed ==> reason@ == "probe 5xx"@
                &&& 500 <= status <= 599 && !probed ==> reason@ == "5xx threshold"@
                &&& status != 429 && !(500 <= status <= 599) && probed ==> reason@
                    == "probe retry-on"@
                &&& status != 429 && !(500 <= status <= 599) && !probed ==> reason@
                    == "retry-on threshold"@
            },
            _ => true,
        },
{
}

} // verus!
