//! Picking a model: a walk along the pool from the requested model on.
use crate::breaker::{
    after_check, after_probe_sent, availability, breaker_of, Availability, BreakerEntry,
    CircuitBreaker, VendorBreaker,
};
use crate::clock::{secs_until, Timestamp};
use crate::config::{route_to, ModelEntry, ModelEntryView, Route, RouterError};
use crate::text::same;
use vstd::prelude::*;

verus! {

/// Seconds to wait where no breaker says how long.
pub const DEFAULT_RETRY_AFTER_SECS: u64 = 60;

/// Whether a model can be picked at the time `now`.
pub open spec fn selectable(vb: VendorBreaker, now: Timestamp) -> bool {
    !(availability(after_check(vb, now).state, now) is Unavailable)
}

/// The breaker of a model that has been picked: a half-open one has its probe
/// out.
pub open spec fn after_pick(vb: VendorBreaker, now: Timestamp) -> VendorBreaker {
    after_probe_sent(after_check(vb, now), now)
}

/// The end of a cool-down that is not over.
pub open spec fn cooling_until(vb: VendorBreaker, now: Timestamp) -> Option<Timestamp> {
    match vb.state {
        BreakerEntry::Open { unavailable_until, .. } => if now.before(unavailable_until) {
            Some(unavailable_until)
        } else {
            None
        },
        _ => None,
    }
}

/// The earlier of two points, where there are two.
pub open spec fn earlier_of(a: Option<Timestamp>, b: Option<Timestamp>) -> Option<Timestamp> {
    match (a, b) {
        (Some(x), Some(y)) => if y.before(x) {
            b
        } else {
            a
        },
        (None, _) => b,
        (_, None) => a,
    }
}

/// When the first of these models is through with its cool-down.
pub open spec fn soonest(
    ids: Seq<Seq<char>>,
    breakers: Map<Seq<char>, VendorBreaker>,
    now: Timestamp,
) -> Option<Timestamp>
    decreases ids.len(),
{
    if ids.len() == 0 {
        None
    } else {
        earlier_of(
            soonest(ids.drop_last(), breakers, now),
            cooling_until(breaker_of(breakers, ids.last()), now),
        )
    }
}

/// The seconds after which it is worth asking for these models again.
pub open spec fn retry_after(
    ids: Seq<Seq<char>>,
    breakers: Map<Seq<char>, VendorBreaker>,
    now: Timestamp,
) -> int {
    match soonest(ids, breakers, now) {
        Some(until) => secs_until(now, until),
        None => DEFAULT_RETRY_AFTER_SECS as int,
    }
}

/// The ids of these entries.
pub open spec fn ids_of(pool: Seq<ModelEntryView>) -> Seq<Seq<char>> {
    pool.map_values(|entry: ModelEntryView| entry.id)
}

/// The entries as values.
pub open spec fn entries_of(pool: Seq<ModelEntry>) -> Seq<ModelEntryView> {
    pool.map_values(|entry: ModelEntry| entry@)
}

/// The first place of an id.
pub open spec fn place_of(ids: Seq<Seq<char>>, id: Seq<char>) -> Option<int>
    decreases ids.len(),
{
    if ids.len() == 0 {
        None
    } else {
        match place_of(ids.drop_last(), id) {
            Some(i) => Some(i),
            None => if ids.last() == id {
                Some(ids.len() - 1)
            } else {
                None
            },
        }
    }
}

/// What `place_of` finds is the first place of the id.
pub proof fn lemma_place_of(ids: Seq<Seq<char>>, id: Seq<char>)
    ensures
        match place_of(ids, id) {
            Some(i) => 0 <= i < ids.len() && ids[i] == id && (forall|j: int|
                0 <= j < i ==> ids[j] != id),
            None => !ids.contains(id),
        },
    decreases ids.len(),
{
    if ids.len() > 0 {
        let front = ids.drop_last();
        lemma_place_of(front, id);
        assert forall|j: int| 0 <= j < ids.len() - 1 && place_of(front, id) is None implies ids[j]
            != id by {
            assert(front[j] == ids[j]);
            assert(front.contains(ids[j]));
        }
        if let Some(i) = place_of(front, id) {
            assert(front[i] == ids[i]);
            assert forall|j: int| 0 <= j < i implies ids[j] != id by {
                assert(front[j] == ids[j]);
            }
        }
    }
}

/// The first place, from `from` on, of a model that can be picked.
pub open spec fn next_pick(
    ids: Seq<Seq<char>>,
    breakers: Map<Seq<char>, VendorBreaker>,
    from: int,
    now: Timestamp,
) -> Option<int>
    decreases ids.len() - from,
{
    if from < 0 || from >= ids.len() {
        None
    } else if selectable(breaker_of(breakers, ids[from]), now) {
        Some(from)
    } else {
        next_pick(ids, breakers, from + 1, now)
    }
}

/// What `next_pick` finds can be picked, and nothing before it can.
pub proof fn lemma_next_pick(
    ids: Seq<Seq<char>>,
    breakers: Map<Seq<char>, VendorBreaker>,
    from: int,
    now: Timestamp,
)
    requires
        0 <= from <= ids.len(),
    ensures
        match next_pick(ids, breakers, from, now) {
            Some(i) => {
                &&& from <= i < ids.len()
                &&& selectable(breaker_of(breakers, ids[i]), now)
                &&& forall|j: int|
                    from <= j < i ==> !selectable(breaker_of(breakers, #[trigger] ids[j]), now)
            },
            None => forall|j: int|
                from <= j < ids.len() ==> !selectable(breaker_of(breakers, #[trigger] ids[j]), now),
        },
    decreases ids.len() - from,
{
    if from < ids.len() && !selectable(breaker_of(breakers, ids[from]), now) {
        lemma_next_pick(ids, breakers, from + 1, now);
    }
}

/// After the models `visited` have been looked at, and the one at `picked`, if
/// any, has been picked, each breaker is what these steps make of it. All
/// others are as they were.
pub open spec fn looked_at(
    before: Map<Seq<char>, VendorBreaker>,
    after: Map<Seq<char>, VendorBreaker>,
    visited: Seq<Seq<char>>,
    picked: Option<Seq<char>>,
    now: Timestamp,
) -> bool {
    forall|id: Seq<char>| #[trigger]
        breaker_of(after, id) == (if picked == Some(id) {
            after_pick(breaker_of(before, id), now)
        } else if visited.contains(id) {
            after_check(breaker_of(before, id), now)
        } else {
            breaker_of(before, id)
        })
}

/// A second look at the same time changes nothing.
pub proof fn check_is_idempotent(vb: VendorBreaker, now: Timestamp)
    ensures
        after_check(after_check(vb, now), now) == after_check(vb, now),
        selectable(after_check(vb, now), now) == selectable(vb, now),
        cooling_until(after_check(vb, now), now) == cooling_until(vb, now),
{
}

/// A look moves no cool-down that is not over.
pub proof fn lemma_soonest_after_looks(
    ids: Seq<Seq<char>>,
    before: Map<Seq<char>, VendorBreaker>,
    after: Map<Seq<char>, VendorBreaker>,
    visited: Seq<Seq<char>>,
    now: Timestamp,
)
    requires
        looked_at(before, after, visited, None, now),
    ensures
        soonest(ids, after, now) == soonest(ids, before, now),
    decreases ids.len(),
{
    if ids.len() > 0 {
        lemma_soonest_after_looks(ids.drop_last(), before, after, visited, now);
        check_is_idempotent(breaker_of(before, ids.last()), now);
        assert(breaker_of(after, ids.last()) == breaker_of(after, ids.last()));
    }
}

/// The first place of a model in a pool.
pub fn position(pool: &Vec<ModelEntry>, model: &str) -> (at: Option<usize>)
    ensures
        match at {
            Some(i) => i < pool@.len() && place_of(ids_of(entries_of(pool@)), model@) == Some(i as int),
            None => place_of(ids_of(entries_of(pool@)), model@) is None,
        },
{
    let ghost ids = ids_of(entries_of(pool@));
    proof {
        lemma_place_of(ids, model@);
    }
    let mut i: usize = 0;
    while i < pool.len()
        invariant
            i <= pool@.len(),
            ids == ids_of(entries_of(pool@)),
            ids.len() == pool@.len(),
            forall|j: int| 0 <= j < i ==> ids[j] != model@,
            match place_of(ids, model@) {
                Some(i) => 0 <= i < ids.len() && ids[i] == model@ && (forall|j: int|
                    0 <= j < i ==> ids[j] != model@),
                None => !ids.contains(model@),
            },
        decreases pool@.len() - i,
    {
        assert(ids[i as int] == pool@[i as int].id@);
        if same(pool[i].id.as_str(), model) {
            assert(ids.contains(model@));
            return Some(i);
        }
        i = i + 1;
    }
    None
}

/// One more look, and the pick that may follow on it.
pub proof fn lemma_one_more_look(
    before: Map<Seq<char>, VendorBreaker>,
    seen: Map<Seq<char>, VendorBreaker>,
    after: Map<Seq<char>, VendorBreaker>,
    visited: Seq<Seq<char>>,
    id: Seq<char>,
    now: Timestamp,
)
    requires
        looked_at(before, seen, visited, None, now),
        after == seen.insert(id, after_check(breaker_of(seen, id), now)),
    ensures
        after_check(breaker_of(seen, id), now) == after_check(breaker_of(before, id), now),
        looked_at(before, after, visited.push(id), None, now),
        selectable(breaker_of(before, id), now) ==> looked_at(
            before,
            after.insert(id, after_probe_sent(breaker_of(after, id), now)),
            visited.push(id),
            Some(id),
            now,
        ),
        selectable(breaker_of(before, id), now) && !(availability(
            after_check(breaker_of(before, id), now).state,
            now,
        ) is ProbeAllowed) ==> looked_at(before, after, visited.push(id), Some(id), now),
{
    let more = visited.push(id);
    assert(breaker_of(seen, id) == breaker_of(seen, id));
    check_is_idempotent(breaker_of(before, id), now);
    assert forall|other: Seq<char>| more.contains(other) <==> (other == id || visited.contains(
        other,
    )) by {
        if visited.contains(other) {
            assert(more[visited.index_of(other)] == other);
        }
        if more.contains(other) && other != id {
            assert(visited[more.index_of(other)] == other);
        }
        assert(more[visited.len() as int] == id);
    }
    assert forall|other: Seq<char>| other != id implies #[trigger] breaker_of(after, other)
        == breaker_of(seen, other) by {}
    let sent = after.insert(id, after_probe_sent(breaker_of(after, id), now));
    assert forall|other: Seq<char>| other != id implies #[trigger] breaker_of(sent, other)
        == breaker_of(seen, other) by {}
}

/// Picks from a pool at a given time.
pub struct RouteSelector<'a> {
    pool: &'a Vec<ModelEntry>,
    now: Timestamp,
}

impl<'a> RouteSelector<'a> {
    pub closed spec fn spec_pool(&self) -> Seq<ModelEntryView> {
        entries_of(self.pool@)
    }

    pub closed spec fn spec_now(&self) -> Timestamp {
        self.now
    }

    pub fn new(pool: &'a Vec<ModelEntry>, now: Timestamp) -> (selector: RouteSelector<'a>)
        ensures
            selector.spec_pool() == entries_of(pool@),
            selector.spec_now() == now,
    {
        RouteSelector { pool, now }
    }

    /// Resolves a request for `model`: from its first place in the pool on,
    /// the first model that can be picked.
    pub fn select(&self, breaker: &mut CircuitBreaker, model: &str) -> (r: Result<
        Route,
        RouterError,
    >)
        requires
            old(breaker).wf(),
        ensures
            final(breaker).wf(),
            ({
                let ids = ids_of(self.spec_pool());
                let now = self.spec_now();
                match place_of(ids, model@) {
                    None => {
                        &&& r matches Err(RouterError::UnknownModel(name)) && name@ == model@
                        &&& final(breaker)@ == old(breaker)@
                    },
                    Some(start) => match next_pick(ids, old(breaker)@, start, now) {
                        Some(i) => {
                            &&& r matches Ok(route) && route@ == route_to(self.spec_pool()[i])
                            &&& looked_at(
                                old(breaker)@,
                                final(breaker)@,
                                ids.subrange(start, i + 1),
                                Some(ids[i]),
                                now,
                            )
                        },
                        None => {
                            &&& r matches Err(RouterError::AllUnavailable { retry_after_secs })
                                && retry_after_secs == retry_after(ids, old(breaker)@, now)
                            &&& looked_at(
                                old(breaker)@,
                                final(breaker)@,
                                ids.subrange(start, ids.len() as int),
                                None,
                                now,
                            )
                        },
                    },
                }
            }),
    {
        let ghost ids = ids_of(self.spec_pool());
        let ghost now = self.now;
        let ghost before = breaker@;
        assert(ids.len() == self.pool@.len());
        let start: usize = match position(self.pool, model) {
            Some(start) => start,
            None => {
                return Err(RouterError::UnknownModel(model.to_owned()));
            },
        };
        proof {
            lemma_place_of(ids, model@);
        }
        let mut i: usize = start;
        proof {
            lemma_next_pick(ids, before, start as int, now);
        }
        while i < self.pool.len()
            invariant
                start <= i <= self.pool@.len(),
                ids == ids_of(self.spec_pool()),
                ids.len() == self.pool@.len(),
                now == self.now,
                breaker.wf(),
                place_of(ids, model@) == Some(start as int),
                next_pick(ids, before, start as int, now) == next_pick(ids, before, i as int, now),
                looked_at(before, breaker@, ids.subrange(start as int, i as int), None, now),
                before == old(breaker)@,
            decreases self.pool@.len() - i,
        {
            let entry = &self.pool[i];
            let ghost seen = breaker@;
            let ghost visited = ids.subrange(start as int, i as int);
            assert(ids[i as int] == entry.id@);
            assert(ids.subrange(start as int, i + 1) =~= visited.push(entry.id@));
            let avail = breaker.check_availability_mut(entry.id.as_str(), self.now);
            proof {
                lemma_one_more_look(before, seen, breaker@, visited, entry.id@, now);
            }
            match avail {
                Availability::Unavailable => {},
                _ => {
                    if let Availability::ProbeAllowed { .. } = avail {
                        breaker.record_probe_sent(entry.id.as_str(), self.now);
                    }
                    return Ok(Route::to_model(entry));
                },
            }
            i = i + 1;
        }
        proof {
            lemma_soonest_after_looks(
                ids,
                before,
                breaker@,
                ids.subrange(start as int, ids.len() as int),
                now,
            );
        }
        let retry_after_secs: u64 = self.min_retry_after_secs(breaker);
        Err(RouterError::AllUnavailable { retry_after_secs })
    }

    /// The seconds after which the first model of the pool is through with its
    /// cool-down.
    pub fn min_retry_after_secs(&self, breaker: &CircuitBreaker) -> (secs: u64)
        requires
            breaker.wf(),
        ensures
            secs == retry_after(ids_of(self.spec_pool()), breaker@, self.spec_now()),
    {
        let ghost ids = ids_of(self.spec_pool());
        let mut min_until: Option<Timestamp> = None;
        let mut i: usize = 0;
        assert(ids.take(0) =~= Seq::<Seq<char>>::empty());
        while i < self.pool.len()
            invariant
                i <= self.pool@.len(),
                ids == ids_of(self.spec_pool()),
                ids.len() == self.pool@.len(),
                breaker.wf(),
                min_until == soonest(ids.take(i as int), breaker@, self.now),
            decreases self.pool@.len() - i,
        {
            assert(ids.take(i + 1).drop_last() =~= ids.take(i as int));
            assert(ids.take(i + 1).last() == self.pool@[i as int].id@);
            min_until = sooner(
                min_until,
                breaker.unavailable_until(self.pool[i].id.as_str()),
                self.now,
            );
            i = i + 1;
        }
        assert(ids.take(ids.len() as int) =~= ids);
        match min_until {
            Some(until) => self.now.secs_until(&until),
            None => DEFAULT_RETRY_AFTER_SECS,
        }
    }
}

/// The earlier of `min_until` and `until`, where the latter is ahead of `now`.
pub fn sooner(min_until: Option<Timestamp>, until: Option<Timestamp>, now: Timestamp) -> (r: Option<
    Timestamp,
>)
    ensures
        r == (match until {
            Some(u) if now.before(u) => earlier_of(min_until, until),
            _ => min_until,
        }),
{
    match until {
        Some(u) => {
            if now.is_before(&u) {
                match min_until {
                    Some(m) => if u.is_before(&m) {
                        Some(u)
                    } else {
                        Some(m)
                    },
                    None => Some(u),
                }
            } else {
                min_until
            }
        },
        None => min_until,
    }
}

} // verus!
