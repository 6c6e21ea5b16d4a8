//! Circuit breaker per model.
//!
//! A model starts out `Closed`, that is available. A rate limit, or a run of
//! failures, opens its breaker until some point in time. From then on it is
//! `HalfOpen`: one real request is let through as a probe. A probe that fails
//! opens the breaker again, for twice as long. One that succeeds puts the
//! model into `Warmup`, where it has little weight, and after a run of
//! successes it is `Closed` again.
use crate::clock::{in_calendar, span_secs, Timestamp};
use crate::table::Table;
use vstd::prelude::*;

verus! {

/// Weight of a model at the start of its warm-up.
pub const WARMUP_MIN_WEIGHT: u32 = 5;

/// Weight gained with each success of the warm-up.
pub const WARMUP_WEIGHT_STEP: u32 = 19;

/// Successes in a row, the probe among them, that close the breaker again.
pub const WARMUP_REQUIRED_SUCCESSES: u32 = 5;

/// Weight of a model that is fully available.
pub const FULL_WEIGHT: u32 = 100;

/// Shortest backoff.
pub const MIN_BACKOFF_SECS: u64 = 60;

/// Longest backoff that doubling leads to.
pub const MAX_BACKOFF_SECS: u64 = 3600;

/// Whether a model can be picked.
#[derive(Clone, Copy, Debug, PartialEq, Eq, Structural)]
pub enum Availability {
    /// Fully available.
    Available,
    /// Available in its warm-up, with this weight.
    AvailableWithWeight(u32),
    /// Cooling down, or its probe is out.
    Unavailable,
    /// The cool-down is over: one request may go through as a probe.
    ProbeAllowed { since: Timestamp },
}

/// The state of one breaker.
#[derive(Clone, Copy, Debug)]
pub enum BreakerEntry {
    Closed,
    Open { unavailable_until: Timestamp, reason: &'static str },
    HalfOpen { available_since: Timestamp, probe_in_flight: bool },
    Warmup { success_count: u32, required: u32, weight: u32 },
}

/// One model's breaker: its state, its runs of failures and its backoff.
#[derive(Clone, Copy, Debug)]
pub struct VendorBreaker {
    pub consecutive_5xx: u32,
    pub consecutive_403: u32,
    pub backoff_secs: u64,
    pub state: BreakerEntry,
}

impl BreakerEntry {
    /// The weight of a model in this state.
    pub open spec fn spec_weight(self) -> u32 {
        match self {
            BreakerEntry::Closed => FULL_WEIGHT,
            BreakerEntry::Warmup { weight, .. } => weight,
            _ => 0,
        }
    }

    /// A warm-up has seen some of its successes, not all, and its weight
    /// follows from their number.
    pub open spec fn wf(self) -> bool {
        self matches BreakerEntry::Warmup { success_count, required, weight } ==> {
            &&& required == WARMUP_REQUIRED_SUCCESSES
            &&& 1 <= success_count < required
            &&& weight == WARMUP_MIN_WEIGHT + WARMUP_WEIGHT_STEP * (success_count - 1)
        }
    }

    pub fn is_half_open(&self) -> (b: bool)
        ensures
            b == (self is HalfOpen),
    {
        matches!(self, BreakerEntry::HalfOpen { .. })
    }

    pub fn is_warmup(&self) -> (b: bool)
        ensures
            b == (self is Warmup),
    {
        matches!(self, BreakerEntry::Warmup { .. })
    }

    pub fn weight(&self) -> (w: u32)
        ensures
            w == self.spec_weight(),
    {
        match self {
            BreakerEntry::Closed => FULL_WEIGHT,
            BreakerEntry::Warmup { weight, .. } => *weight,
            _ => 0,
        }
    }
}

/// What a caller sees of a state at the time `now`. An open breaker counts as
/// unavailable even once its time is over: only `after_check` moves it on.
pub open spec fn availability(state: BreakerEntry, now: Timestamp) -> Availability {
    match state {
        BreakerEntry::Closed => Availability::Available,
        BreakerEntry::Warmup { weight, .. } => Availability::AvailableWithWeight(weight),
        BreakerEntry::Open { .. } => Availability::Unavailable,
        BreakerEntry::HalfOpen { probe_in_flight, .. } => if probe_in_flight {
            Availability::Unavailable
        } else {
            Availability::ProbeAllowed { since: now }
        },
    }
}

/// The breaker of a model of which nothing has been recorded.
pub open spec fn fresh() -> VendorBreaker {
    VendorBreaker {
        consecutive_5xx: 0,
        consecutive_403: 0,
        backoff_secs: 0,
        state: BreakerEntry::Closed,
    }
}

/// The breaker of a model.
pub open spec fn breaker_of(all: Map<Seq<char>, VendorBreaker>, model_id: Seq<char>) -> VendorBreaker {
    if all.contains_key(model_id) {
        all[model_id]
    } else {
        fresh()
    }
}

/// The backoff that follows on `backoff_secs`: the base, of at least a minute,
/// and from then on doubled up to an hour.
pub open spec fn next_backoff(backoff_secs: u64, base_secs: u64) -> u64 {
    if backoff_secs == 0 {
        if base_secs < MIN_BACKOFF_SECS {
            MIN_BACKOFF_SECS
        } else {
            base_secs
        }
    } else if backoff_secs * 2 > MAX_BACKOFF_SECS {
        MAX_BACKOFF_SECS
    } else {
        (backoff_secs * 2) as u64
    }
}

/// A look at the breaker: once the time of an open one is over it is half open.
pub open spec fn after_check(vb: VendorBreaker, now: Timestamp) -> VendorBreaker {
    match vb.state {
        BreakerEntry::Open { unavailable_until, .. } => if now.before(unavailable_until) {
            vb
        } else {
            VendorBreaker {
                state: BreakerEntry::HalfOpen { available_since: now, probe_in_flight: false },
                ..vb
            }
        },
        _ => vb,
    }
}

/// The probe of a half-open breaker is sent.
pub open spec fn after_probe_sent(vb: VendorBreaker, now: Timestamp) -> VendorBreaker {
    match vb.state {
        BreakerEntry::HalfOpen { .. } => VendorBreaker {
            state: BreakerEntry::HalfOpen { available_since: now, probe_in_flight: true },
            ..vb
        },
        _ => vb,
    }
}

/// Open until `until`, with the counts at zero and the backoff of the next
/// failed probe settled.
pub open spec fn after_pull_out(
    vb: VendorBreaker,
    until: Timestamp,
    reason: &'static str,
) -> VendorBreaker {
    VendorBreaker {
        consecutive_5xx: 0,
        consecutive_403: 0,
        backoff_secs: next_backoff(vb.backoff_secs, MIN_BACKOFF_SECS),
        state: BreakerEntry::Open { unavailable_until: until, reason },
    }
}

/// Open for the length of the next backoff.
pub open spec fn after_backoff(
    vb: VendorBreaker,
    base_secs: u64,
    now: Timestamp,
    reason: &'static str,
) -> VendorBreaker {
    let backoff = next_backoff(vb.backoff_secs, base_secs);
    VendorBreaker {
        consecutive_5xx: 0,
        consecutive_403: 0,
        backoff_secs: backoff,
        state: BreakerEntry::Open { unavailable_until: now.moved(backoff as int), reason },
    }
}

/// A server error is counted. At the threshold the breaker opens; the count
/// goes on.
pub open spec fn after_5xx(
    vb: VendorBreaker,
    threshold: u32,
    now: Timestamp,
    cooldown_secs: u64,
) -> VendorBreaker {
    let count = (vb.consecutive_5xx + 1) as u32;
    VendorBreaker {
        consecutive_5xx: count,
        state: if count >= threshold {
            BreakerEntry::Open {
                unavailable_until: now.moved(span_secs(cooldown_secs)),
                reason: "5xx threshold",
            }
        } else {
            vb.state
        },
        ..vb
    }
}

/// A reply that calls for another model is counted. At the threshold the
/// breaker opens and the count starts over.
pub open spec fn after_retry_on(
    vb: VendorBreaker,
    threshold: u32,
    now: Timestamp,
    cooldown_secs: u64,
) -> VendorBreaker {
    let count = (vb.consecutive_403 + 1) as u32;
    if count >= threshold {
        VendorBreaker {
            consecutive_403: 0,
            state: BreakerEntry::Open {
                unavailable_until: now.moved(span_secs(cooldown_secs)),
                reason: "retry-on threshold",
            },
            ..vb
        }
    } else {
        VendorBreaker { consecutive_403: count, ..vb }
    }
}

/// A success: a half-open breaker starts its warm-up, a warm-up gets on, and
/// when it ends, as in any other state, the counts and the backoff go back to
/// zero.
pub open spec fn after_success(vb: VendorBreaker) -> VendorBreaker {
    match vb.state {
        BreakerEntry::HalfOpen { .. } => VendorBreaker {
            state: BreakerEntry::Warmup {
                success_count: 1,
                required: WARMUP_REQUIRED_SUCCESSES,
                weight: WARMUP_MIN_WEIGHT,
            },
            ..vb
        },
        BreakerEntry::Warmup { success_count, required, weight } => if success_count + 1
            >= required {
            fresh()
        } else {
            VendorBreaker {
                state: BreakerEntry::Warmup {
                    success_count: (success_count + 1) as u32,
                    required,
                    weight: if weight + WARMUP_WEIGHT_STEP > FULL_WEIGHT {
                        FULL_WEIGHT
                    } else {
                        (weight + WARMUP_WEIGHT_STEP) as u32
                    },
                },
                ..vb
            }
        },
        _ => VendorBreaker { consecutive_5xx: 0, consecutive_403: 0, backoff_secs: 0, ..vb },
    }
}

/// A server error can be counted: the count has room, and where the breaker
/// opens, the cool-down ends within the calendar.
pub open spec fn can_count_5xx(
    vb: VendorBreaker,
    threshold: u32,
    now: Timestamp,
    cooldown_secs: u64,
) -> bool {
    &&& vb.consecutive_5xx < u32::MAX
    &&& vb.consecutive_5xx + 1 >= threshold ==> in_calendar(now.secs + span_secs(cooldown_secs))
}

/// A reply that calls for another model can be counted.
pub open spec fn can_count_retry_on(
    vb: VendorBreaker,
    threshold: u32,
    now: Timestamp,
    cooldown_secs: u64,
) -> bool {
    &&& vb.consecutive_403 < u32::MAX
    &&& vb.consecutive_403 + 1 >= threshold ==> in_calendar(now.secs + span_secs(cooldown_secs))
}

/// The next backoff ends within the calendar.
pub open spec fn can_back_off(vb: VendorBreaker, base_secs: u64, now: Timestamp) -> bool {
    in_calendar(now.secs + next_backoff(vb.backoff_secs, base_secs))
}

impl VendorBreaker {
    /// The state is well-formed, and a backoff is at least a minute.
    pub open spec fn wf(self) -> bool {
        &&& self.state.wf()
        &&& self.backoff_secs == 0 || self.backoff_secs >= MIN_BACKOFF_SECS
    }

    /// A breaker of which nothing has been recorded.
    pub fn fresh() -> (vb: VendorBreaker)
        ensures
            vb == fresh(),
    {
        VendorBreaker {
            consecutive_5xx: 0,
            consecutive_403: 0,
            backoff_secs: 0,
            state: BreakerEntry::Closed,
        }
    }

    /// Moves on to the next backoff and returns it.
    pub fn double_backoff(&mut self, base_secs: u64) -> (secs: u64)
        ensures
            secs == next_backoff(old(self).backoff_secs, base_secs),
            *final(self) == (VendorBreaker { backoff_secs: secs, ..*old(self) }),
    {
        let new_secs: u64 = if self.backoff_secs == 0 {
            if base_secs < MIN_BACKOFF_SECS {
                MIN_BACKOFF_SECS
            } else {
                base_secs
            }
        } else if self.backoff_secs > MAX_BACKOFF_SECS / 2 {
            MAX_BACKOFF_SECS
        } else {
            self.backoff_secs * 2
        };
        self.backoff_secs = new_secs;
        new_secs
    }

    /// Whether the next backoff, from `now` on, ends within the calendar.
    pub fn backoff_fits(&self, base_secs: u64, now: Timestamp) -> (b: bool)
        ensures
            b == can_back_off(*self, base_secs, now),
    {
        let mut next = *self;
        let backoff: u64 = next.double_backoff(base_secs);
        now.plus_secs(backoff).is_some()
    }

    pub fn reset_backoff(&mut self)
        ensures
            *final(self) == (VendorBreaker { backoff_secs: 0, ..*old(self) }),
    {
        self.backoff_secs = 0;
    }
}

/// The breakers of all models.
#[derive(Clone, Debug)]
pub struct CircuitBreaker {
    state: Table<VendorBreaker>,
}

impl View for CircuitBreaker {
    type V = Map<Seq<char>, VendorBreaker>;

    closed spec fn view(&self) -> Map<Seq<char>, VendorBreaker> {
        self.state@
    }
}

impl CircuitBreaker {
    /// Each model has one breaker, and each is well-formed.
    pub closed spec fn wf(&self) -> bool {
        &&& self.state.wf()
        &&& forall|id: Seq<char>| #[trigger] self.state@.contains_key(id) ==> self.state@[id].wf()
    }

    /// Each breaker of a well-formed table is well-formed.
    pub proof fn lemma_wf(&self, model_id: Seq<char>)
        requires
            self.wf(),
        ensures
            breaker_of(self@, model_id).wf(),
    {
        if self.state@.contains_key(model_id) {
        }
    }

    pub fn new() -> (breaker: CircuitBreaker)
        ensures
            breaker.wf(),
            breaker@ == Map::<Seq<char>, VendorBreaker>::empty(),
    {
        CircuitBreaker { state: Table::new() }
    }

    /// The breaker of a model.
    pub fn entry(&self, model_id: &str) -> (vb: VendorBreaker)
        requires
            self.wf(),
        ensures
            vb == breaker_of(self@, model_id@),
            vb.wf(),
    {
        match self.state.get(model_id) {
            Some(vb) => *vb,
            None => VendorBreaker::fresh(),
        }
    }

    fn put(&mut self, model_id: &str, vb: VendorBreaker)
        requires
            old(self).wf(),
            vb.wf(),
        ensures
            final(self).wf(),
            final(self)@ == old(self)@.insert(model_id@, vb),
    {
        self.state.insert(model_id.to_owned(), vb);
    }

    /// Whether a model can be picked, without moving its breaker on: an open
    /// breaker whose time is over is still unavailable.
    pub fn check_availability(&self, model_id: &str, now: Timestamp) -> (a: Availability)
        requires
            self.wf(),
        ensures
            a == availability(breaker_of(self@, model_id@).state, now),
    {
        match self.entry(model_id).state {
            BreakerEntry::Closed => Availability::Available,
            BreakerEntry::Warmup { weight, .. } => Availability::AvailableWithWeight(weight),
            BreakerEntry::Open { .. } => Availability::Unavailable,
            BreakerEntry::HalfOpen { probe_in_flight, .. } => if probe_in_flight {
                Availability::Unavailable
            } else {
                Availability::ProbeAllowed { since: now }
            },
        }
    }

    /// Whether a model can be picked. An open breaker whose time is over
    /// becomes half open.
    pub fn check_availability_mut(&mut self, model_id: &str, now: Timestamp) -> (a: Availability)
        requires
            old(self).wf(),
        ensures
            final(self).wf(),
            final(self)@ == old(self)@.insert(
                model_id@,
                after_check(breaker_of(old(self)@, model_id@), now),
            ),
            a == availability(after_check(breaker_of(old(self)@, model_id@), now).state, now),
    {
        let mut vb = self.entry(model_id);
        if let BreakerEntry::Open { unavailable_until, .. } = vb.state {
            if !now.is_before(&unavailable_until) {
                vb.state = BreakerEntry::HalfOpen { available_since: now, probe_in_flight: false };
            }
        }
        self.put(model_id, vb);
        self.check_availability(model_id, now)
    }

    /// The weight of a model: full when closed, low in its warm-up, else 0.
    pub fn weight(&self, model_id: &str) -> (w: u32)
        requires
            self.wf(),
        ensures
            w == breaker_of(self@, model_id@).state.spec_weight(),
    {
        self.entry(model_id).state.weight()
    }

    /// The probe of a half-open model is on its way.
    pub fn record_probe_sent(&mut self, model_id: &str, now: Timestamp)
        requires
            old(self).wf(),
        ensures
            final(self).wf(),
            final(self)@ == old(self)@.insert(
                model_id@,
                after_probe_sent(breaker_of(old(self)@, model_id@), now),
            ),
    {
        let mut vb = self.entry(model_id);
        if vb.state.is_half_open() {
            vb.state = BreakerEntry::HalfOpen { available_since: now, probe_in_flight: true };
        }
        self.put(model_id, vb);
    }

    /// The end of the cool-down of an open breaker.
    pub fn unavailable_until(&self, model_id: &str) -> (until: Option<Timestamp>)
        requires
            self.wf(),
        ensures
            until == (match breaker_of(self@, model_id@).state {
                BreakerEntry::Open { unavailable_until, .. } => Some(unavailable_until),
                _ => None,
            }),
    {
        match self.entry(model_id).state {
            BreakerEntry::Open { unavailable_until, .. } => Some(unavailable_until),
            _ => None,
        }
    }

    pub fn state_name(&self, model_id: &str) -> (name: &'static str)
        requires
            self.wf(),
        ensures
            name == (match breaker_of(self@, model_id@).state {
                BreakerEntry::Closed => "Closed",
                BreakerEntry::Open { .. } => "Open",
                BreakerEntry::HalfOpen { .. } => "HalfOpen",
                BreakerEntry::Warmup { .. } => "Warmup",
            }),
    {
        match self.entry(model_id).state {
            BreakerEntry::Closed => "Closed",
            BreakerEntry::Open { .. } => "Open",
            BreakerEntry::HalfOpen { .. } => "HalfOpen",
            BreakerEntry::Warmup { .. } => "Warmup",
        }
    }

    /// Whether the breaker is open and its time is not over.
    pub fn is_cooling(&self, model_id: &str, now: Timestamp) -> (b: bool)
        requires
            self.wf(),
        ensures
            b == (breaker_of(self@, model_id@).state matches BreakerEntry::Open {
                unavailable_until,
                ..
            } && now.before(unavailable_until)),
    {
        match self.unavailable_until(model_id) {
            Some(until) => now.is_before(&until),
            None => false,
        }
    }

    /// Whether the answer to a probe is being waited for.
    pub fn is_probe_in_flight(&self, model_id: &str) -> (b: bool)
        requires
            self.wf(),
        ensures
            b == (breaker_of(self@, model_id@).state matches BreakerEntry::HalfOpen {
                probe_in_flight,
                ..
            } && probe_in_flight),
    {
        match self.entry(model_id).state {
            BreakerEntry::HalfOpen { probe_in_flight, .. } => probe_in_flight,
            _ => false,
        }
    }

    pub fn is_warmup(&self, model_id: &str) -> (b: bool)
        requires
            self.wf(),
        ensures
            b == (breaker_of(self@, model_id@).state is Warmup),
    {
        self.entry(model_id).state.is_warmup()
    }

    /// Opens the breaker until `until`.
    pub fn pull_out(&mut self, model_id: &str, until: Timestamp, reason: &'static str)
        requires
            old(self).wf(),
        ensures
            final(self).wf(),
            final(self)@ == old(self)@.insert(
                model_id@,
                after_pull_out(breaker_of(old(self)@, model_id@), until, reason),
            ),
    {
        let mut vb = self.entry(model_id);
        vb.state = BreakerEntry::Open { unavailable_until: until, reason };
        vb.consecutive_5xx = 0;
        vb.consecutive_403 = 0;
        vb.double_backoff(MIN_BACKOFF_SECS);
        self.put(model_id, vb);
    }

    /// Opens the breaker for the length of the next backoff.
    pub fn pull_out_with_backoff(
        &mut self,
        model_id: &str,
        base_secs: u64,
        now: Timestamp,
        reason: &'static str,
    )
        requires
            old(self).wf(),
            can_back_off(breaker_of(old(self)@, model_id@), base_secs, now),
        ensures
            final(self).wf(),
            final(self)@ == old(self)@.insert(
                model_id@,
                after_backoff(breaker_of(old(self)@, model_id@), base_secs, now, reason),
            ),
    {
        let mut vb = self.entry(model_id);
        let backoff: u64 = vb.double_backoff(base_secs);
        if let Some(until) = now.plus_secs(backoff) {
            vb.state = BreakerEntry::Open { unavailable_until: until, reason };
        }
        vb.consecutive_5xx = 0;
        vb.consecutive_403 = 0;
        self.put(model_id, vb);
    }

    /// Counts a server error, and at the threshold opens the breaker.
    pub fn record_5xx(
        &mut self,
        model_id: &str,
        threshold: u32,
        now: Timestamp,
        cooldown_secs: u64,
    )
        requires
            old(self).wf(),
            can_count_5xx(breaker_of(old(self)@, model_id@), threshold, now, cooldown_secs),
        ensures
            final(self).wf(),
            final(self)@ == old(self)@.insert(
                model_id@,
                after_5xx(breaker_of(old(self)@, model_id@), threshold, now, cooldown_secs),
            ),
    {
        let mut vb = self.entry(model_id);
        vb.consecutive_5xx = vb.consecutive_5xx + 1;
        if vb.consecutive_5xx >= threshold {
            if let Some(until) = now.after_cooldown(cooldown_secs) {
                vb.state = BreakerEntry::Open { unavailable_until: until, reason: "5xx threshold" };
            }
        }
        self.put(model_id, vb);
    }

    /// Counts a reply that calls for another model, and at the threshold opens
    /// the breaker.
    pub fn record_retry_on(
        &mut self,
        model_id: &str,
        threshold: u32,
        now: Timestamp,
        cooldown_secs: u64,
    )
        requires
            old(self).wf(),
            can_count_retry_on(breaker_of(old(self)@, model_id@), threshold, now, cooldown_secs),
        ensures
            final(self).wf(),
            final(self)@ == old(self)@.insert(
                model_id@,
                after_retry_on(breaker_of(old(self)@, model_id@), threshold, now, cooldown_secs),
            ),
    {
        let mut vb = self.entry(model_id);
        vb.consecutive_403 = vb.consecutive_403 + 1;
        if vb.consecutive_403 >= threshold {
            if let Some(until) = now.after_cooldown(cooldown_secs) {
                vb.state = BreakerEntry::Open {
                    unavailable_until: until,
                    reason: "retry-on threshold",
                };
            }
            vb.consecutive_403 = 0;
        }
        self.put(model_id, vb);
    }

    /// Records a success.
    pub fn reset(&mut self, model_id: &str)
        requires
            old(self).wf(),
        ensures
            final(self).wf(),
            final(self)@ == old(self)@.insert(
                model_id@,
                after_success(breaker_of(old(self)@, model_id@)),
            ),
    {
        let mut vb = self.entry(model_id);
        match vb.state {
            BreakerEntry::HalfOpen { .. } => {
                vb.state = BreakerEntry::Warmup {
                    success_count: 1,
                    required: WARMUP_REQUIRED_SUCCESSES,
                    weight: WARMUP_MIN_WEIGHT,
                };
            },
            BreakerEntry::Warmup { success_count, required, weight } => {
                let new_count: u32 = success_count + 1;
                if new_count >= required {
                    vb = VendorBreaker::fresh();
                } else {
                    let risen: u32 = weight + WARMUP_WEIGHT_STEP;
                    vb.state = BreakerEntry::Warmup {
                        success_count: new_count,
                        required,
                        weight: if risen > FULL_WEIGHT {
                            FULL_WEIGHT
                        } else {
                            risen
                        },
                    };
                }
            },
            _ => {
                vb.consecutive_5xx = 0;
                vb.consecutive_403 = 0;
                vb.reset_backoff();
            },
        }
        self.put(model_id, vb);
    }
}

} // verus!
