//! The models that the router knows, and what it answers.
use crate::clock::{in_calendar, Timestamp};
use crate::models::ApiType;
use crate::text::{concat, decimal, decimal_text};
use vstd::prelude::*;

verus! {

/// One model, as its catalog file describes it.
#[derive(Debug)]
pub struct ModelEntry {
    pub id: String,
    pub name: Option<String>,
    pub api: ApiType,
    pub provider: String,
    pub base_url: String,
    pub api_key: String,
    pub context_window: u32,
    pub max_tokens: u32,
    /// After a rate limit the model is out until the next refresh: the anchor,
    /// or a whole number of intervals after it.
    pub rate_limit_refresh_anchor: Timestamp,
    pub rate_limit_refresh_interval_secs: u64,
    /// Server errors in a row after which the model is out, and for how long.
    pub retry_count_5xx: u32,
    pub cooldown_5xx_secs: u64,
    /// Status codes on which the request goes to the next model, how many of
    /// them in a row take the model out, and for how long.
    pub retry_on: Vec<u16>,
    pub retry_on_count: u32,
    pub retry_on_cooldown_secs: u64,
    /// Whether the model takes pictures.
    pub supports_vision: bool,
}

/// A model entry as a value.
pub struct ModelEntryView {
    pub id: Seq<char>,
    pub name: Option<Seq<char>>,
    pub api: ApiType,
    pub provider: Seq<char>,
    pub base_url: Seq<char>,
    pub api_key: Seq<char>,
    pub context_window: u32,
    pub max_tokens: u32,
    pub rate_limit_refresh_anchor: Timestamp,
    pub rate_limit_refresh_interval_secs: u64,
    pub retry_count_5xx: u32,
    pub cooldown_5xx_secs: u64,
    pub retry_on: Seq<u16>,
    pub retry_on_count: u32,
    pub retry_on_cooldown_secs: u64,
    pub supports_vision: bool,
}

impl View for ModelEntry {
    type V = ModelEntryView;

    open spec fn view(&self) -> ModelEntryView {
        ModelEntryView {
            id: self.id@,
            name: match self.name {
                Some(name) => Some(name@),
                None => None,
            },
            api: self.api,
            provider: self.provider@,
            base_url: self.base_url@,
            api_key: self.api_key@,
            context_window: self.context_window,
            max_tokens: self.max_tokens,
            rate_limit_refresh_anchor: self.rate_limit_refresh_anchor,
            rate_limit_refresh_interval_secs: self.rate_limit_refresh_interval_secs,
            retry_count_5xx: self.retry_count_5xx,
            cooldown_5xx_secs: self.cooldown_5xx_secs,
            retry_on: self.retry_on@,
            retry_on_count: self.retry_on_count,
            retry_on_cooldown_secs: self.retry_on_cooldown_secs,
            supports_vision: self.supports_vision,
        }
    }
}

impl Clone for ModelEntry {
    fn clone(&self) -> (copy: ModelEntry)
        ensures
            copy@ == self@,
    {
        let copy = ModelEntry {
            id: self.id.clone(),
            name: self.name.clone(),
            api: self.api,
            provider: self.provider.clone(),
            base_url: self.base_url.clone(),
            api_key: self.api_key.clone(),
            context_window: self.context_window,
            max_tokens: self.max_tokens,
            rate_limit_refresh_anchor: self.rate_limit_refresh_anchor,
            rate_limit_refresh_interval_secs: self.rate_limit_refresh_interval_secs,
            retry_count_5xx: self.retry_count_5xx,
            cooldown_5xx_secs: self.cooldown_5xx_secs,
            retry_on: self.retry_on.clone(),
            retry_on_count: self.retry_on_count,
            retry_on_cooldown_secs: self.retry_on_cooldown_secs,
            supports_vision: self.supports_vision,
        };
        assert(copy.retry_on@ =~= self.retry_on@);
        copy
    }
}

pub fn default_context_window() -> (n: u32)
    ensures
        n == 65536,
{
    65536
}

pub fn default_max_tokens() -> (n: u32)
    ensures
        n == 4096,
{
    4096
}

/// The Unix epoch.
pub fn default_rl_anchor() -> (t: Timestamp)
    ensures
        t == (Timestamp { secs: 0, nanos: 0 }),
{
    Timestamp { secs: 0, nanos: 0 }
}

pub fn default_rl_interval() -> (secs: u64)
    ensures
        secs == 60,
{
    60
}

pub fn default_srv_threshold() -> (n: u32)
    ensures
        n == 5,
{
    5
}

pub fn default_srv_cooldown() -> (secs: u64)
    ensures
        secs == 600,
{
    600
}

pub fn default_retry_on() -> (codes: Vec<u16>)
    ensures
        codes@ == seq![403u16],
{
    vec![403]
}

pub fn default_retry_on_count() -> (n: u32)
    ensures
        n == 10,
{
    10
}

pub fn default_retry_on_cooldown() -> (secs: u64)
    ensures
        secs == 60,
{
    60
}

/// The refresh point `k` intervals after the anchor.
pub open spec fn refresh_point(entry: ModelEntryView, k: int) -> Timestamp {
    entry.rate_limit_refresh_anchor.moved(k * entry.rate_limit_refresh_interval_secs)
}

/// The number of the first refresh point that is strictly after `now`, for a
/// `now` that is not before the anchor.
pub open spec fn next_cycle(entry: ModelEntryView, now: Timestamp) -> int {
    let anchor = entry.rate_limit_refresh_anchor;
    let elapsed = now.secs - anchor.secs - (if now.nanos < anchor.nanos {
        1int
    } else {
        0
    });
    elapsed / entry.rate_limit_refresh_interval_secs as int + 1
}

/// The next refresh after `now`: the anchor while that is ahead, else the first
/// refresh point after `now`. Without an interval, or where the calendar ends
/// before that point, it is `now` itself.
pub open spec fn spec_next_refresh(entry: ModelEntryView, now: Timestamp) -> Timestamp {
    let anchor = entry.rate_limit_refresh_anchor;
    let interval = entry.rate_limit_refresh_interval_secs;
    if interval == 0 {
        now
    } else if now.before(anchor) {
        anchor
    } else if in_calendar(anchor.secs + next_cycle(entry, now) * interval) {
        refresh_point(entry, next_cycle(entry, now))
    } else {
        now
    }
}

/// The refresh that `next_refresh` finds is strictly after `now`, and no
/// earlier refresh point is.
pub proof fn next_refresh_is_the_first_after_now(entry: ModelEntryView, now: Timestamp, k: int)
    requires
        entry.rate_limit_refresh_interval_secs > 0,
        !now.before(entry.rate_limit_refresh_anchor),
        in_calendar(
            entry.rate_limit_refresh_anchor.secs + next_cycle(entry, now)
                * entry.rate_limit_refresh_interval_secs,
        ),
        in_calendar(entry.rate_limit_refresh_anchor.secs as int),
        0 <= k < next_cycle(entry, now),
    ensures
        now.before(spec_next_refresh(entry, now)),
        !now.before(refresh_point(entry, k)),
{
    let anchor = entry.rate_limit_refresh_anchor;
    let interval = entry.rate_limit_refresh_interval_secs as int;
    let elapsed = now.secs - anchor.secs - (if now.nanos < anchor.nanos {
        1int
    } else {
        0
    });
    let n = next_cycle(entry, now);
    assert(elapsed >= 0);
    assert(n * interval > elapsed && (n - 1) * interval <= elapsed) by (nonlinear_arith)
        requires
            n == elapsed / interval + 1,
            interval > 0,
            elapsed >= 0,
    ;
    assert(0 <= k * interval <= (n - 1) * interval) by (nonlinear_arith)
        requires
            0 <= k <= n - 1,
            interval > 0,
    ;
}

impl ModelEntry {
    /// The name to show: the given one, else the id.
    pub fn display_name(&self) -> (name: &str)
        ensures
            name@ == (match self@.name {
                Some(given) => given,
                None => self@.id,
            }),
    {
        match &self.name {
            Some(name) => name.as_str(),
            None => self.id.as_str(),
        }
    }

    /// The next refresh of the rate limit, strictly after `now`.
    pub fn next_refresh(&self, now: Timestamp) -> (t: Timestamp)
        ensures
            t == spec_next_refresh(self@, now),
    {
        if self.rate_limit_refresh_interval_secs == 0 {
            return now;
        }
        let anchor = self.rate_limit_refresh_anchor;
        if now.is_before(&anchor) {
            return anchor;
        }
        let interval: i128 = self.rate_limit_refresh_interval_secs as i128;
        let partial: i128 = if now.nanos < anchor.nanos {
            1
        } else {
            0
        };
        let elapsed: i128 = now.secs as i128 - anchor.secs as i128 - partial;
        let cycles: i128 = elapsed / interval + 1;
        assert(cycles == next_cycle(self@, now));
        assert(0 < cycles * interval <= elapsed + interval) by (nonlinear_arith)
            requires
                cycles == elapsed / interval + 1,
                interval > 0,
                elapsed >= 0,
        ;
        let next_secs: i128 = anchor.secs as i128 + cycles * interval;
        match Timestamp::at(next_secs, anchor.nanos) {
            Some(t) => t,
            None => now,
        }
    }

    /// Seconds for which a run of server errors takes the model out.
    pub fn cooldown_5xx(&self) -> (secs: u64)
        ensures
            secs == self@.cooldown_5xx_secs,
    {
        self.cooldown_5xx_secs
    }

    /// Seconds for which a run of replies that call for another model takes it
    /// out.
    pub fn cooldown_retry_on(&self) -> (secs: u64)
        ensures
            secs == self@.retry_on_cooldown_secs,
    {
        self.retry_on_cooldown_secs
    }
}

/// Where to send a request.
#[derive(Clone, Debug)]
pub struct Route {
    pub model_id: String,
    pub api: ApiType,
    pub base_url: String,
    pub api_key: String,
}

/// A route as a value.
pub struct RouteView {
    pub model_id: Seq<char>,
    pub api: ApiType,
    pub base_url: Seq<char>,
    pub api_key: Seq<char>,
}

impl View for Route {
    type V = RouteView;

    open spec fn view(&self) -> RouteView {
        RouteView {
            model_id: self.model_id@,
            api: self.api,
            base_url: self.base_url@,
            api_key: self.api_key@,
        }
    }
}

/// The route to a model.
pub open spec fn route_to(entry: ModelEntryView) -> RouteView {
    RouteView {
        model_id: entry.id,
        api: entry.api,
        base_url: entry.base_url,
        api_key: entry.api_key,
    }
}

impl Route {
    /// The route to a model.
    pub fn to_model(entry: &ModelEntry) -> (route: Route)
        ensures
            route@ == route_to(entry@),
    {
        Route {
            model_id: entry.id.clone(),
            api: entry.api,
            base_url: entry.base_url.clone(),
            api_key: entry.api_key.clone(),
        }
    }
}

/// Why there is no route, or no catalog.
#[derive(Debug)]
pub enum RouterError {
    /// The model is not in the pool.
    UnknownModel(String),
    /// Every model that could serve is cooling down.
    AllUnavailable { retry_after_secs: u64 },
    /// A catalog file, by its path, could not be read.
    CatalogIo(String, String),
    /// A catalog file, by its path, is not well-formed.
    CatalogParse(String, String),
}

/// The words for an error.
pub open spec fn router_error_text(e: RouterError) -> Seq<char> {
    match e {
        RouterError::UnknownModel(id) => "model '"@ + id@ + "' not in pool"@,
        RouterError::AllUnavailable { retry_after_secs } =>
            "all upstream models in cooldown (next available in "@ + decimal_text(
            retry_after_secs as nat,
        ) + "s)"@,
        RouterError::CatalogIo(path, message) => "failed to read catalog file "@ + path@ + ": "@
            + message@,
        RouterError::CatalogParse(path, message) => "failed to parse catalog file "@ + path@ + ": "@
            + message@,
    }
}

impl RouterError {
    /// The words for this error.
    pub fn message(&self) -> (text: String)
        ensures
            text@ == router_error_text(*self),
    {
        match self {
            RouterError::UnknownModel(id) => {
                let mut text = concat("model '", id.as_str());
                text.append("' not in pool");
                text
            },
            RouterError::AllUnavailable { retry_after_secs } => {
                let mut text = concat(
                    "all upstream models in cooldown (next available in ",
                    decimal(*retry_after_secs).as_str(),
                );
                text.append("s)");
                text
            },
            RouterError::CatalogIo(path, message) => {
                let mut text = concat("failed to read catalog file ", path.as_str());
                text.append(": ");
                text.append(message.as_str());
                text
            },
            RouterError::CatalogParse(path, message) => {
                let mut text = concat("failed to parse catalog file ", path.as_str());
                text.append(": ");
                text.append(message.as_str());
                text
            },
        }
    }
}

} // verus!
