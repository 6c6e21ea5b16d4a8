//! The router: selection, the circuit breaker and the catalog.
use std::cell::Cell;
use std::sync::Arc;

use latte::breaker::Availability;
use latte::catalog::{catalog_files, ModelCatalog};
use latte::clock::{Clock, Timestamp};
use latte::config::{ModelEntry, RouterError};
use latte::models::ApiType;
use latte::router::Router;
use latte::table::Table;

struct MockClock {
    current: Cell<i64>,
}

impl MockClock {
    fn new(t0: Timestamp) -> MockClock {
        MockClock { current: Cell::new(t0.secs) }
    }
    fn advance(&self, secs: i64) {
        self.current.set(self.current.get() + secs);
    }
}

impl Clock for MockClock {
    fn now(&self) -> Timestamp {
        at(self.current.get())
    }
}

fn at(secs: i64) -> Timestamp {
    Timestamp { secs, nanos: 0 }
}

fn t0() -> Timestamp {
    at(1_700_000_000)
}

fn make_entry(
    id: &str,
    anchor: Timestamp,
    interval: u64,
    threshold: u32,
    cooldown: u64,
) -> ModelEntry {
    ModelEntry {
        id: id.to_string(),
        name: None,
        api: ApiType::OpenAiCompletions,
        provider: "test".to_string(),
        base_url: "http://test".to_string(),
        api_key: "k".to_string(),
        context_window: 65536,
        max_tokens: 4096,
        rate_limit_refresh_anchor: anchor,
        rate_limit_refresh_interval_secs: interval,
        retry_count_5xx: threshold,
        cooldown_5xx_secs: cooldown,
        retry_on: vec![403],
        retry_on_count: 10,
        retry_on_cooldown_secs: 600,
        supports_vision: false,
    }
}

fn names(list: &[&str]) -> Vec<String> {
    list.iter().map(|s| s.to_string()).collect()
}

#[test]
fn select_returns_requested_model_when_available() {
    let entry = make_entry("sonnet", at(0), 60, 5, 600);
    let mut router = Router::with_system_clock(vec![entry]);
    let route = router.select("sonnet").unwrap();
    assert_eq!(route.model_id, "sonnet");
}

#[test]
fn select_unknown_model_returns_error() {
    let entry = make_entry("sonnet", at(0), 60, 5, 600);
    let mut router = Router::with_system_clock(vec![entry]);
    let err = router.select("unknown").unwrap_err();
    assert!(matches!(err, RouterError::UnknownModel(s) if s == "unknown"));
}

#[test]
fn select_falls_back_to_next_pool_member_when_requested_is_cooling() {
    let clock = Arc::new(MockClock::new(t0()));
    let a = make_entry("a", t0(), 60, 5, 600);
    let b = make_entry("b", t0(), 60, 5, 600);
    let mut router = Router::new(vec![a, b], clock);
    assert!(router.record("a", 429, None));
    let route = router.select("a").unwrap();
    assert_eq!(route.model_id, "b");
}

#[test]
fn record_429_with_retry_after_overrides_next_refresh() {
    let clock = Arc::new(MockClock::new(t0()));
    let a = make_entry("a", t0(), 60, 5, 600);
    let mut router = Router::new(vec![a], clock.clone());
    router.record("a", 429, Some(120));
    clock.advance(60);
    let err = router.select("a").unwrap_err();
    assert!(matches!(err, RouterError::AllUnavailable { .. }));
    clock.advance(61);
    let route = router.select("a").unwrap();
    assert_eq!(route.model_id, "a");
}

#[test]
fn record_429_without_retry_after_uses_next_refresh() {
    let clock = Arc::new(MockClock::new(t0()));
    let a = make_entry("a", t0(), 100, 5, 600);
    let mut router = Router::new(vec![a], clock.clone());
    clock.advance(30);
    router.record("a", 429, None);
    let err = router.select("a").unwrap_err();
    if let RouterError::AllUnavailable { retry_after_secs } = err {
        assert_eq!(retry_after_secs, 70);
    } else {
        panic!("expected AllUnavailable");
    }
}

#[test]
fn record_5xx_opens_breaker_after_threshold() {
    let clock = Arc::new(MockClock::new(t0()));
    let a = make_entry("a", t0(), 60, 3, 600);
    let b = make_entry("b", t0(), 60, 3, 600);
    let mut router = Router::new(vec![a, b], clock);
    router.record("a", 500, None);
    router.record("a", 503, None);
    let route = router.select("a").unwrap();
    assert_eq!(route.model_id, "a");
    router.record("a", 502, None);
    let route = router.select("a").unwrap();
    assert_eq!(route.model_id, "b");
}

#[test]
fn record_success_resets_5xx_counter() {
    let clock = Arc::new(MockClock::new(t0()));
    let a = make_entry("a", t0(), 60, 3, 600);
    let mut router = Router::new(vec![a], clock);
    router.record("a", 500, None);
    router.record("a", 500, None);
    router.record("a", 200, None);
    router.record("a", 500, None);
    router.record("a", 500, None);
    let route = router.select("a").unwrap();
    assert_eq!(route.model_id, "a");
}

#[test]
fn all_pool_members_cooling_returns_all_unavailable_with_min_retry() {
    let clock = Arc::new(MockClock::new(t0()));
    let a = make_entry("a", t0(), 60, 1, 60);
    let b = make_entry("b", t0(), 60, 1, 120);
    let mut router = Router::new(vec![a, b], clock);
    router.record("a", 500, None);
    router.record("b", 500, None);
    let err = router.select("a").unwrap_err();
    if let RouterError::AllUnavailable { retry_after_secs } = err {
        assert_eq!(retry_after_secs, 60);
    } else {
        panic!("expected AllUnavailable");
    }
}

#[test]
fn record_403_below_threshold_does_not_pull_out() {
    let clock = Arc::new(MockClock::new(t0()));
    let a = make_entry("a", t0(), 60, 5, 600);
    let mut router = Router::new(vec![a], clock.clone());
    for _ in 0..9 {
        router.record("a", 403, None);
    }
    assert!(router.select("a").is_ok());
}

#[test]
fn record_403_after_threshold_pulls_out_model() {
    let clock = Arc::new(MockClock::new(t0()));
    let a = make_entry("a", t0(), 60, 5, 600);
    let b = make_entry("b", t0(), 60, 5, 600);
    let mut router = Router::new(vec![a, b], clock.clone());
    for _ in 0..10 {
        router.record("a", 403, None);
    }
    let route = router.select("a").unwrap();
    assert_eq!(route.model_id, "b");
    let route = router.select_candidates(&names(&["a", "b"])).unwrap();
    assert_eq!(route.model_id, "b");
}

#[test]
fn record_403_counter_resets_on_success() {
    let clock = Arc::new(MockClock::new(t0()));
    let a = make_entry("a", t0(), 60, 5, 600);
    let mut router = Router::new(vec![a], clock.clone());
    for _ in 0..9 {
        router.record("a", 403, None);
    }
    router.record("a", 200, None);
    router.record("a", 403, None);
    assert!(router.select("a").is_ok());
}

#[test]
fn probe_success_enters_warmup_then_recovers() {
    let clock = Arc::new(MockClock::new(t0()));
    let a = make_entry("a", t0(), 60, 1, 30);
    let b = make_entry("b", t0(), 60, 1, 30);
    let mut router = Router::new(vec![a, b], clock.clone());
    router.record("a", 500, None);
    assert_eq!(router.breaker_state("a"), "Open");
    clock.advance(31);
    let _avail = router.check_availability("a");
    assert_eq!(router.breaker_state("a"), "HalfOpen");
    let _route = router.select("a").unwrap();
    router.record("a", 200, None);
    assert_eq!(router.breaker_state("a"), "Warmup");
    let route = router.select_candidates(&names(&["a", "b"])).unwrap();
    assert_eq!(route.model_id, "b");
    for _ in 0..4 {
        router.record("a", 200, None);
    }
    assert_eq!(router.breaker_state("a"), "Closed");
    let route = router.select_candidates(&names(&["a", "b"])).unwrap();
    assert_eq!(route.model_id, "a");
}

#[test]
fn warmup_failure_reopens_breaker() {
    let clock = Arc::new(MockClock::new(t0()));
    let a = make_entry("a", t0(), 60, 1, 30);
    let b = make_entry("b", t0(), 60, 1, 30);
    let mut router = Router::new(vec![a, b], clock.clone());
    router.record("a", 500, None);
    clock.advance(31);
    let _avail = router.check_availability("a");
    let _route = router.select("a").unwrap();
    router.record("a", 200, None);
    assert_eq!(router.breaker_state("a"), "Warmup");
    router.record("a", 429, None);
    assert_eq!(router.breaker_state("a"), "Open");
}

#[test]
fn select_works_in_warmup_state() {
    let clock = Arc::new(MockClock::new(t0()));
    let a = make_entry("a", t0(), 60, 1, 30);
    let mut router = Router::new(vec![a], clock.clone());
    router.record("a", 500, None);
    clock.advance(31);
    let _avail = router.check_availability("a");
    let _route = router.select("a").unwrap();
    router.record("a", 200, None);
    assert_eq!(router.breaker_state("a"), "Warmup");
    let route = router.select("a").unwrap();
    assert_eq!(route.model_id, "a");
}

#[test]
fn probe_has_higher_priority_than_warmup() {
    let clock = Arc::new(MockClock::new(t0()));
    let a = make_entry("a", t0(), 60, 1, 30);
    let b = make_entry("b", t0(), 60, 1, 30);
    let mut router = Router::new(vec![a, b], clock.clone());
    router.record("b", 500, None);
    clock.advance(31);
    let _avail = router.check_availability("b");
    let _route = router.select("b").unwrap();
    router.record("b", 200, None);
    assert_eq!(router.breaker_state("b"), "Warmup");
    router.record("a", 500, None);
    clock.advance(31);
    let _avail = router.check_availability("a");
    assert_eq!(router.breaker_state("a"), "HalfOpen");
    let route = router.select_candidates(&names(&["a", "b"])).unwrap();
    assert_eq!(route.model_id, "a");
}

#[test]
fn halfopen_only_one_probe_allowed_at_a_time() {
    let clock = Arc::new(MockClock::new(t0()));
    let a = make_entry("a", t0(), 60, 1, 30);
    let b = make_entry("b", t0(), 60, 1, 30);
    let mut router = Router::new(vec![a, b], clock.clone());
    router.record("a", 500, None);
    clock.advance(31);
    let _avail = router.check_availability("a");
    let route = router.select("a").unwrap();
    assert_eq!(route.model_id, "a");
    assert_eq!(router.breaker_state("a"), "HalfOpen");
    let route = router.select("a").unwrap();
    assert_eq!(route.model_id, "b");
}

#[test]
fn halfopen_probe_failure_reopens_breaker() {
    let clock = Arc::new(MockClock::new(t0()));
    let a = make_entry("a", t0(), 60, 1, 30);
    let b = make_entry("b", t0(), 60, 1, 30);
    let mut router = Router::new(vec![a, b], clock.clone());
    router.record("a", 500, None);
    clock.advance(31);
    let _avail = router.check_availability("a");
    let route = router.select("a").unwrap();
    assert_eq!(route.model_id, "a");
    router.record("a", 500, None);
    assert_eq!(router.breaker_state("a"), "Open");
    let route = router.select("a").unwrap();
    assert_eq!(route.model_id, "b");
}

#[test]
fn probe_failure_triggers_exponential_backoff() {
    let clock = Arc::new(MockClock::new(t0()));
    let a = make_entry("a", t0(), 60, 1, 30);
    let mut router = Router::new(vec![a], clock.clone());
    router.record("a", 429, None);
    clock.advance(61);
    let _avail = router.check_availability("a");
    assert_eq!(router.breaker_state("a"), "HalfOpen");
    let _route = router.select("a").unwrap();
    router.record("a", 429, None);
    assert_eq!(router.breaker_state("a"), "Open");
    clock.advance(120);
    let _avail = router.check_availability("a");
    assert_eq!(router.breaker_state("a"), "HalfOpen");
    let _route = router.select("a").unwrap();
    router.record("a", 200, None);
    assert_eq!(router.breaker_state("a"), "Warmup");
    for _ in 0..4 {
        router.record("a", 200, None);
    }
    assert_eq!(router.breaker_state("a"), "Closed");
    router.record("a", 429, None);
    clock.advance(61);
    let avail = router.check_availability("a");
    assert_eq!(avail, Availability::ProbeAllowed { since: clock.now() });
}

#[test]
fn non_probe_5xx_uses_config_cooldown() {
    let clock = Arc::new(MockClock::new(t0()));
    let a = make_entry("a", t0(), 60, 1, 30);
    let mut router = Router::new(vec![a], clock.clone());
    router.record("a", 500, None);
    assert_eq!(router.breaker_state("a"), "Open");
    clock.advance(29);
    assert_eq!(router.check_availability("a"), Availability::Unavailable);
    clock.advance(2);
    let avail = router.check_availability("a");
    assert_eq!(avail, Availability::ProbeAllowed { since: clock.now() });
}

#[test]
fn non_probe_403_uses_retry_on_cooldown() {
    let clock = Arc::new(MockClock::new(t0()));
    let mut a = make_entry("a", t0(), 60, 1, 30);
    a.retry_on_count = 1;
    a.retry_on_cooldown_secs = 30;
    let mut router = Router::new(vec![a], clock.clone());
    router.record("a", 403, None);
    assert_eq!(router.breaker_state("a"), "Open");
    clock.advance(29);
    assert_eq!(router.check_availability("a"), Availability::Unavailable);
    clock.advance(2);
    let avail = router.check_availability("a");
    assert_eq!(avail, Availability::ProbeAllowed { since: clock.now() });
}

#[test]
fn replies_touch_no_other_model() {
    let clock = Arc::new(MockClock::new(t0()));
    let mut router = Router::new(
        vec![make_entry("a", t0(), 60, 1, 30), make_entry("b", t0(), 60, 1, 30)],
        clock,
    );
    router.record("a", 500, None);
    assert_eq!(router.breaker_state("b"), "Closed");
    assert_eq!(router.model_ids(), names(&["a", "b"]));
    assert_eq!(router.pool().len(), 2);
    assert!(router.catalog().get("a").is_some());
}

#[test]
fn backoff_doubles_from_probe_to_probe() {
    let clock = Arc::new(MockClock::new(t0()));
    let mut router = Router::new(vec![make_entry("a", t0(), 60, 1, 30)], clock.clone());
    router.record("a", 500, None);
    clock.advance(30);
    router.select("a").unwrap();
    router.record("a", 500, None);
    clock.advance(29);
    assert_eq!(router.check_availability("a"), Availability::Unavailable);
    clock.advance(31);
    router.select("a").unwrap();
    router.record("a", 500, None);
    clock.advance(119);
    assert_eq!(router.check_availability("a"), Availability::Unavailable);
    clock.advance(1);
    assert!(matches!(router.check_availability("a"), Availability::ProbeAllowed { .. }));
}

#[test]
fn a_wait_beyond_the_calendar_leaves_the_next_refresh() {
    let clock = Arc::new(MockClock::new(t0()));
    let a = make_entry("a", t0(), 60, 5, 600);
    let mut router = Router::new(vec![a], clock.clone());
    assert!(router.record("a", 429, Some(9_000_000_000_000)));
    clock.advance(59);
    assert_eq!(router.check_availability("a"), Availability::Unavailable);
    clock.advance(1);
    assert!(matches!(router.check_availability("a"), Availability::ProbeAllowed { .. }));
}

#[test]
fn catalog_loads_toml_files_from_dir() {
    let found = names(&["02-anthropic.toml", "notes.txt", "01-openai.toml", ".toml", "toml"]);
    assert_eq!(catalog_files(found), names(&["01-openai.toml", "02-anthropic.toml"]));
    let env = Table::new();
    let mut cat = ModelCatalog::new();
    cat.load_file(vec![make_entry("gpt-4", at(0), 60, 5, 600)], &env);
    let mut opus = make_entry("opus", at(0), 60, 5, 600);
    opus.api = ApiType::AnthropicMessages;
    cat.load_file(vec![opus], &env);
    assert!(cat.get("gpt-4").is_some());
    assert!(cat.get("opus").is_some());
    assert_eq!(cat.get("gpt-4").unwrap().api, ApiType::OpenAiCompletions);
    assert_eq!(cat.get("opus").unwrap().api, ApiType::AnthropicMessages);
    assert_eq!(cat.len(), 2);
    assert!(!cat.is_empty());
}

#[test]
fn catalog_expands_env_var_in_api_key() {
    let mut env = Table::new();
    env.insert("LATTE_TEST_KEY".to_string(), "env-val".to_string());
    let mut m = make_entry("m", at(0), 60, 5, 600);
    m.api_key = "${LATTE_TEST_KEY}".to_string();
    let mut unset = make_entry("unset", at(0), 60, 5, 600);
    unset.api_key = "${LATTE_NO_SUCH_KEY}".to_string();
    let mut cat = ModelCatalog::new();
    cat.load_file(vec![m, unset], &env);
    assert_eq!(cat.get("m").unwrap().api_key, "env-val");
    assert_eq!(cat.get("unset").unwrap().api_key, "${LATTE_NO_SUCH_KEY}");
}

#[test]
fn catalog_expands_env_var_in_base_url() {
    let mut env = Table::new();
    env.insert("CUSTOM_BASE_URL".to_string(), "http://h".to_string());
    let mut m = make_entry("m", at(0), 60, 5, 600);
    m.base_url = "${CUSTOM_BASE_URL}".to_string();
    let mut unset = make_entry("unset", at(0), 60, 5, 600);
    unset.base_url = "${LATTE_NO_SUCH_URL}".to_string();
    let mut cat = ModelCatalog::new();
    cat.load_file(vec![m, unset], &env);
    assert_eq!(cat.get("m").unwrap().base_url, "http://h");
    assert_eq!(cat.get("unset").unwrap().base_url, "${LATTE_NO_SUCH_URL}");
}

#[test]
fn catalog_merge_later_overrides_earlier() {
    let mut a = make_entry("m", at(0), 60, 5, 600);
    a.provider = "p1".to_string();
    a.base_url = "http://a".to_string();
    a.api_key = "k1".to_string();
    let b = ModelEntry {
        provider: "p2".to_string(),
        base_url: "http://b".to_string(),
        api_key: "k2".to_string(),
        ..a.clone()
    };
    let cat1 = ModelCatalog::from_entries(vec![a]);
    let cat2 = ModelCatalog::from_entries(vec![b]);
    let mut merged = cat1.clone();
    merged.merge(cat2);
    let m = merged.get("m").unwrap();
    assert_eq!(m.provider, "p2");
    assert_eq!(m.base_url, "http://b");
    assert_eq!(m.api_key, "k2");
}

#[test]
fn next_refresh_returns_strictly_future_time() {
    let anchor = t0();
    let entry = make_entry("m", anchor, 100, 5, 600);
    assert_eq!(entry.next_refresh(anchor), at(1_700_000_100));
    assert_eq!(entry.next_refresh(at(1_700_000_050)), at(1_700_000_100));
    let now3 = at(1_700_000_250);
    assert_eq!(entry.next_refresh(now3), at(1_700_000_300));
    let entry_z = make_entry("m", anchor, 0, 5, 600);
    assert_eq!(entry_z.next_refresh(now3), now3);
}

#[test]
fn errors_of_the_router_in_words() {
    assert_eq!(
        RouterError::UnknownModel("x".to_string()).message(),
        "model 'x' not in pool"
    );
    assert_eq!(
        RouterError::AllUnavailable { retry_after_secs: 7 }.message(),
        "all upstream models in cooldown (next available in 7s)"
    );
    assert_eq!(
        RouterError::CatalogIo("p".to_string(), "m".to_string()).message(),
        "failed to read catalog file p: m"
    );
    assert_eq!(
        RouterError::CatalogParse("p".to_string(), "m".to_string()).message(),
        "failed to parse catalog file p: m"
    );
}
