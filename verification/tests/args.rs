//! The command line and the settings of the proxy.
use latte::catalog::ModelCatalog;
use latte::cli::{check_pool, resolve_tilde, router_pool, Args, ConfigPlaces, Place};
use latte::clock::Timestamp;
use latte::config::{ModelEntry, RouterError};
use latte::models::ApiType;
use latte::proxy_config::{CatalogConfig, ProxyConfig, ServerConfig};

fn argv(words: &[&str]) -> Vec<String> {
    words.iter().map(|w| w.to_string()).collect()
}

fn entry(id: &str) -> ModelEntry {
    ModelEntry {
        id: id.to_string(),
        name: None,
        api: ApiType::OpenAiCompletions,
        provider: "p".to_string(),
        base_url: "http://u".to_string(),
        api_key: "k".to_string(),
        context_window: 65536,
        max_tokens: 4096,
        rate_limit_refresh_anchor: Timestamp { secs: 0, nanos: 0 },
        rate_limit_refresh_interval_secs: 60,
        retry_count_5xx: 5,
        cooldown_5xx_secs: 600,
        retry_on: vec![403],
        retry_on_count: 10,
        retry_on_cooldown_secs: 600,
        supports_vision: false,
    }
}

fn nowhere() -> ConfigPlaces {
    ConfigPlaces { cwd: None, home: None }
}

#[test]
fn args_default_pool_and_proxy_default_are_empty_or_default() {
    let args = Args::parse_from(&argv(&[])).unwrap();
    assert!(args.host.is_none());
    assert!(args.port.is_none());
    assert!(args.models_dir.is_none());
    assert!(args.proxy_default_model.is_none());
    assert!(args.pool.is_empty());
}

#[test]
fn args_parse_host_and_port() {
    let args =
        Args::parse_from(&argv(&["latte-model-proxy", "--host", "0.0.0.0", "--port", "7777"]))
            .unwrap();
    assert_eq!(args.host.as_deref(), Some("0.0.0.0"));
    assert_eq!(args.port, Some(7777));
}

#[test]
fn args_parse_pool_csv() {
    let args = Args::parse_from(&argv(&[
        "latte-model-proxy",
        "--pool",
        "sonnet-4-20250514,deepseek-v4-flash",
    ]))
    .unwrap();
    assert_eq!(
        args.pool,
        vec!["sonnet-4-20250514".to_string(), "deepseek-v4-flash".to_string()]
    );
}

#[test]
fn args_parse_models_dir() {
    let args =
        Args::parse_from(&argv(&["latte-model-proxy", "--models-dir", "/tmp/custom"])).unwrap();
    assert_eq!(args.models_dir.as_deref(), Some("/tmp/custom"));
}

#[test]
fn args_parse_proxy_default_model() {
    let args = Args::parse_from(&argv(&[
        "latte-model-proxy",
        "--proxy-default-model",
        "default-route",
    ]))
    .unwrap();
    assert_eq!(args.proxy_default_model.as_deref(), Some("default-route"));
}

#[test]
fn unknown_arguments_are_refused() {
    let notice = Args::parse_from(&argv(&["latte-model-proxy", "--no-such-flag"])).unwrap_err();
    assert!(notice.is_error);
    assert!(notice.text.contains("--no-such-flag"), "{}", notice.text);
    let notice = Args::parse_from(&argv(&["latte-model-proxy", "--port", "70000"])).unwrap_err();
    assert!(notice.is_error);
    let notice = Args::parse_from(&argv(&["latte-model-proxy", "--version"])).unwrap_err();
    assert!(!notice.is_error);
    assert_eq!(notice.text, "latte-model-proxy 0.1.0\n");
}

#[test]
fn a_path_of_settings_is_not_empty() {
    for line in [&["x", "--config", ""][..], &["x", "--config="][..]] {
        let notice = Args::parse_from(&argv(line)).unwrap_err();
        assert!(notice.is_error);
        assert!(notice.text.contains("'--config <CONFIG>'"), "{}", notice.text);
    }
    let args = Args::parse_from(&argv(&["x", "--config", "a b/é.toml", "--host", ""])).unwrap();
    assert_eq!(args.config.as_deref(), Some("a b/é.toml"));
    assert_eq!(args.host.as_deref(), Some(""));
}

#[test]
fn help_says_what_the_options_do() {
    let notice = Args::parse_from(&argv(&["latte-model-proxy", "--help"])).unwrap_err();
    assert!(!notice.is_error);
    assert_eq!(
        notice.text,
        "Usage: latte-model-proxy [OPTIONS]\n\nOptions:\n      \
         --config <CONFIG>\n          Path to `proxy.toml`. Search order: 1. `--config <path>` (if provided) 2. `./proxy.toml` 3. `~/.latte/proxy.toml`\n      \
         --host <HOST>\n          Override `server.host` from proxy.toml\n      \
         --port <PORT>\n          Override `server.port` from proxy.toml\n      \
         --models-dir <MODELS_DIR>\n          Override `catalog.models_dir` from proxy.toml\n      \
         --proxy-default-model <PROXY_DEFAULT_MODEL>\n          Override `catalog.proxy_default_model` from proxy.toml. The client sends this name in `model` to trigger silent priority selection\n      \
         --pool <POOL>\n          Override `catalog.pool` from proxy.toml. Comma-separated candidate ids in priority order (first = highest)\n  \
         -h, --help\n          Print help\n  \
         -V, --version\n          Print version\n"
    );
    let notice =
        Args::parse_from(&argv(&["latte-model-proxy", "--port", "70000"])).unwrap_err();
    assert!(notice.text.contains("'--port <PORT>'"), "{}", notice.text);
}

#[test]
fn settings_are_looked_for_in_turn() {
    let place = |path: &str, exists: bool| Some(Place { path: path.to_string(), exists });
    let plain = Args::parse_from(&argv(&["x"])).unwrap();
    let given = Args::parse_from(&argv(&["x", "--config", "here.toml"])).unwrap();
    let both = ConfigPlaces { cwd: place("a", true), home: place("b", true) };
    assert_eq!(given.resolve_config_path(&both).as_deref(), Some("here.toml"));
    assert_eq!(plain.resolve_config_path(&both).as_deref(), Some("a"));
    let home = ConfigPlaces { cwd: place("a", false), home: place("b", true) };
    assert_eq!(plain.resolve_config_path(&home).as_deref(), Some("b"));
    let adrift = ConfigPlaces { cwd: None, home: place("b", true) };
    assert_eq!(plain.resolve_config_path(&adrift).as_deref(), Some("b"));
    let none = ConfigPlaces { cwd: place("a", false), home: place("b", false) };
    assert_eq!(plain.resolve_config_path(&none), None);
}

#[test]
fn settings_that_are_found_are_loaded() {
    let loaded = |_: &str| {
        Ok(ProxyConfig {
            server: ServerConfig { host: "h".to_string(), port: 1, api_key: None },
            catalog: CatalogConfig {
                models_dir: "/models".to_string(),
                proxy_default_model: "d".to_string(),
                pool: vec!["m".to_string()],
            },
        })
    };
    let args = Args::parse_from(&argv(&["x", "--config", "here.toml", "--port", "2"])).unwrap();
    let config = args.load_proxy_config(&nowhere(), loaded).unwrap();
    assert_eq!(config.server.port, 2);
    assert_eq!(config.server.host, "h");
    assert_eq!(config.bind_addr(), "h:2");
    assert_eq!(config.catalog.pool, vec!["m".to_string()]);
    let failing = |path: &str| Err(RouterError::CatalogIo(path.to_string(), "gone".to_string()));
    assert_eq!(
        args.load_proxy_config(&nowhere(), failing).err().as_deref(),
        Some("invalid config at here.toml: failed to read catalog file here.toml: gone")
    );
    let plain = Args::parse_from(&argv(&["x"])).unwrap();
    let config = plain.load_proxy_config(&nowhere(), failing).unwrap();
    assert_eq!(config.server.port, ProxyConfig::default().server.port);
    let over = Args::parse_from(&argv(&[
        "x", "--config", "c", "--host", "o", "--pool", "p,q", "--models-dir", "/o",
        "--proxy-default-model", "e",
    ]))
    .unwrap();
    let config = over.load_proxy_config(&nowhere(), loaded).unwrap();
    assert_eq!(config.bind_addr(), "o:1");
    assert_eq!(config.catalog.pool, vec!["p".to_string(), "q".to_string()]);
    assert_eq!(config.catalog.models_dir, "/o");
    assert_eq!(config.catalog.proxy_default_model, "e");
    assert_eq!(
        config.catalog_dirs(Some("/home/u")),
        vec![".latte/models.d".to_string(), "/o".to_string()]
    );
    let config = plain.load_proxy_config(&nowhere(), loaded).unwrap();
    assert_eq!(config.catalog_dirs(Some("/home/u"))[1], "/home/u/.latte/models.d");
    assert_eq!(config.bind_addr(), "127.0.0.1:11434");
}

#[test]
fn the_command_line_overrides_the_defaults() {
    let args =
        Args::parse_from(&argv(&["x", "--host", "0.0.0.0", "--port", "7777"])).unwrap();
    let none = |path: &str| Err(RouterError::CatalogIo(path.to_string(), String::new()));
    let config = args.load_proxy_config(&nowhere(), none).unwrap();
    assert_eq!(config.server.host, "0.0.0.0");
    assert_eq!(config.server.port, 7777);
    assert_eq!(config.catalog.models_dir, "~/.latte/models.d");
    assert!(config.catalog.pool.is_empty());
}

#[test]
fn tilde_stands_for_home() {
    assert_eq!(resolve_tilde("~/x", Some("/home/u")), "/home/u/x");
    assert_eq!(resolve_tilde("~", Some("/home/u")), "/home/u");
    assert_eq!(resolve_tilde("/abs", Some("/home/u")), "/abs");
    assert_eq!(resolve_tilde("~/x", None), "~/x");
}

#[test]
fn a_pool_must_be_known_to_the_catalog() {
    let catalog = ModelCatalog::from_entries(vec![entry("a"), entry("b")]);
    assert!(check_pool(&vec!["a".to_string()], &catalog).is_ok());
    let err = check_pool(&vec!["a".to_string(), "zz".to_string()], &catalog).unwrap_err();
    assert_eq!(
        err,
        "pool references unknown model(s): zz; check ids in models.d/*.toml"
    );
    assert_eq!(
        check_pool(&vec![], &ModelCatalog::new()).unwrap_err(),
        "no models in catalog; create ~/.latte/models.d or ./.latte/models.d"
    );
    assert_eq!(router_pool(&catalog).len(), 2);
}
