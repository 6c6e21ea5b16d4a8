//! The settings in `proxy.toml`.
use crate::models::opt_text;
use crate::text::texts;
use vstd::prelude::*;

verus! {

/// The settings of the proxy.
#[derive(Clone, Debug)]
pub struct ProxyConfig {
    pub server: ServerConfig,
    pub catalog: CatalogConfig,
}

/// Where the proxy listens, and the key that it asks for.
#[derive(Clone, Debug)]
pub struct ServerConfig {
    pub host: String,
    pub port: u16,
    pub api_key: Option<String>,
}

/// Where the models are, and which of them serve the default model.
#[derive(Clone, Debug)]
pub struct CatalogConfig {
    pub models_dir: String,
    /// The model name that stands for the models of `pool`.
    pub proxy_default_model: String,
    /// The models that serve the default model, in order of priority.
    pub pool: Vec<String>,
}

/// The settings as a value.
pub struct ProxyConfigView {
    pub host: Seq<char>,
    pub port: u16,
    pub api_key: Option<Seq<char>>,
    pub models_dir: Seq<char>,
    pub proxy_default_model: Seq<char>,
    pub pool: Seq<Seq<char>>,
}

impl View for ProxyConfig {
    type V = ProxyConfigView;

    open spec fn view(&self) -> ProxyConfigView {
        ProxyConfigView {
            host: self.server.host@,
            port: self.server.port,
            api_key: opt_text(self.server.api_key),
            models_dir: self.catalog.models_dir@,
            proxy_default_model: self.catalog.proxy_default_model@,
            pool: texts(self.catalog.pool@),
        }
    }
}

/// The settings where nothing is set.
pub open spec fn default_settings() -> ProxyConfigView {
    ProxyConfigView {
        host: "127.0.0.1"@,
        port: 11434,
        api_key: None,
        models_dir: "~/.latte/models.d"@,
        proxy_default_model: "proxy-default"@,
        pool: Seq::empty(),
    }
}

/// The settings where nothing is set.
pub open spec fn is_default_server(server: ServerConfig) -> bool {
    &&& server.host@ == "127.0.0.1"@
    &&& server.port == 11434
    &&& server.api_key is None
}

/// The settings where nothing is set.
pub open spec fn is_default_catalog(catalog: CatalogConfig) -> bool {
    &&& catalog.models_dir@ == "~/.latte/models.d"@
    &&& catalog.proxy_default_model@ == "proxy-default"@
    &&& catalog.pool@.len() == 0
}

pub fn default_host() -> (host: String)
    ensures
        host@ == "127.0.0.1"@,
{
    "127.0.0.1".to_owned()
}

pub fn default_port() -> (port: u16)
    ensures
        port == 11434,
{
    11434
}

pub fn default_models_dir() -> (dir: String)
    ensures
        dir@ == "~/.latte/models.d"@,
{
    "~/.latte/models.d".to_owned()
}

pub fn default_proxy_default_model() -> (name: String)
    ensures
        name@ == "proxy-default"@,
{
    "proxy-default".to_owned()
}

impl Default for ServerConfig {
    fn default() -> (server: ServerConfig)
        ensures
            is_default_server(server),
    {
        ServerConfig { host: default_host(), port: default_port(), api_key: None }
    }
}

impl Default for CatalogConfig {
    fn default() -> (catalog: CatalogConfig)
        ensures
            is_default_catalog(catalog),
    {
        CatalogConfig {
            models_dir: default_models_dir(),
            proxy_default_model: default_proxy_default_model(),
            pool: Vec::new(),
        }
    }
}

impl Default for ProxyConfig {
    fn default() -> (config: ProxyConfig)
        ensures
            config@ == default_settings(),
    {
        let config = ProxyConfig {
            server: ServerConfig::default(),
            catalog: CatalogConfig::default(),
        };
        assert(config@.pool =~= Seq::empty());
        config
    }
}

} // verus!
