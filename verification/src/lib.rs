//! Verified core of the latte model gateway: chat requests and replies of the
//! OpenAI and Anthropic APIs, a priority router with a circuit breaker per
//! model, the request handling of the proxy, and the parameter tuner.
//!
//! Everything here is plain computation. Sockets, files, the environment and
//! the terminal belong to the programs built around this crate.
pub mod anthropic_stream;
pub mod breaker;
pub mod cache;
pub mod catalog;
pub mod cli;
pub mod client;
pub mod client_laws;
pub mod clock;
pub mod config;
pub mod decimal;
pub mod env;
pub mod error;
pub mod gateway_laws;
pub mod image_detect;
pub mod json;
pub mod models;
pub mod openai_stream;
pub mod order;
pub mod params;
pub mod prompts;
pub mod proxy_config;
pub mod record_laws;
pub mod reply;
pub mod reply_laws;
pub mod report;
pub mod request_laws;
pub mod router;
pub mod router_laws;
pub mod select_laws;
pub mod selector;
pub mod server;
pub mod server_laws;
pub mod setup_laws;
pub mod sse;
pub mod stream_laws;
pub mod sweeper;
pub mod table;
pub mod text;
pub mod text_laws;
pub mod tune;
pub mod tuner_laws;
pub mod vendor;
pub mod vendor_status;
pub mod vendor_toml;
pub mod wire;
pub mod wire_laws;
