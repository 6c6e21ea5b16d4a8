# latte

Routing of chat requests to language models, with proofs.

The library decides; the programs in `app/` do the talking. What the library
decides is stated in contracts over mathematical models and proved by Verus:

- `router`, `selector`, `breaker`, `catalog`, `config`, `clock`: which model
  serves a request, and what a reply does to its circuit breaker.
- `server`, `image_detect`, `proxy_config`, `cli`: what the model proxy answers,
  where it sends a request, and what it runs with.
- `models`, `params`, `decimal`, `wire`, `cache`, `client`, `reply`, `error`:
  requests to the OpenAI and Anthropic APIs, and what their answers become.
- `sse`, `openai_stream`, `anthropic_stream`: answers that come piece by piece.
- `vendor`, `vendor_toml`, `vendor_status`, `env`: vendors, their tokens, their
  models and how they are.
- `prompts`, `sweeper`, `report`, `tune`: the parameter tuner.
- `json`, `table`, `text`, `order`: what the rest is built on.

`router_laws`, `server_laws` and `client_laws` hold the properties that span
several functions; others stand beside the functions they are about.

Calls into outside crates stand behind a few trusted functions, in `json`
(serde_json), `wire` (base64), `clock` (chrono), `cli` (clap) and `text` (std).
A comment above each one says what is taken for granted.

`app/` is ordinary Rust: HTTP, files, the environment and the terminal. The
binary is the model proxy, and the tuner where it is called `latte-tune`.
