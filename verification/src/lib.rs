//! Request dispatch and coordination engine of a caching, load-balancing
//! JSON-RPC proxy for Ethereum-compatible nodes.
//!
//! The engine decides and keeps account; it performs no input or output.
//! Whoever drives it hands in what happened (a request came, an upstream
//! answered, a head was reported, time passed) as plain values and is told
//! what to do next.
//!
//! - `upstream`, `pool`: one upstream endpoint with its health and its load,
//!   and the set of them with the selection of the best.
//! - `head`: the tracker that fuses the heads of the upstreams into one
//!   canonical head.
//! - `method`, `cache`, `inflight`, `dispatch`, `router`: the classes of
//!   methods, the response cache, the requests in flight, what to make of
//!   the outcomes of upstream calls, and the router that ties them together.
//! - `pending`, `subscription`: the index of pending transactions and the
//!   fan-out of notifications to subscribed clients.
//! - `config`, `rate_limit`, `ttl_cache`, `balance`, `secondary_user`,
//!   `handles`: what the proxy consumes from its surroundings.
//! - `app`: the whole of it as one value.
//! - `block`, `order`, `text`, `encoding`, `jsonrpc`, `errors`: the values
//!   that all of these speak of.

pub mod app;
pub mod balance;
pub mod block;
pub mod cache;
pub mod config;
pub mod dispatch;
pub mod encoding;
pub mod errors;
pub mod handles;
pub mod head;
pub mod inflight;
pub mod jsonrpc;
pub mod method;
pub mod order;
pub mod pending;
pub mod pool;
pub mod rate_limit;
pub mod router;
pub mod secondary_user;
pub mod subscription;
pub mod text;
pub mod ttl_cache;
pub mod upstream;
