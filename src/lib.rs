//! The core of a local-first control-plane service for an agentic workflow
//! engine: the request checks of a versioned JSON-RPC surface, the
//! idempotency store, the task lifecycle with dependency-gated readiness,
//! the loop merge queue, the event bus with cursors, replay and filters,
//! and the rules that guard planning sessions on disk.
//!
//! Every operation here works on plain values; reading sockets and files,
//! the clock and JSON belong to the caller.
pub mod auth;
pub mod collections;
pub mod config;
pub mod cursor;
pub mod errors;
pub mod graph;
pub mod idempotency;
pub mod loop_domain;
pub mod ordering;
pub mod pipeline;
pub mod planning;
pub mod preflight;
pub mod presets;
pub mod protocol;
pub mod side_effects;
pub mod stream_domain;
pub mod task_domain;
pub mod text;
