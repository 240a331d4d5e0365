//! Core of a trigger-driven incident-capture engine for host performance
//! telemetry.
//!
//! The library keeps a bounded pre-incident history of serialized metric
//! snapshots, derives a live CPU busy percentage from cumulative counters,
//! evaluates a configured trigger condition against the live metric values,
//! and runs a consecutive-hit/cooldown state machine that decides when a
//! deep post-incident recording session must be started.  All decisions are
//! made here; the surrounding binary performs the sampling, the clock reads,
//! the file writes and the recorder invocation that the decisions call for.

pub mod cpu;
pub mod eval;
pub mod history;
pub mod lex;
pub mod monitor;
pub mod record;
pub mod trigger_parser;
pub mod trigger_state;
