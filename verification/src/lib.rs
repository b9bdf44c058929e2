//! A broker that watches a structured log stream, matches each record
//! against a set of configured pattern rules, and reacts to matches by
//! launching external scripts with per-rule debounce and execution
//! timeouts.
//!
//! This crate holds the verified core: rule matching, debounce state,
//! script validation and dispatch decisions, and the work queue.  The
//! thin I/O shell (journal access, process spawning, configuration
//! loading) lives outside the library and drives it with plain values.

pub mod args;
pub mod fields;
pub mod launcher;
pub mod monitor;
pub mod rules;
pub mod script;
pub mod settings;
pub mod text;
