//! A verified core for a small command-line manager of SSH-reachable sandbox
//! containers.
//!
//! The library covers the three layers with real logic: the reversible name
//! codec between operator-chosen names and engine-safe identifiers
//! ([`codec`]), the naming scheme and catalog queries that rebuild typed
//! entity lists from raw engine records ([`names`], [`catalog`]), and the
//! lifecycle orchestrator that checks preconditions and lays out the exact
//! engine invocations for each command ([`orchestrator`]). Invoking the
//! engine, parsing its JSON output and the command line live outside the
//! library; they hand plain values in and take plain values back.

pub mod codec;
pub mod names;
pub mod catalog;
pub mod orchestrator;
