//! Core logic of a desktop-application backend that supervises long-lived
//! external worker subprocesses speaking newline-delimited JSON-RPC over
//! standard input/output.
//!
//! The library holds the decision logic of the supervisor: command and
//! environment validation, the worker registry and PID table with their
//! check-out/put-back protocol, the bounded response-reading engine, the
//! graceful-termination sequencer, diagnostic sanitizing, and the
//! request-signing helpers for object-storage uploads.  The blocking
//! process, thread and network plumbing that drives these decisions lives
//! outside the library.

pub mod appstate;
pub mod encoding;
pub mod engine;
pub mod errors;
pub mod files_rules;
pub mod laws;
pub mod manifest;
pub mod paths;
pub mod preview;
pub mod registry;
pub mod sanitize;
pub mod signing;
pub mod termination;
pub mod text;
pub mod validate;
