//! Translate a natural-language request into a single shell command.
//!
//! The library holds the verified core of the tool: the shell detection rule
//! and the per-shell invocation table, the system-prompt construction, the
//! configuration store with a lossless JSON codec, the validation of the
//! interactive setup dialogue, and the decision logic of the interactive
//! runner. All I/O (console, file, network, process spawning) lives outside
//! the library and hands in plain values.

pub mod codec;
pub mod config;
pub mod model;
pub mod runner;
pub mod shell;
pub mod text;
