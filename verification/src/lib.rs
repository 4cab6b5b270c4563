//! Core of a command-line client for a tabular record service: command
//! resolution, field classification, value encoding, cache (de)serialization,
//! request-body framing and response projection, all verified. The
//! surrounding process (argument intake, configuration file, HTTP transport,
//! line editing) lives outside this crate and hands plain values in and out.

pub mod body;
pub mod cachefmt;
pub mod errors;
pub mod project;
pub mod repl;
pub mod resolve;
pub mod schema;
pub mod settings;
pub mod strutil;
pub mod values;
