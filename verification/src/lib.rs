//! Supervision of named, long-lived child processes that talk over
//! line-oriented standard input/output.
//!
//! The crate is organised around four pieces:
//! - `handle::ProcessHandle`: what the supervisor remembers about one
//!   running child process;
//! - `registry::Registry`: the authoritative mapping from a caller-chosen
//!   name to the live handle under that name;
//! - `supervisor::Supervisor`: the start / send / stop operations, each
//!   returning the operating-system action the caller has to perform;
//! - `bridge::Bridge`: the per-process translation of a raw output byte
//!   stream into discrete line events (`event::ChunkPayload`).
//!
//! All process, pipe and thread work stays outside this crate: the library
//! decides, the embedding program executes.

pub mod bridge;
pub mod config;
pub mod error;
pub mod event;
pub mod handle;
pub mod registry;
pub mod supervisor;
pub mod tools;
