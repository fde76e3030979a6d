//! The core of a desktop backend that runs shell commands and interactive
//! terminals against a local project.
//!
//! The crate holds the decisions: which sessions are live and what a command
//! does to them, what the output pump and the exit watcher do at each step,
//! how a one-shot job is named, laid out and recorded, and how the local file
//! server resolves a request without leaving its root. Opening terminals,
//! starting processes, reading, writing and sleeping are left to the caller,
//! which hands in plain values and carries out what it is told.

pub mod artifacts;
pub mod clock;
pub mod env;
pub mod errors;
pub mod events;
pub mod ids;
pub mod job;
pub mod json;
pub mod order;
pub mod paths;
pub mod project;
pub mod pump;
pub mod runs;
pub mod server;
pub mod session;
pub mod slug;
pub mod terminal;
pub mod text;
pub mod watcher;
