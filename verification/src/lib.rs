//! Verified core of a directory-watching daemon.
//!
//! The daemon watches registered directories and, on qualifying filesystem
//! events, runs a configured pipeline of actions against the event.  This
//! crate holds the verified logic: the mapping store (directory to handler
//! state), the supervisor operations over it, the snapshot codec, the
//! workflow execution engine with its actions, the per-directory worker
//! state machine, and the startup reconciler.  Process plumbing (RPC, the
//! filesystem, threads) lives outside and drives these functions.

pub mod codec;
pub mod config;
pub mod context;
pub mod errors;
pub mod mapping;
pub mod reconciler;
pub mod subcommand;
pub mod supervisor;
pub mod worker;
pub mod workflow;
