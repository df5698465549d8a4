//! A development-container lifecycle manager: given a declarative set of named
//! container definitions, it decides how to build images, (re)create and start
//! containers, report live status against the declared set, stop containers by
//! pattern, and drive a debounced rebuild loop over build-context changes.
//!
//! The reconciliation, selection, rendering and debounce logic lives here and
//! is verified; the container engine, the filesystem watcher and all other
//! I/O are driven by an unverified shell around this crate.

pub mod cli;
pub mod completion;
pub mod config;
pub mod denver;
pub mod docker;
pub mod pattern;
pub mod status;
pub mod textutil;
pub mod watch;
