//! A stateless control plane for Cloud SQL Auth Proxy processes.
//!
//! The library decides: which config is valid, how observations of systemd
//! units and ports become health, what `start`, `stop` and `restart` ask of
//! systemd and when they are done, what the environment checks say, and what
//! every command prints and ends with. Whoever calls it reads files, talks to
//! systemd, probes ports and prints.

pub mod cli;
pub mod clock;
pub mod commands;
pub mod config;
pub mod env;
pub mod journal;
pub mod model;
pub mod paths;
pub mod port;
pub mod reconcile;
pub mod supervisor;
pub mod text;
