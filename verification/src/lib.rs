//! Rich terminal progress for a wrapped Nix-style build process.
//!
//! The crate decodes the build tool's structured log protocol (one JSON
//! envelope per line) into typed events, and runs a dispatch engine in which
//! stateful handlers correlate events by step id, keep counters, and emit
//! structured rendering effects. Everything that touches a terminal, a
//! subprocess or a file lives outside this crate and only interprets the
//! effects computed here.

pub mod action;
pub mod config;
pub mod decode;
pub mod effect;
pub mod handlers;
pub mod json;
pub mod omap;
pub mod program;
pub mod record;
pub mod state;
pub mod style;
pub mod strutil;
