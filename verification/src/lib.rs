//! Core of an interactive disk-space reclaimer for build-artifact
//! directories: a background walker discovers `target` directories next to a
//! `Cargo.toml` sidecar and streams records to a foreground controller, which
//! lets the user browse and delete them one at a time.
//!
//! This crate holds the verified logic: the data model, the walker's
//! traversal and sidecar parsing, the selection list, byte-size and colour
//! helpers, the controller's state transitions, and the shared snapshot cell.
//! Terminal rendering, filesystem access and thread plumbing live with the
//! binary that embeds this library.

pub mod cell;
pub mod color;
pub mod controller;
pub mod format;
pub mod list;
pub mod message;
pub mod record;
pub mod sidecar;
pub mod state;
pub mod walker;
