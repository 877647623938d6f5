//! Mirrors declared (source, target) pairs into symbolic links under a
//! target root, and removes exactly those links again.
//!
//! The library decides and the caller acts: the caller observes the
//! filesystem, hands the observations over as plain values, and carries out
//! the steps that come back.
//!
//! - `path`: path strings.
//! - `metadata`: the entry store, from the lines of the metadata file to
//!   validated entries.
//! - `symlink`: the link reconciler, from one observed position to the
//!   steps that create or remove the link there.
//! - `tree`: what those decisions make of a whole tree.
//! - `command`, `handler`, `app`: the command line, the three commands and
//!   the outcome of a run.

pub mod path;
pub mod symlink;
pub mod tree;
pub mod metadata;
pub mod command;
pub mod handler;
pub mod app;
