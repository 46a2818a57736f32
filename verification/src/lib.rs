//! Replaying the history of one subdirectory of a source repository onto a
//! target repository, commit by commit.
//!
//! - [`range`] decides which commits are replayed and in what order.
//! - [`git`] reads and changes the two repositories.
//! - [`guard`] and [`session`] take every change of branch or stash back at
//!   the end of a run.
//! - [`patch`] and [`sync`] drive the replay: the command lines for the
//!   version-control tool, what its answers mean, and the counting.
//! - [`frontend`] is the interactive front end as a machine of states.
//! - [`file_sync`] is the older way of synchronising, by copying files.
//! - [`config`], [`error`] and [`text`] serve the others, and [`backend`]
//!   holds the calls into the repository engine and the calendar.

pub mod backend;
pub mod config;
pub mod error;
pub mod file_sync;
pub mod frontend;
pub mod git;
pub mod guard;
pub mod patch;
pub mod range;
pub mod session;
pub mod sync;
pub mod text;
