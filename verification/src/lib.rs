//! The state machine of a debug session behind a debug adapter.
//!
//! A session does no I/O of its own. What it wants done it says in a [`step::Step`], and it is told
//! what came of it.

pub mod breakpoints;
pub mod error;
pub mod laws;
pub mod output;
pub mod paths;
pub mod protocol;
pub mod session;
pub mod setup;
pub mod state;
pub mod step;
pub mod text;
