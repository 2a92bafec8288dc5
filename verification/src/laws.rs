//! What holds of a session as a whole, whatever is asked of it and whatever the adapter says.

pub mod breakpoints;
pub mod control;
pub mod events;
pub mod frames;
pub mod launch;
pub mod output;
pub mod requests;
pub mod session;
pub mod setup;
pub mod text;
pub mod views;
