//! Verified core of a command-line client for the ClickUp task tracker.
//!
//! The library decides what a run of the client does and computes what it
//! shows and sends; the application around it reads the command line, the
//! files under `~/.config/clickdown` and the ClickUp API, and prints.

pub mod alias;
pub mod cli;
pub mod clickup;
pub mod text;
pub mod token_handler;
pub mod utils;

pub use cli::{Add, Args, Delete, Domain};
