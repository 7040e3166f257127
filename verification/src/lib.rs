//! Selection, pagination and request building for a terminal video browser.
//!
//! The crate holds the decisions of the browser: which index window a result
//! page asks for, how a metadata document becomes a list of playback formats,
//! how picker rows are laid out and read back, and how the session moves from
//! one step to the next. Running the external tools is left to the caller.

pub mod flow;
pub mod json;
pub mod runner;
pub mod text;
pub mod types;
pub mod ui;
pub mod youtube;
