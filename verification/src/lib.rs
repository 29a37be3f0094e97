//! Reading text from byte sources and writing text to byte sinks, with a
//! choice between failing silently and failing with a message for the
//! diagnostic stream.
//!
//! The crate performs no input or output of its own.  Sources and sinks that
//! live in memory are served completely; for files and live streams the crate
//! holds the decisions (what to open and how, what to submit, how to judge the
//! answer) as small state values that a driver feeds with what the operating
//! system replied.

pub mod lines;
pub mod reading;
pub mod route;
pub mod signal;
pub mod text;
pub mod writing;

pub use signal::{Report, Verbosity};
