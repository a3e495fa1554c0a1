//! Decisions of a cross-platform `caffeinate`: command-line parsing, option
//! normalisation, process-liveness and power-status interpretation, and the
//! inhibition requests to make on each platform.

pub mod text;
pub mod options;
pub mod platform;
pub mod parse;
pub mod pid;
pub mod hold;
