//! The command line: options, the backend's answers and their rendering.

pub mod args;
pub mod backend;
pub mod refresh;
pub mod render;
