//! Background download engine: configuration, job admission and lifecycle,
//! parsing of the extraction tool's diagnostic output, and the command line
//! handed to that tool.

pub mod command;
pub mod config;
pub mod dependency;
pub mod display;
pub mod guarantees;
pub mod history;
pub mod job;
pub mod logging;
pub mod numeral;
pub mod paths;
pub mod progress;
pub mod service;
pub mod sidecar;
pub mod text;
