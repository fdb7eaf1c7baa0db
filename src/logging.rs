//! Settings of the log, gathered before logging starts.

use vstd::prelude::*;
use crate::config::{LogLevel, LogSettings};

verus! {

/// Gathers how logging is to be set up.
#[derive(Debug, Clone)]
pub struct LogManagerBuilder {
    pub level: LogLevel,
    pub enable_file: bool,
    pub log_dir: String,
    pub enable_stdout: bool,
}

impl LogManagerBuilder {
    /// Logging at `Info`, to files in `log_dir` and to standard output.
    pub fn new(log_dir: String) -> (r: Self)
        ensures
            r.level == LogLevel::Info,
            r.enable_file,
            r.log_dir == log_dir,
            r.enable_stdout,
    {
        LogManagerBuilder { level: LogLevel::Info, enable_file: true, log_dir, enable_stdout: true }
    }

    /// Takes the level and the file switch from stored settings.
    pub fn with_settings(self, settings: &LogSettings) -> (r: Self)
        ensures
            r == (LogManagerBuilder { level: settings.level, enable_file: settings.enabled, ..self }),
    {
        LogManagerBuilder { level: settings.level, enable_file: settings.enabled, ..self }
    }

    pub fn level(self, level: LogLevel) -> (r: Self)
        ensures
            r == (LogManagerBuilder { level, ..self }),
    {
        LogManagerBuilder { level, ..self }
    }

    pub fn log_dir(self, path: String) -> (r: Self)
        ensures
            r == (LogManagerBuilder { log_dir: path, ..self }),
    {
        LogManagerBuilder { log_dir: path, ..self }
    }

    pub fn enable_file(self, enable: bool) -> (r: Self)
        ensures
            r == (LogManagerBuilder { enable_file: enable, ..self }),
    {
        LogManagerBuilder { enable_file: enable, ..self }
    }

    pub fn enable_stdout(self, enable: bool) -> (r: Self)
        ensures
            r == (LogManagerBuilder { enable_stdout: enable, ..self }),
    {
        LogManagerBuilder { enable_stdout: enable, ..self }
    }
}

} // verus!
