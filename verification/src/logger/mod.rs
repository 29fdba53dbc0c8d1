//! Logger settings: level, output format and destination.
use vstd::prelude::*;
use crate::text::owned;

verus! {

/// Logger configuration.
#[derive(Debug, Clone)]
pub struct LoggerConfig {
    /// Log level.
    pub level: String,
    /// Output format (`text`, `json`).
    pub format: String,
    /// Output file path.
    pub output: Option<String>,
}

impl Default for LoggerConfig {
    /// Level `info`, text format, standard output.
    fn default() -> (r: Self)
        ensures
            r.level@ == "info"@,
            r.format@ == "text"@,
            r.output is None,
    {
        LoggerConfig { level: owned("info"), format: owned("text"), output: None }
    }
}

} // verus!
