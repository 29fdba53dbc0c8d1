//! What logging is set up with, from [`crate::config::LoggingConfig`] and the
//! command-line verbosity flags.
//!
//! Precedence for the effective level: `-d` (debug) > `-v` (info) > config
//! `logging.level`. Installing the subscriber and opening a log file are
//! left to the program.
use vstd::prelude::*;
use crate::config::LoggingConfig;
use crate::text::{concat_str, str_is};

verus! {

/// The effective level: `debug` under `-d`, else `info` under `-v`, else
/// the configured level.
pub open spec fn spec_effective_level(logging: LoggingConfig, verbose: bool, debug: bool) -> Seq<char> {
    if debug {
        "debug"@
    } else if verbose {
        "info"@
    } else {
        logging.level@
    }
}

/// Effective `rsgdb` log level string for the default filter.
pub fn effective_level_str(logging: &LoggingConfig, verbose: bool, debug: bool) -> (r: &str)
    ensures
        r@ == spec_effective_level(*logging, verbose, debug),
{
    if debug {
        "debug"
    } else if verbose {
        "info"
    } else {
        logging.level.as_str()
    }
}

/// The default filter directive: `rsgdb=<level>`, with
/// `,rsgdb::protocol=trace` added when protocol logging is on.
pub open spec fn spec_filter_directive(logging: LoggingConfig, verbose: bool, debug: bool) -> Seq<char> {
    let base = "rsgdb="@ + spec_effective_level(logging, verbose, debug);
    if logging.log_protocol {
        base + ",rsgdb::protocol=trace"@
    } else {
        base
    }
}

/// The filter directive used when `RUST_LOG` is not set.
pub fn default_filter_directive(logging: &LoggingConfig, verbose: bool, debug: bool) -> (r: String)
    ensures
        r@ == spec_filter_directive(*logging, verbose, debug),
{
    let level = effective_level_str(logging, verbose, debug);
    let base = concat_str("rsgdb=", level);
    if logging.log_protocol {
        concat_str(base.as_str(), ",rsgdb::protocol=trace")
    } else {
        base
    }
}

/// How log lines are written.
#[derive(Debug, Clone, Copy, PartialEq, Eq)]
pub struct LogStyle {
    /// JSON lines (format `json`) rather than text.
    pub json: bool,
    /// Lines carry a timestamp.
    pub timestamps: bool,
    /// Lines carry the thread id.
    pub thread_ids: bool,
}

/// The style for a logging configuration: JSON exactly when the format is
/// `json` (any other format is written as text).
pub fn log_style(logging: &LoggingConfig) -> (r: LogStyle)
    ensures
        r.json == (logging.format@ == "json"@),
        r.timestamps == logging.include_timestamps,
        r.thread_ids == logging.include_thread_ids,
{
    LogStyle {
        json: str_is(logging.format.as_str(), "json"),
        timestamps: logging.include_timestamps,
        thread_ids: logging.include_thread_ids,
    }
}

} // verus!
