//! Error types.
use vstd::prelude::*;
use crate::deps::{io_error_text, json_error_text};
use crate::protocol::commands::{command_error_text, CommandError};
use crate::protocol::{protocol_error_text, ProtocolError};
use crate::text::{concat_str, owned, text_starts_with};

verus! {

/// Main error type.
#[derive(Debug)]
pub enum RsgdbError {
    /// Protocol-related errors.
    Protocol(ProtocolError),
    /// Command parsing errors.
    Command(CommandError),
    /// Backend communication errors.
    Backend(String),
    /// Configuration errors.
    Config(ConfigError),
    /// I/O errors.
    Io(std::io::Error),
    /// Connection errors.
    Connection(String),
    /// Timeout errors.
    Timeout(String),
    /// JSON serialization / deserialization.
    Json(serde_json::Error),
    /// State errors.
    InvalidState(String),
    /// Not implemented.
    NotImplemented(String),
}

/// The text of an error; where the error carries an I/O or JSON failure,
/// the start of it (that failure's own message follows).
pub open spec fn rsgdb_error_text(e: RsgdbError) -> Seq<char> {
    match e {
        RsgdbError::Protocol(p) => "Protocol error: "@ + protocol_error_text(p),
        RsgdbError::Command(c) => "Command error: "@ + command_error_text(c@),
        RsgdbError::Backend(s) => "Backend error: "@ + s@,
        RsgdbError::Config(c) => "Configuration error: "@ + config_error_text(c@),
        RsgdbError::Io(_) => "I/O error: "@,
        RsgdbError::Connection(s) => "Connection error: "@ + s@,
        RsgdbError::Timeout(s) => "Operation timed out: "@ + s@,
        RsgdbError::Json(_) => "JSON error: "@,
        RsgdbError::InvalidState(s) => "Invalid state: "@ + s@,
        RsgdbError::NotImplemented(s) => "Feature not implemented: "@ + s@,
    }
}

/// Errors whose whole text `rsgdb_error_text` gives.
pub open spec fn rsgdb_error_text_exact(e: RsgdbError) -> bool {
    match e {
        RsgdbError::Protocol(p) => !(p is Io),
        RsgdbError::Io(_) => false,
        RsgdbError::Json(_) => false,
        _ => true,
    }
}

impl RsgdbError {
    /// The human-readable message of the error.
    pub fn message(&self) -> (r: String)
        ensures
            rsgdb_error_text_exact(*self) ==> r@ == rsgdb_error_text(*self),
            text_starts_with(r@, rsgdb_error_text(*self)),
    {
        let r = match self {
            RsgdbError::Protocol(p) => {
                let m = p.message();
                proof {
                    let t = protocol_error_text(*p);
                    assert(("Protocol error: "@ + m@).take(("Protocol error: "@ + t).len() as int) =~= "Protocol error: "@ + t);
                }
                concat_str("Protocol error: ", m.as_str())
            },
            RsgdbError::Command(c) => concat_str("Command error: ", c.message().as_str()),
            RsgdbError::Backend(s) => concat_str("Backend error: ", s.as_str()),
            RsgdbError::Config(c) => concat_str("Configuration error: ", c.message().as_str()),
            RsgdbError::Io(e) => concat_str("I/O error: ", io_error_text(e).as_str()),
            RsgdbError::Connection(s) => concat_str("Connection error: ", s.as_str()),
            RsgdbError::Timeout(s) => concat_str("Operation timed out: ", s.as_str()),
            RsgdbError::Json(e) => concat_str("JSON error: ", json_error_text(e).as_str()),
            RsgdbError::InvalidState(s) => concat_str("Invalid state: ", s.as_str()),
            RsgdbError::NotImplemented(s) => concat_str("Feature not implemented: ", s.as_str()),
        };
        proof {
            assert(r@.take(rsgdb_error_text(*self).len() as int) =~= rsgdb_error_text(*self));
        }
        r
    }
}

/// `e` is a backend error with the given message.
pub open spec fn is_backend_error(e: RsgdbError, m: Seq<char>) -> bool {
    e matches RsgdbError::Backend(x) && x@ == m
}

/// `e` is a timeout error with the given message.
pub open spec fn is_timeout_error(e: RsgdbError, m: Seq<char>) -> bool {
    e matches RsgdbError::Timeout(x) && x@ == m
}

/// Configuration-related errors.
#[derive(Debug)]
pub enum ConfigError {
    /// File not found.
    FileNotFound(String),
    /// Parse error.
    ParseError(String),
    /// Validation error.
    ValidationError(String),
    /// Missing required field.
    MissingField(String),
    /// Invalid value.
    InvalidValue { field: String, reason: String },
}

/// Abstract view of a configuration error.
pub enum ConfigErrorView {
    FileNotFound(Seq<char>),
    ParseError(Seq<char>),
    ValidationError(Seq<char>),
    MissingField(Seq<char>),
    InvalidValue { field: Seq<char>, reason: Seq<char> },
}

impl View for ConfigError {
    type V = ConfigErrorView;

    open spec fn view(&self) -> ConfigErrorView {
        match self {
            ConfigError::FileNotFound(s) => ConfigErrorView::FileNotFound(s@),
            ConfigError::ParseError(s) => ConfigErrorView::ParseError(s@),
            ConfigError::ValidationError(s) => ConfigErrorView::ValidationError(s@),
            ConfigError::MissingField(s) => ConfigErrorView::MissingField(s@),
            ConfigError::InvalidValue { field, reason } => ConfigErrorView::InvalidValue {
                field: field@,
                reason: reason@,
            },
        }
    }
}

/// The human-readable message of a configuration error.
pub open spec fn config_error_text(e: ConfigErrorView) -> Seq<char> {
    match e {
        ConfigErrorView::FileNotFound(p) => "Configuration file not found: "@ + p,
        ConfigErrorView::ParseError(m) => "Failed to parse configuration: "@ + m,
        ConfigErrorView::ValidationError(m) => "Configuration validation failed: "@ + m,
        ConfigErrorView::MissingField(f) => "Missing required configuration field: "@ + f,
        ConfigErrorView::InvalidValue { field, reason } => "Invalid configuration value for "@ + field + ": "@
            + reason,
    }
}

impl ConfigError {
    /// An invalid-value error for `field`.
    pub fn invalid(field: &str, reason: &str) -> (e: Self)
        ensures
            e@ == (ConfigErrorView::InvalidValue { field: field@, reason: reason@ }),
    {
        ConfigError::InvalidValue { field: owned(field), reason: owned(reason) }
    }

    /// The human-readable message of the error.
    pub fn message(&self) -> (r: String)
        ensures
            r@ == config_error_text(self@),
    {
        match self {
            ConfigError::FileNotFound(p) => concat_str("Configuration file not found: ", p.as_str()),
            ConfigError::ParseError(m) => concat_str("Failed to parse configuration: ", m.as_str()),
            ConfigError::ValidationError(m) => concat_str("Configuration validation failed: ", m.as_str()),
            ConfigError::MissingField(f) => concat_str("Missing required configuration field: ", f.as_str()),
            ConfigError::InvalidValue { field, reason } => {
                let a = concat_str("Invalid configuration value for ", field.as_str());
                let b = concat_str(a.as_str(), ": ");
                concat_str(b.as_str(), reason.as_str())
            },
        }
    }
}

} // verus!
