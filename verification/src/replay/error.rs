//! Errors of session replay.
use vstd::prelude::*;
use crate::deps::{hex_error_text, io_error_text, json_error_text};
use crate::protocol::{protocol_error_text, ProtocolError};
use crate::text::{append_to, concat_str, decimal_string, decimal_text, owned, text_starts_with};

verus! {

/// Replay and mock-backend failures.
#[derive(Debug)]
pub enum ReplayError {
    Io(std::io::Error),
    Json(serde_json::Error),
    InvalidHeader(String),
    InvalidEvent(String),
    Protocol(ProtocolError),
    Hex(hex::FromHexError),
    /// The item received at `step` is not the recorded one.
    Mismatch { step: usize, expected: String, got: String },
    /// The connection ended before `step` was received.
    UnexpectedEof { step: usize },
}


/// The text of a replay error; where the error carries an I/O, JSON or hex
/// failure, the start of it (that failure's own message follows).
pub open spec fn replay_error_text(e: ReplayError) -> Seq<char> {
    match e {
        ReplayError::Io(_) => "I/O: "@,
        ReplayError::Json(_) => "JSON: "@,
        ReplayError::InvalidHeader(s) => "invalid session header: "@ + s@,
        ReplayError::InvalidEvent(s) => "invalid record event: "@ + s@,
        ReplayError::Protocol(p) => protocol_error_text(p),
        ReplayError::Hex(_) => Seq::empty(),
        ReplayError::Mismatch { step, expected, got } => "replay mismatch at step "@ + decimal_text(step as nat)
            + ": expected "@ + expected@ + ", got "@ + got@,
        ReplayError::UnexpectedEof { step } => "replay ended before mock backend finished (step "@ + decimal_text(
            step as nat,
        ) + ")"@,
    }
}

/// Errors whose whole text `replay_error_text` gives.
pub open spec fn replay_error_text_exact(e: ReplayError) -> bool {
    match e {
        ReplayError::Io(_) => false,
        ReplayError::Json(_) => false,
        ReplayError::Hex(_) => false,
        ReplayError::Protocol(p) => !(p is Io),
        _ => true,
    }
}

impl ReplayError {
    /// The human-readable message of the error.
    pub fn message(&self) -> (r: String)
        ensures
            replay_error_text_exact(*self) ==> r@ == replay_error_text(*self),
            text_starts_with(r@, replay_error_text(*self)),
    {
        let r = match self {
            ReplayError::Io(e) => concat_str("I/O: ", io_error_text(e).as_str()),
            ReplayError::Json(e) => concat_str("JSON: ", json_error_text(e).as_str()),
            ReplayError::InvalidHeader(s) => concat_str("invalid session header: ", s.as_str()),
            ReplayError::InvalidEvent(s) => concat_str("invalid record event: ", s.as_str()),
            ReplayError::Protocol(p) => p.message(),
            ReplayError::Hex(h) => hex_error_text(h),
            ReplayError::Mismatch { step, expected, got } => {
                let m = append_to(owned("replay mismatch at step "), decimal_string(*step as u64).as_str());
                let m = append_to(append_to(m, ": expected "), expected.as_str());
                append_to(append_to(m, ", got "), got.as_str())
            },
            ReplayError::UnexpectedEof { step } => {
                let m = append_to(owned("replay ended before mock backend finished (step "), decimal_string(*step as u64).as_str());
                append_to(m, ")")
            },
        };
        proof {
            assert(r@.take(replay_error_text(*self).len() as int) =~= replay_error_text(*self));
        }
        r
    }
}

} // verus!
