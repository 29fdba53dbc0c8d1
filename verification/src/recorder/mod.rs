//! Session recording: JSON Lines traces of the RSP traffic (format
//! `rsgdb-record`, version 1).
pub mod jsonl;

use vstd::prelude::*;
use crate::deps::Timestamp;

pub use jsonl::{RecordBudget, RecordDirection, RecordEventV1, RecordHeaderV1, RecordKind, FORMAT_NAME, FORMAT_VERSION};

verus! {

/// A recorded debugging session.
#[derive(Debug, Clone)]
pub struct Session {
    /// Session id.
    pub id: String,
    /// Start time.
    pub start_time: Timestamp,
    /// End time.
    pub end_time: Option<Timestamp>,
    /// Recorded events.
    pub events: Vec<SessionEvent>,
}

/// An event in a debugging session.
#[derive(Debug, Clone)]
pub struct SessionEvent {
    /// Timestamp.
    pub timestamp: Timestamp,
    /// Event type.
    pub event_type: String,
    /// Event data.
    pub data: Vec<u8>,
}

} // verus!
