//! JSON Lines session recording: the events and the size budget of a
//! recording. Writing the file is left to the application.
use vstd::prelude::*;
use crate::deps::Timestamp;
use std::fmt::Write;
use crate::config::RecordingConfig;
use crate::deps::hex_encode;
use crate::protocol::codec::{FrameView, PacketOrAck};
use crate::error::RsgdbError;
use crate::text::{append_to, concat_str, decimal_string, decimal_text, hex_encode_text, owned};

verus! {

/// Format name written in the header line.
pub const FORMAT_NAME: &'static str = "rsgdb-record";
/// Format version written in the header line.
pub const FORMAT_VERSION: u32 = 1;

/// First line of a recording.
#[derive(Debug, Clone)]
pub struct RecordHeaderV1 {
    pub format: String,
    pub version: u32,
    pub session_id: String,
    pub started_at: Timestamp,
}

impl RecordHeaderV1 {
    /// The header of a new recording with this id and start time.
    pub fn new(session_id: String, started_at: Timestamp) -> (h: Self)
        ensures
            h.format@ == FORMAT_NAME@,
            h.version == FORMAT_VERSION,
            h.session_id == session_id,
            h.started_at == started_at,
    {
        RecordHeaderV1 { format: owned(FORMAT_NAME), version: FORMAT_VERSION, session_id, started_at }
    }
}

/// The UTC date and time of a point in time written out by `chrono` with a
/// strftime pattern; `None` for a time outside `chrono`'s range or a
/// pattern that `chrono` cannot write out.
pub uninterp spec fn utc_stamp_text(secs: i64, nanos: u32, pattern: Seq<char>) -> Option<Seq<char>>;

/// `chrono::DateTime::<Utc>::from_timestamp`, then `format(pattern)` written
/// into a string (a write that fails gives `None`, as an out-of-range time does).
#[verifier::external_body]
fn utc_stamp(ts: Timestamp, pattern: &str) -> (r: Option<String>)
    ensures
        match r {
            Some(s) => utc_stamp_text(ts.secs, ts.nanos, pattern@) == Some(s@),
            None => utc_stamp_text(ts.secs, ts.nanos, pattern@) is None,
        },
{
    let t = chrono::DateTime::<chrono::Utc>::from_timestamp(ts.secs, ts.nanos)?;
    let mut s = String::new();
    match write!(s, "{}", t.format(pattern)) {
        Ok(()) => Some(s),
        Err(_) => None,
    }
}

/// The strftime pattern of a session id's time part: `YYYYmmdd-HHMMSS`.
pub open spec fn session_stamp_pattern() -> Seq<char> {
    "%Y%m%d-%H%M%S"@
}

/// The session id of a recording started at `started` by process `pid`:
/// the UTC stamp `YYYYmmdd-HHMMSS`, `-`, and the process id; an
/// invalid-state error when the time cannot be written out.
pub fn session_id(started: Timestamp, pid: u32) -> (r: Result<String, RsgdbError>)
    ensures
        match utc_stamp_text(started.secs, started.nanos, session_stamp_pattern()) {
            Some(t) => r matches Ok(id) && id@ == t + "-"@ + decimal_text(pid as nat),
            None => r matches Err(RsgdbError::InvalidState(m)) && m@ == "recording start time out of range"@,
        },
{
    match utc_stamp(started, "%Y%m%d-%H%M%S") {
        Some(t) => {
            let n = decimal_string(pid as u64);
            Ok(append_to(append_to(t, "-"), n.as_str()))
        },
        None => Err(RsgdbError::InvalidState(owned("recording start time out of range"))),
    }
}

/// The file name of a recording: the session id with `.jsonl` appended.
pub fn session_file_name(session_id: &str) -> (r: String)
    ensures
        r@ == session_id@ + ".jsonl"@,
{
    concat_str(session_id, ".jsonl")
}

/// Direction of a recorded item.
#[derive(Debug, Clone, Copy, PartialEq, Eq, Structural)]
pub enum RecordDirection {
    ClientToBackend,
    BackendToClient,
}

/// Kind of a recorded item.
#[derive(Debug, Clone, Copy, PartialEq, Eq, Structural)]
pub enum RecordKind {
    Packet,
    Ack,
    Nack,
}

/// One recorded RSP item.
#[derive(Debug, Clone)]
pub struct RecordEventV1 {
    pub ts: Timestamp,
    pub direction: RecordDirection,
    pub kind: RecordKind,
    /// Hex of the packet payload (packets only).
    pub payload_hex: Option<String>,
    /// Length of the packet payload (packets only).
    pub payload_len: Option<usize>,
}

/// The recorded fields of an item: kind, payload hex and payload length.
pub open spec fn record_fields(item: FrameView) -> (RecordKind, Option<Seq<char>>, Option<usize>) {
    match item {
        FrameView::Packet(d, _) => (RecordKind::Packet, Some(hex_encode_text(d)), Some(d.len() as usize)),
        FrameView::Ack => (RecordKind::Ack, None, None),
        FrameView::Nack => (RecordKind::Nack, None, None),
    }
}

impl RecordEventV1 {
    /// Record an item seen on the wire at time `ts` (the caller reads the clock).
    pub fn from_rsp(direction: RecordDirection, item: &PacketOrAck, ts: Timestamp) -> (ev: Self)
        ensures
            ev.ts == ts,
            ev.direction == direction,
            (ev.kind, match ev.payload_hex {
                Some(h) => Some(h@),
                None => None,
            }, ev.payload_len) == record_fields(item@),
    {
        match item {
            PacketOrAck::Packet(p) => RecordEventV1 {
                ts,
                direction,
                kind: RecordKind::Packet,
                payload_hex: Some(hex_encode(p.data.as_slice())),
                payload_len: Some(p.data.len()),
            },
            PacketOrAck::Ack => RecordEventV1 { ts, direction, kind: RecordKind::Ack, payload_hex: None, payload_len: None },
            PacketOrAck::Nack => RecordEventV1 { ts, direction, kind: RecordKind::Nack, payload_hex: None, payload_len: None },
        }
    }
}

/// The size budget of a recording: lines are written while they fit under
/// `max_bytes` (each line counts its length plus the newline; `0` means no
/// limit); the first line that does not fit stops the recording for good.
#[derive(Debug, Clone)]
pub struct RecordBudget {
    pub bytes_written: u64,
    pub max_bytes: u64,
    pub stopped: bool,
}

/// The budget is kept: with a limit, what was written stays within it.
pub open spec fn budget_kept(b: RecordBudget) -> bool {
    b.max_bytes > 0 ==> b.bytes_written <= b.max_bytes
}

impl RecordBudget {
    /// The budget of a new recording: `max_size_mb` MiB (saturating), nothing written yet.
    pub fn new(cfg: &RecordingConfig) -> (b: Self)
        ensures
            b.bytes_written == 0,
            !b.stopped,
            b.max_bytes == (if cfg.max_size_mb * 1048576 > u64::MAX { u64::MAX as int } else { cfg.max_size_mb * 1048576 }),
            budget_kept(b),
    {
        let max_bytes = match cfg.max_size_mb.checked_mul(1048576) {
            Some(m) => m,
            None => u64::MAX,
        };
        RecordBudget { bytes_written: 0, max_bytes, stopped: false }
    }

    /// Whether a line of `line_len` bytes may be written now; when it may,
    /// its bytes and the newline are counted; when it exceeds the limit, the
    /// recording stops.
    pub fn take_line(&mut self, line_len: usize) -> (ok: bool)
        ensures
            (*final(self), ok) == take_line_spec(*old(self), line_len as nat),
    {
        if self.stopped {
            return false;
        }
        let sum = match (line_len as u64).checked_add(1) {
            Some(need) => self.bytes_written.checked_add(need),
            None => None,
        };
        let fits = match sum {
            Some(t) => self.max_bytes == 0 || t <= self.max_bytes,
            None => self.max_bytes == 0,
        };
        if !fits {
            self.stopped = true;
            return false;
        }
        self.bytes_written = match sum {
            Some(t) => t,
            None => u64::MAX,
        };
        true
    }
}

/// The byte count after a line of `line_len` bytes and its newline; with no
/// limit the count stops at the largest `u64`.
pub open spec fn count_line(written: u64, line_len: nat) -> u64 {
    if written + line_len + 1 > u64::MAX {
        u64::MAX
    } else {
        (written + line_len + 1) as u64
    }
}

/// Taking a line: a stopped recording takes nothing; a line that would go
/// over the limit stops the recording; any other line is counted.
pub open spec fn take_line_spec(b: RecordBudget, line_len: nat) -> (RecordBudget, bool) {
    if b.stopped {
        (b, false)
    } else if b.max_bytes > 0 && b.bytes_written + line_len + 1 > b.max_bytes {
        (RecordBudget { stopped: true, ..b }, false)
    } else {
        (RecordBudget { bytes_written: count_line(b.bytes_written, line_len), ..b }, true)
    }
}

/// The budget after offering lines of the given lengths, in order.
pub open spec fn take_lines(b: RecordBudget, lens: Seq<nat>) -> RecordBudget
    decreases lens.len(),
{
    if lens.len() == 0 {
        b
    } else {
        take_lines(take_line_spec(b, lens[0]).0, lens.drop_first())
    }
}

/// A recording never goes over its limit: taking a line keeps the budget,
/// and a taken line is counted whole.
pub proof fn lemma_take_line_keeps_budget(b: RecordBudget, line_len: nat)
    requires
        budget_kept(b),
    ensures
        budget_kept(take_line_spec(b, line_len).0),
        take_line_spec(b, line_len).1 && b.max_bytes > 0 ==> take_line_spec(b, line_len).0.bytes_written
            == b.bytes_written + line_len + 1,
        b.stopped ==> take_line_spec(b, line_len) == (b, false),
{
}

/// Over any run of lines: what is written stays within the limit, and once
/// a line has been refused the recording stays stopped and nothing more is
/// counted, even lines that would fit.
pub proof fn lemma_take_lines(b: RecordBudget, lens: Seq<nat>)
    requires
        budget_kept(b),
    ensures
        budget_kept(take_lines(b, lens)),
        take_lines(b, lens).max_bytes == b.max_bytes,
        b.stopped ==> take_lines(b, lens) == b,
        take_lines(b, lens).bytes_written >= b.bytes_written,
    decreases lens.len(),
{
    if lens.len() > 0 {
        lemma_take_line_keeps_budget(b, lens[0]);
        lemma_take_lines(take_line_spec(b, lens[0]).0, lens.drop_first());
    }
}

} // verus!
