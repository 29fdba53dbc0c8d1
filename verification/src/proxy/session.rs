//! One proxied connection: relaying items between the two peers, counting
//! them, and the read-only notes logged for memory and thread packets.
use vstd::prelude::*;
use crate::protocol::codec::{FrameView, PacketOrAck};
use crate::protocol::commands::{
    spec_parse_command, CommandView, GdbCommand, QueryCommand, QueryView,
};
use crate::rtos::backend_reply::{spec_thread_payload_summary, summarize_backend_thread_payload};
use crate::rtos::{opt_text, spec_stop_reply_summary, summarize_stop_reply};
use crate::svd::index::{opt_string, spec_annotate, SvdIndex};
use crate::text::{has_prefix, lit, lit_bytes, starts_with};
use vstd::utf8::encode_utf8;

verus! {

/// Statistics for a proxy session (ack/nack counts are totals forwarded in
/// either direction).
#[derive(Debug, Clone, Copy, PartialEq, Eq)]
pub struct SessionStats {
    pub packets_from_client: u64,
    pub packets_to_client: u64,
    pub packets_from_backend: u64,
    pub packets_to_backend: u64,
    pub acks_forwarded: u64,
    pub nacks_forwarded: u64,
}

impl Default for SessionStats {
    fn default() -> (s: Self)
        ensures
            s == zero_stats(),
    {
        SessionStats {
            packets_from_client: 0,
            packets_to_client: 0,
            packets_from_backend: 0,
            packets_to_backend: 0,
            acks_forwarded: 0,
            nacks_forwarded: 0,
        }
    }
}

/// All counters at zero.
pub open spec fn zero_stats() -> SessionStats {
    SessionStats {
        packets_from_client: 0,
        packets_to_client: 0,
        packets_from_backend: 0,
        packets_to_backend: 0,
        acks_forwarded: 0,
        nacks_forwarded: 0,
    }
}

/// One end of a proxied connection.
#[derive(Debug, Clone, Copy, PartialEq, Eq)]
pub enum Peer {
    /// The GDB client.
    Client,
    /// The debug backend (stub or probe server).
    Backend,
}

/// The peer that an item from `from` is relayed to.
pub open spec fn other_peer(from: Peer) -> Peer {
    match from {
        Peer::Client => Peer::Backend,
        Peer::Backend => Peer::Client,
    }
}

/// One more on a counter; a counter at its maximum wraps to zero.
pub open spec fn bump(x: u64) -> u64 {
    if x == u64::MAX {
        0
    } else {
        (x + 1) as u64
    }
}

/// The counters after an item from `from` has been read: a packet counts
/// as one received from that peer; `+` and `-` are counted when forwarded.
pub open spec fn stats_after_receive(s: SessionStats, from: Peer, item: FrameView) -> SessionStats {
    match item {
        FrameView::Packet(..) => match from {
            Peer::Client => SessionStats { packets_from_client: bump(s.packets_from_client), ..s },
            Peer::Backend => SessionStats { packets_from_backend: bump(s.packets_from_backend), ..s },
        },
        _ => s,
    }
}

/// The counters after an item from `from` has been sent on to the other
/// peer: a packet counts as one sent to that peer, `+` and `-` as one
/// forwarded acknowledgement of their kind.
pub open spec fn stats_after_forward(s: SessionStats, from: Peer, item: FrameView) -> SessionStats {
    match item {
        FrameView::Packet(..) => match from {
            Peer::Client => SessionStats { packets_to_backend: bump(s.packets_to_backend), ..s },
            Peer::Backend => SessionStats { packets_to_client: bump(s.packets_to_client), ..s },
        },
        FrameView::Ack => SessionStats { acks_forwarded: bump(s.acks_forwarded), ..s },
        FrameView::Nack => SessionStats { nacks_forwarded: bump(s.nacks_forwarded), ..s },
    }
}

/// No counter is at its maximum, so one more item of any kind can be counted.
pub open spec fn stats_have_room(s: SessionStats) -> bool {
    &&& s.packets_from_client < u64::MAX
    &&& s.packets_to_client < u64::MAX
    &&& s.packets_from_backend < u64::MAX
    &&& s.packets_to_backend < u64::MAX
    &&& s.acks_forwarded < u64::MAX
    &&& s.nacks_forwarded < u64::MAX
}

impl SessionStats {
    /// Whether every counter can take one more item.
    pub fn has_room(&self) -> (r: bool)
        ensures
            r == stats_have_room(*self),
    {
        self.packets_from_client < u64::MAX && self.packets_to_client < u64::MAX
            && self.packets_from_backend < u64::MAX && self.packets_to_backend < u64::MAX
            && self.acks_forwarded < u64::MAX && self.nacks_forwarded < u64::MAX
    }

    /// Count an item read from `from` and say where it is to be sent: every
    /// item, packet or acknowledgement, is relayed unchanged to the other peer.
    pub fn on_received(&mut self, from: Peer, item: &PacketOrAck) -> (to: Peer)
        ensures
            *final(self) == stats_after_receive(*old(self), from, item@),
            to == other_peer(from),
    {
        match item {
            PacketOrAck::Packet(_) => match from {
                Peer::Client => self.packets_from_client = self.packets_from_client.wrapping_add(1),
                Peer::Backend => self.packets_from_backend = self.packets_from_backend.wrapping_add(1),
            },
            _ => {},
        }
        match from {
            Peer::Client => Peer::Backend,
            Peer::Backend => Peer::Client,
        }
    }

    /// Count an item from `from` once it has been sent to the other peer.
    pub fn on_forwarded(&mut self, from: Peer, item: &PacketOrAck)
        ensures
            *final(self) == stats_after_forward(*old(self), from, item@),
    {
        match item {
            PacketOrAck::Packet(_) => match from {
                Peer::Client => self.packets_to_backend = self.packets_to_backend.wrapping_add(1),
                Peer::Backend => self.packets_to_client = self.packets_to_client.wrapping_add(1),
            },
            PacketOrAck::Ack => self.acks_forwarded = self.acks_forwarded.wrapping_add(1),
            PacketOrAck::Nack => self.nacks_forwarded = self.nacks_forwarded.wrapping_add(1),
        }
    }
}

/// Relaying one packet from a peer (read, then sent on) adds exactly one to
/// the packets received from that peer and one to the packets sent to the
/// other peer, and leaves every other counter as it was; relaying `+` or
/// `-` adds one to the forwarded count of its kind, whichever way it goes.
pub proof fn lemma_relay_counts(s: SessionStats, from: Peer, item: FrameView)
    requires
        stats_have_room(s),
    ensures
        ({
            let t = stats_after_forward(stats_after_receive(s, from, item), from, item);
            match item {
                FrameView::Packet(..) => match from {
                    Peer::Client => t == SessionStats {
                        packets_from_client: (s.packets_from_client + 1) as u64,
                        packets_to_backend: (s.packets_to_backend + 1) as u64,
                        ..s
                    },
                    Peer::Backend => t == SessionStats {
                        packets_from_backend: (s.packets_from_backend + 1) as u64,
                        packets_to_client: (s.packets_to_client + 1) as u64,
                        ..s
                    },
                },
                FrameView::Ack => t == SessionStats { acks_forwarded: (s.acks_forwarded + 1) as u64, ..s },
                FrameView::Nack => t == SessionStats { nacks_forwarded: (s.nacks_forwarded + 1) as u64, ..s },
            }
        }),
{
}

/// Every packet sent to a peer was first received from the other one:
/// starting from zero, any run of relays in which each forward follows the
/// receive of the same item keeps the sent counts at or below the received
/// counts.
pub open spec fn stats_consistent(s: SessionStats) -> bool {
    &&& s.packets_to_backend <= s.packets_from_client
    &&& s.packets_to_client <= s.packets_from_backend
}

/// Receiving keeps the counts consistent, and so does a receive followed by
/// the forward of the same item; a failed send (a receive with no forward)
/// only widens the gap.
pub proof fn lemma_relay_keeps_consistent(s: SessionStats, from: Peer, item: FrameView)
    requires
        stats_have_room(s),
        stats_consistent(s),
    ensures
        stats_consistent(stats_after_receive(s, from, item)),
        stats_consistent(stats_after_forward(stats_after_receive(s, from, item), from, item)),
{
}

/// The access kind of an annotated memory packet.
#[derive(Debug, Clone, Copy, PartialEq, Eq)]
pub enum SvdAccess {
    /// `m addr,len`.
    Read,
    /// `M addr,len:data`.
    Write,
}

/// A register note for a client memory packet.
#[derive(Debug, Clone)]
pub struct SvdNote {
    pub access: SvdAccess,
    pub addr: u64,
    pub len: u64,
    pub note: String,
}

/// The register note that a client memory packet earns: for `m` the
/// requested length, for `M` the number of data bytes, annotated against the
/// index; nothing for other items, for data that does not parse, or when no
/// register is touched.
pub open spec fn spec_svd_client_note(
    spans: Seq<(u64, u64, Seq<char>)>,
    fields: Seq<(u64, u64, Seq<char>)>,
    item: FrameView,
) -> Option<(SvdAccess, u64, u64, Seq<char>)> {
    match item {
        FrameView::Packet(data, _) => match spec_parse_command(data) {
            Ok(CommandView::ReadMemory { addr, len }) => match spec_annotate(spans, fields, addr, len as u64) {
                Some(n) => Some((SvdAccess::Read, addr, len as u64, n)),
                None => None,
            },
            Ok(CommandView::WriteMemory { addr, data: d }) => match spec_annotate(spans, fields, addr, d.len() as u64) {
                Some(n) => Some((SvdAccess::Write, addr, d.len() as u64, n)),
                None => None,
            },
            _ => None,
        },
        _ => None,
    }
}

/// View of an optional note.
pub open spec fn svd_note_view(r: Option<SvdNote>) -> Option<(SvdAccess, u64, u64, Seq<char>)> {
    match r {
        Some(n) => Some((n.access, n.addr, n.len, n.note@)),
        None => None,
    }
}

/// SVD annotation for a client memory packet (`m` / `M`).
pub fn svd_client_note(idx: &SvdIndex, item: &PacketOrAck) -> (r: Option<SvdNote>)
    ensures
        svd_note_view(r) == spec_svd_client_note(idx.view_spans(), idx.view_fields(), item@),
{
    let p = match item {
        PacketOrAck::Packet(p) => p,
        _ => return None,
    };
    let cmd = match GdbCommand::parse(p.data.as_slice()) {
        Ok(c) => c,
        Err(_) => return None,
    };
    match cmd {
        GdbCommand::ReadMemory { addr, len } => {
            let n = len as u64;
            match idx.annotate_access(addr, n) {
                Some(note) => Some(SvdNote { access: SvdAccess::Read, addr, len: n, note }),
                None => None,
            }
        },
        GdbCommand::WriteMemory { addr, data } => {
            let n = data.len() as u64;
            match idx.annotate_access(addr, n) {
                Some(note) => Some(SvdNote { access: SvdAccess::Write, addr, len: n, note }),
                None => None,
            }
        },
        _ => None,
    }
}

/// A thread-extension request seen from the client.
#[derive(Debug, Clone, PartialEq)]
pub enum RtosClientNote {
    /// `qC`.
    CurrentThread,
    /// `qfThreadInfo`.
    FirstThreadInfo,
    /// `qsThreadInfo`.
    SubsequentThreadInfo,
    /// `qThreadExtraInfo,<id>` with the id as sent.
    ThreadExtraInfo(String),
    /// `Hg` / `Hc`.
    SetThread { for_continue: bool, thread_id: u64 },
    /// `qXfer:threads…`.
    ThreadsXml,
}

/// Abstract view of a client note.
pub enum RtosClientNoteView {
    CurrentThread,
    FirstThreadInfo,
    SubsequentThreadInfo,
    ThreadExtraInfo(Seq<char>),
    SetThread { for_continue: bool, thread_id: u64 },
    ThreadsXml,
}

impl View for RtosClientNote {
    type V = RtosClientNoteView;

    open spec fn view(&self) -> RtosClientNoteView {
        match self {
            RtosClientNote::CurrentThread => RtosClientNoteView::CurrentThread,
            RtosClientNote::FirstThreadInfo => RtosClientNoteView::FirstThreadInfo,
            RtosClientNote::SubsequentThreadInfo => RtosClientNoteView::SubsequentThreadInfo,
            RtosClientNote::ThreadExtraInfo(s) => RtosClientNoteView::ThreadExtraInfo(s@),
            RtosClientNote::SetThread { for_continue, thread_id } => RtosClientNoteView::SetThread {
                for_continue: *for_continue,
                thread_id: *thread_id,
            },
            RtosClientNote::ThreadsXml => RtosClientNoteView::ThreadsXml,
        }
    }
}

/// The thread-extension note for a client item: thread queries, `H`
/// thread selection, and other queries whose text starts with
/// `Xfer:threads`; nothing for anything else or data that does not parse.
pub open spec fn spec_rtos_client_note(item: FrameView) -> Option<RtosClientNoteView> {
    match item {
        FrameView::Packet(data, _) => match spec_parse_command(data) {
            Ok(CommandView::Query(QueryView::CurrentThread)) => Some(RtosClientNoteView::CurrentThread),
            Ok(CommandView::Query(QueryView::FirstThreadInfo)) => Some(RtosClientNoteView::FirstThreadInfo),
            Ok(CommandView::Query(QueryView::SubsequentThreadInfo)) => Some(
                RtosClientNoteView::SubsequentThreadInfo,
            ),
            Ok(CommandView::Query(QueryView::ThreadExtraInfo(id))) => Some(
                RtosClientNoteView::ThreadExtraInfo(id),
            ),
            Ok(CommandView::SetThread { for_continue, thread_id }) => Some(
                RtosClientNoteView::SetThread { for_continue, thread_id },
            ),
            Ok(CommandView::Query(QueryView::Other(s))) => if has_prefix(encode_utf8(s), lit("Xfer:threads")) {
                Some(RtosClientNoteView::ThreadsXml)
            } else {
                None
            },
            _ => None,
        },
        _ => None,
    }
}

/// View of an optional client note.
pub open spec fn rtos_client_view(r: Option<RtosClientNote>) -> Option<RtosClientNoteView> {
    match r {
        Some(n) => Some(n@),
        None => None,
    }
}

/// Decode a client thread-extension request for logging.
pub fn rtos_client_note(item: &PacketOrAck) -> (r: Option<RtosClientNote>)
    ensures
        rtos_client_view(r) == spec_rtos_client_note(item@),
{
    let p = match item {
        PacketOrAck::Packet(p) => p,
        _ => return None,
    };
    let cmd = match GdbCommand::parse(p.data.as_slice()) {
        Ok(c) => c,
        Err(_) => return None,
    };
    match cmd {
        GdbCommand::Query(QueryCommand::CurrentThread) => Some(RtosClientNote::CurrentThread),
        GdbCommand::Query(QueryCommand::FirstThreadInfo) => Some(RtosClientNote::FirstThreadInfo),
        GdbCommand::Query(QueryCommand::SubsequentThreadInfo) => Some(RtosClientNote::SubsequentThreadInfo),
        GdbCommand::Query(QueryCommand::ThreadExtraInfo(id)) => Some(RtosClientNote::ThreadExtraInfo(id)),
        GdbCommand::SetThread { for_continue, thread_id } => Some(
            RtosClientNote::SetThread { for_continue, thread_id },
        ),
        GdbCommand::Query(QueryCommand::Other(s)) => {
            if starts_with(s.as_str().as_bytes(), lit_bytes("Xfer:threads")) {
                Some(RtosClientNote::ThreadsXml)
            } else {
                None
            }
        },
        _ => None,
    }
}

/// A thread-related note on a backend reply.
#[derive(Debug, Clone, PartialEq)]
pub enum RtosBackendNote {
    /// A `T` stop reply summary.
    StopReply(String),
    /// A thread list, current-thread or thread-name reply summary.
    ThreadReply(String),
}

/// The note on a backend item: a packet starting with `T` gets the stop
/// reply summary (or nothing), any other packet the thread payload summary.
pub open spec fn spec_rtos_backend_note(item: FrameView) -> Option<(bool, Seq<char>)> {
    match item {
        FrameView::Packet(data, _) => if data.len() > 0 && data[0] == 0x54 {
            match spec_stop_reply_summary(data) {
                Some(s) => Some((true, s)),
                None => None,
            }
        } else {
            match spec_thread_payload_summary(data) {
                Some(s) => Some((false, s)),
                None => None,
            }
        },
        _ => None,
    }
}

/// View of an optional backend note: whether it is a stop reply, and its text.
pub open spec fn rtos_backend_view(r: Option<RtosBackendNote>) -> Option<(bool, Seq<char>)> {
    match r {
        Some(RtosBackendNote::StopReply(s)) => Some((true, s@)),
        Some(RtosBackendNote::ThreadReply(s)) => Some((false, s@)),
        None => None,
    }
}

/// Summarize a backend reply for thread-aware logging.
pub fn rtos_backend_note(item: &PacketOrAck) -> (r: Option<RtosBackendNote>)
    ensures
        rtos_backend_view(r) == spec_rtos_backend_note(item@),
{
    let p = match item {
        PacketOrAck::Packet(p) => p,
        _ => return None,
    };
    let data = p.data.as_slice();
    if data.len() > 0 && data[0] == 0x54 {
        match summarize_stop_reply(data) {
            Some(s) => Some(RtosBackendNote::StopReply(s)),
            None => None,
        }
    } else {
        match summarize_backend_thread_payload(data) {
            Some(s) => Some(RtosBackendNote::ThreadReply(s)),
            None => None,
        }
    }
}

} // verus!
