//! Mock backend that plays recorded `backend_to_client` items and expects the
//! recorded `client_to_backend` ones.
use vstd::prelude::*;
use vstd::string::StringSliceAdditionalSpecFns;
use vstd::utf8::encode_utf8;
use crate::deps::hex_decode;
use crate::protocol::codec::{FrameView, PacketOrAck};
use crate::protocol::{rsp_checksum, Packet};
use crate::recorder::{RecordDirection, RecordEventV1, RecordKind};
use crate::replay::error::ReplayError;
use crate::recorder::jsonl::record_fields;
use crate::text::{
    append_to, bytes_equal, hex_decode_spec, hex_digit_value, hex_encode_text, is_unicode_whitespace,
    lower_hex_char, lower_hex_digit, owned, str_trim, trim_chars, trim_end_chars, trim_start_chars,
};

verus! {

/// What `String::from_utf8_lossy` gives for bytes: the text, with each
/// invalid sequence replaced by U+FFFD.
pub uninterp spec fn utf8_lossy_text(b: Seq<u8>) -> Seq<char>;

/// `String::from_utf8_lossy(b).into_owned()`.
#[verifier::external_body]
fn utf8_lossy(b: &[u8]) -> (r: String)
    ensures
        r@ == utf8_lossy_text(b@),
{
    String::from_utf8_lossy(b).into_owned()
}

/// A short description of an item for mismatch reports.
pub open spec fn item_summary_text(item: FrameView) -> Seq<char> {
    match item {
        FrameView::Ack => "+"@,
        FrameView::Nack => "-"@,
        FrameView::Packet(d, _) => "Packet("@ + utf8_lossy_text(d) + ")"@,
    }
}

/// A short description of an item: `+`, `-` or `Packet(<text>)`.
pub fn item_summary(item: &PacketOrAck) -> (r: String)
    ensures
        r@ == item_summary_text(item@),
{
    match item {
        PacketOrAck::Ack => owned("+"),
        PacketOrAck::Nack => owned("-"),
        PacketOrAck::Packet(p) => append_to(append_to(owned("Packet("), utf8_lossy(p.data.as_slice()).as_str()), ")"),
    }
}

/// The item a recorded event stands for: acks as they are, packets
/// decoded from their (trimmed) hex payload with a fresh checksum.
pub open spec fn spec_event_item(kind: RecordKind, payload_hex: Option<Seq<char>>) -> Option<Option<FrameView>> {
    match kind {
        RecordKind::Ack => Some(Some(FrameView::Ack)),
        RecordKind::Nack => Some(Some(FrameView::Nack)),
        RecordKind::Packet => match payload_hex {
            None => None,
            Some(h) => match hex_decode_spec(encode_utf8(trim_chars(h))) {
                Some(d) => Some(Some(FrameView::Packet(d, rsp_checksum(d)))),
                None => Some(None),
            },
        },
    }
}

/// Spec view of an optional string.
pub open spec fn opt_chars(o: Option<String>) -> Option<Seq<char>> {
    match o {
        Some(s) => Some(s@),
        None => None,
    }
}

/// Convert a recorded event to the wire item (same shape as the codec's).
pub fn event_to_item(ev: &RecordEventV1) -> (r: Result<PacketOrAck, ReplayError>)
    ensures
        match spec_event_item(ev.kind, opt_chars(ev.payload_hex)) {
            None => r matches Err(ReplayError::InvalidEvent(m)) && m@ == "packet missing payload_hex"@,
            Some(None) => r matches Err(ReplayError::Hex(_)),
            Some(Some(f)) => r matches Ok(item) && item@ == f,
        },
{
    match ev.kind {
        RecordKind::Ack => Ok(PacketOrAck::Ack),
        RecordKind::Nack => Ok(PacketOrAck::Nack),
        RecordKind::Packet => {
            let hex = match &ev.payload_hex {
                Some(h) => h,
                None => return Err(ReplayError::InvalidEvent(owned("packet missing payload_hex"))),
            };
            let trimmed = str_trim(hex.as_str());
            match hex_decode(trimmed.as_bytes()) {
                Ok(data) => Ok(PacketOrAck::Packet(Packet::new(data))),
                Err(e) => Err(ReplayError::Hex(e)),
            }
        },
    }
}

/// Whether two items are equal: same kind, and for packets the same data
/// and checksum.
pub fn same_item(a: &PacketOrAck, b: &PacketOrAck) -> (r: bool)
    ensures
        r == (a@ == b@),
{
    match (a, b) {
        (PacketOrAck::Ack, PacketOrAck::Ack) => true,
        (PacketOrAck::Nack, PacketOrAck::Nack) => true,
        (PacketOrAck::Packet(p), PacketOrAck::Packet(q)) => p.checksum == q.checksum && bytes_equal(
            p.data.as_slice(),
            q.data.as_slice(),
        ),
        _ => false,
    }
}

/// What the mock does for one recorded event.
#[derive(Debug, Clone)]
pub enum MockAction {
    /// Write this item to the proxy.
    Send(PacketOrAck),
    /// Read one item from the proxy and check it against this one.
    Expect(PacketOrAck),
}

/// The action for the event at `step` (counted from 1).
pub fn mock_step(ev: &RecordEventV1) -> (r: Result<MockAction, ReplayError>)
    ensures
        match spec_event_item(ev.kind, opt_chars(ev.payload_hex)) {
            None => r matches Err(ReplayError::InvalidEvent(_)),
            Some(None) => r matches Err(ReplayError::Hex(_)),
            Some(Some(f)) => match ev.direction {
                RecordDirection::BackendToClient => r matches Ok(MockAction::Send(item)) && item@ == f,
                RecordDirection::ClientToBackend => r matches Ok(MockAction::Expect(item)) && item@ == f,
            },
        },
{
    let item = event_to_item(ev)?;
    match ev.direction {
        RecordDirection::BackendToClient => Ok(MockAction::Send(item)),
        RecordDirection::ClientToBackend => Ok(MockAction::Expect(item)),
    }
}

/// Check what the proxy sent at `step` against the recorded item: the end
/// of the stream and a different item are failures.
pub fn check_received(step: usize, expected: &PacketOrAck, got: Option<PacketOrAck>) -> (r: Result<(), ReplayError>)
    ensures
        match got {
            None => r matches Err(ReplayError::UnexpectedEof { step: s }) && s == step,
            Some(g) => if g@ == expected@ {
                r is Ok
            } else {
                r matches Err(ReplayError::Mismatch { step: s, expected: e, got: x }) && s == step && e@ == item_summary_text(expected@) && x@ == item_summary_text(g@)
            },
        },
{
    match got {
        None => Err(ReplayError::UnexpectedEof { step }),
        Some(g) => {
            if same_item(&g, expected) {
                Ok(())
            } else {
                Err(ReplayError::Mismatch { step, expected: item_summary(expected), got: item_summary(&g) })
            }
        },
    }
}

/// A lower-case hexadecimal digit character.
pub open spec fn is_lower_hex_char(c: char) -> bool {
    ('0' <= c && c <= '9') || ('a' <= c && c <= 'f')
}

/// The hex text of some bytes is made of lower-case digits, two per byte.
proof fn lemma_hex_text_digits(d: Seq<u8>)
    ensures
        hex_encode_text(d).len() == 2 * d.len(),
        forall|i: int| 0 <= i < hex_encode_text(d).len() ==> is_lower_hex_char(#[trigger] hex_encode_text(d)[i]),
    decreases d.len(),
{
    if d.len() > 0 {
        lemma_hex_text_digits(d.drop_first());
        let t = hex_encode_text(d);
        let r = hex_encode_text(d.drop_first());
        assert forall|i: int| 0 <= i < t.len() implies is_lower_hex_char(#[trigger] t[i]) by {
            if i >= 2 {
                assert(t[i] == r[i - 2]);
            } else {
                let v: u8 = if i == 0 { d[0] / 16 } else { d[0] % 16 };
                assert(t[i] == lower_hex_char(v));
            }
        }
    }
}

/// Hex text of bytes, taken as UTF-8 bytes, decodes back to those bytes.
proof fn lemma_hex_text_decodes(d: Seq<u8>)
    ensures
        hex_decode_spec(encode_utf8(hex_encode_text(d))) == Some(d),
    decreases d.len(),
{
    let t = hex_encode_text(d);
    lemma_hex_text_digits(d);
    assert(vstd::utf8::is_ascii_chars(t));
    vstd::utf8::is_ascii_chars_encode_utf8(t);
    let b = encode_utf8(t);
    if d.len() > 0 {
        let r = hex_encode_text(d.drop_first());
        lemma_hex_text_decodes(d.drop_first());
        lemma_hex_text_digits(d.drop_first());
        assert(vstd::utf8::is_ascii_chars(r));
        vstd::utf8::is_ascii_chars_encode_utf8(r);
        assert(b.skip(2) =~= encode_utf8(r)) by {
            assert forall|i: int| 0 <= i < b.len() - 2 implies b.skip(2)[i] == encode_utf8(r)[i] by {
                assert(t[i + 2] == r[i]);
            }
        }
        let hi = d[0] / 16;
        let lo = d[0] % 16;
        assert(t[0] == lower_hex_char(hi) && t[1] == lower_hex_char(lo));
        assert(b[0] == lower_hex_digit(hi) && b[1] == lower_hex_digit(lo));
        assert(hex_digit_value(b[0]) == Some(hi) && hex_digit_value(b[1]) == Some(lo));
        assert((hi * 16 + lo) as u8 == d[0]);
        assert(hex_decode_spec(b) =~= Some(seq![d[0]] + d.drop_first()));
        assert(seq![d[0]] + d.drop_first() =~= d);
    } else {
        assert(b.len() == 0);
    }
}

/// Trimming leaves hex text as it is: it holds no whitespace.
proof fn lemma_hex_text_untrimmed(d: Seq<u8>)
    ensures
        trim_chars(hex_encode_text(d)) == hex_encode_text(d),
{
    let t = hex_encode_text(d);
    lemma_hex_text_digits(d);
    if t.len() > 0 {
        assert(!is_unicode_whitespace(t[0]) && !is_unicode_whitespace(t.last()));
    }
    assert(trim_start_chars(t) == t);
    assert(trim_end_chars(t) == t);
}

/// Record, then replay: the item that the event recorded for an item stands
/// for is that item again, for `+`, `-` and every packet whose checksum is
/// that of its data (the checksum is recomputed on replay, so a packet
/// carrying a wrong one comes back with the right one).
pub proof fn lemma_record_replay(item: FrameView)
    requires
        item matches FrameView::Packet(d, c) ==> c == rsp_checksum(d),
    ensures
        spec_event_item(record_fields(item).0, record_fields(item).1) == Some(Some(item)),
{
    if let FrameView::Packet(d, c) = item {
        lemma_hex_text_untrimmed(d);
        lemma_hex_text_decodes(d);
    }
}

} // verus!
