//! Stream codec for GDB RSP: splits a byte stream into packets, `+` and `-`.
use vstd::prelude::*;
use crate::deps::{
    bytes_mut_advance, bytes_mut_as_slice, bytes_mut_clear, bytes_mut_contents,
    bytes_mut_extend, bytes_mut_reserve,
};
use crate::protocol::{
    frame_bytes, lemma_parse_frame, rsp_checksum, spec_parse_packet, Packet, ProtocolError,
};
use crate::text::{
    find_byte, hex_digit_value, lemma_find_byte, lemma_find_byte_at, lower_hex_digit, opt_index, position_of,
    DOLLAR, HASH, MINUS, PLUS,
};
use crate::protocol::checksum_digits;

verus! {

/// Codec for encoding and decoding GDB RSP packets on a byte stream.
#[derive(Debug, Default)]
pub struct GdbCodec;

/// Either a packet or an acknowledgement.
#[derive(Debug, Clone)]
pub enum PacketOrAck {
    /// A regular GDB packet.
    Packet(Packet),
    /// Acknowledgement (`+`).
    Ack,
    /// Negative acknowledgement (`-`).
    Nack,
}

/// Abstract view of one item on the wire.
pub enum FrameView {
    Packet(Seq<u8>, u8),
    Ack,
    Nack,
}

impl View for PacketOrAck {
    type V = FrameView;

    open spec fn view(&self) -> FrameView {
        match self {
            PacketOrAck::Packet(p) => FrameView::Packet(p.data@, p.checksum),
            PacketOrAck::Ack => FrameView::Ack,
            PacketOrAck::Nack => FrameView::Nack,
        }
    }
}

/// A byte that can begin an item: `$`, `+` or `-`.
pub open spec fn is_frame_start(b: u8) -> bool {
    b == DOLLAR || b == PLUS || b == MINUS
}

/// The first position that can begin an item.
pub open spec fn find_frame_start(s: Seq<u8>) -> Option<int>
    decreases s.len(),
{
    if s.len() == 0 {
        None
    } else if is_frame_start(s[0]) {
        Some(0)
    } else {
        match find_frame_start(s.drop_first()) {
            Some(i) => Some(i + 1),
            None => None,
        }
    }
}

/// The length of the complete item at the front of `s`, if there is one:
/// 1 for `+` or `-`, up to two bytes past the first `#` for a packet.
pub open spec fn frame_end(s: Seq<u8>) -> Option<int> {
    if s.len() == 0 {
        None
    } else if s[0] == PLUS || s[0] == MINUS {
        Some(1)
    } else if s[0] != DOLLAR {
        None
    } else {
        match find_byte(s, HASH) {
            Some(h) => if h + 3 <= s.len() { Some(h + 3) } else { None },
            None => None,
        }
    }
}

/// One decoding step on a buffer: the bytes left in the buffer and the
/// outcome. Bytes before the first `$`, `+` or `-` are discarded (all of
/// them when there is none); an incomplete item is left in place; a complete
/// one is removed and turned into an item, or into the error that parsing
/// its packet gives.
pub open spec fn spec_decode(s: Seq<u8>) -> (Seq<u8>, Result<Option<FrameView>, ProtocolError>) {
    match find_frame_start(s) {
        None => (Seq::empty(), Ok(None)),
        Some(st) => {
            let t = s.skip(st);
            match frame_end(t) {
                None => (t, Ok(None)),
                Some(e) => (
                    t.skip(e),
                    if t[0] == PLUS {
                        Ok(Some(FrameView::Ack))
                    } else if t[0] == MINUS {
                        Ok(Some(FrameView::Nack))
                    } else {
                        match spec_parse_packet(t.take(e)) {
                            Ok((d, c)) => Ok(Some(FrameView::Packet(d, c))),
                            Err(x) => Err(x),
                        }
                    },
                ),
            }
        },
    }
}

/// The wire form of an item.
pub open spec fn wire_bytes(f: FrameView) -> Seq<u8> {
    match f {
        FrameView::Packet(d, c) => frame_bytes(d, c),
        FrameView::Ack => seq![PLUS],
        FrameView::Nack => seq![MINUS],
    }
}

/// A packet whose checksum is right and whose data holds no `#`; acks always are.
pub open spec fn well_formed_frame(f: FrameView) -> bool {
    match f {
        FrameView::Packet(d, c) => c == rsp_checksum(d) && find_byte(d, HASH) is None,
        _ => true,
    }
}

/// `r` is the outcome that `s` describes.
pub open spec fn decode_result_is(
    r: Result<Option<PacketOrAck>, ProtocolError>,
    s: Result<Option<FrameView>, ProtocolError>,
) -> bool {
    match r {
        Ok(Some(item)) => s == Ok::<Option<FrameView>, ProtocolError>(Some(item@)),
        Ok(None) => s == Ok::<Option<FrameView>, ProtocolError>(None),
        Err(e) => s == Err::<Option<FrameView>, ProtocolError>(e),
    }
}

/// `find_frame_start` is the first position that can begin an item.
pub proof fn lemma_find_frame_start(s: Seq<u8>)
    ensures
        find_frame_start(s) matches Some(i) ==> 0 <= i < s.len() && is_frame_start(s[i])
            && forall|j: int| 0 <= j < i ==> !is_frame_start(#[trigger] s[j]),
        find_frame_start(s) is None ==> forall|j: int| 0 <= j < s.len() ==> !is_frame_start(#[trigger] s[j]),
    decreases s.len(),
{
    if s.len() > 0 && !is_frame_start(s[0]) {
        lemma_find_frame_start(s.drop_first());
        assert forall|j: int| 1 <= j < s.len() implies s[j] == s.drop_first()[j - 1] by {}
    }
}

/// A position that can begin an item, with none before it, is what `find_frame_start` returns.
pub proof fn lemma_find_frame_start_at(s: Seq<u8>, i: int)
    requires
        0 <= i <= s.len(),
        forall|j: int| 0 <= j < i ==> !is_frame_start(#[trigger] s[j]),
        i < s.len() ==> is_frame_start(s[i]),
    ensures
        i < s.len() ==> find_frame_start(s) == Some(i),
        i == s.len() ==> find_frame_start(s) is None,
{
    lemma_find_frame_start(s);
}

impl GdbCodec {
    /// Create a new GDB codec.
    pub fn new() -> (c: Self) {
        GdbCodec
    }

    /// Find the start of an item in the buffer.
    fn find_packet_start(buf: &[u8]) -> (r: Option<usize>)
        ensures
            opt_index(r) == find_frame_start(buf@),
    {
        let mut i: usize = 0;
        while i < buf.len()
            invariant
                i <= buf.len(),
                forall|j: int| 0 <= j < i ==> !is_frame_start(#[trigger] buf@[j]),
            decreases buf.len() - i,
        {
            let b = buf[i];
            if b == DOLLAR || b == PLUS || b == MINUS {
                proof {
                    lemma_find_frame_start_at(buf@, i as int);
                }
                return Some(i);
            }
            i = i + 1;
        }
        proof {
            lemma_find_frame_start_at(buf@, i as int);
        }
        None
    }

    /// Find the end of the item that starts at `start`.
    fn find_packet_end(buf: &[u8], start: usize) -> (r: Option<usize>)
        ensures
            start <= buf@.len() ==> opt_index(r) == (match frame_end(buf@.skip(start as int)) {
                Some(e) => Some(start + e),
                None => None,
            }),
            start > buf@.len() ==> r is None,
    {
        if start >= buf.len() {
            return None;
        }
        if buf[start] == PLUS || buf[start] == MINUS {
            return Some(start + 1);
        }
        if buf[start] != DOLLAR {
            return None;
        }
        let tail = vstd::slice::slice_subrange(buf, start, buf.len());
        let hash_pos = match position_of(tail, HASH) {
            Some(p) => p,
            None => return None,
        };
        assert(tail@ =~= buf@.skip(start as int));
        proof {
            lemma_find_byte(tail@, HASH);
        }
        let hash_pos = start + hash_pos;
        if hash_pos < buf.len() && buf.len() - hash_pos >= 3 {
            Some(hash_pos + 3)
        } else {
            None
        }
    }

    /// One decoding step: consumes what `spec_decode` says from the front of
    /// `src` and returns the item, if a complete one was there.
    pub fn decode(&mut self, src: &mut bytes::BytesMut) -> (r: Result<Option<PacketOrAck>, ProtocolError>)
        requires
            bytes_mut_contents(*old(src)).len() + 1024 <= isize::MAX,
        ensures
            bytes_mut_contents(*final(src)) == spec_decode(bytes_mut_contents(*old(src))).0,
            decode_result_is(r, spec_decode(bytes_mut_contents(*old(src))).1),
    {
        let ghost s0 = bytes_mut_contents(*src);
        let start = match Self::find_packet_start(bytes_mut_as_slice(src)) {
            Some(pos) => pos,
            None => {
                bytes_mut_clear(src);
                return Ok(None);
            },
        };
        proof {
            lemma_find_frame_start(s0);
        }
        if start > 0 {
            bytes_mut_advance(src, start);
        }
        assert(bytes_mut_contents(*src) =~= s0.skip(start as int));
        let end = match Self::find_packet_end(bytes_mut_as_slice(src), 0) {
            Some(pos) => pos,
            None => {
                assert(bytes_mut_contents(*src).skip(0) =~= bytes_mut_contents(*src));
                bytes_mut_reserve(src, 1024);
                return Ok(None);
            },
        };
        assert(bytes_mut_contents(*src).skip(0) =~= bytes_mut_contents(*src));
        let ghost t = bytes_mut_contents(*src);
        proof {
            lemma_find_byte(t, HASH);
            assert(t[0] == s0[start as int]);
        }
        let packet_data = vstd::slice::slice_to_vec(
            vstd::slice::slice_subrange(bytes_mut_as_slice(src), 0, end),
        );
        assert(packet_data@ =~= t.take(end as int));
        bytes_mut_advance(src, end);
        let first = packet_data[0];
        if first == PLUS {
            Ok(Some(PacketOrAck::Ack))
        } else if first == MINUS {
            Ok(Some(PacketOrAck::Nack))
        } else if first == DOLLAR {
            match Packet::parse(packet_data.as_slice()) {
                Ok(p) => Ok(Some(PacketOrAck::Packet(p))),
                Err(e) => Err(e),
            }
        } else {
            Err(ProtocolError::InvalidFormat)
        }
    }

    /// Append the wire form of `item` to `dst`.
    pub fn encode(&mut self, item: PacketOrAck, dst: &mut bytes::BytesMut) -> (r: Result<(), ProtocolError>)
        requires
            bytes_mut_contents(*old(dst)).len() + wire_bytes(item@).len() <= isize::MAX,
        ensures
            r is Ok,
            bytes_mut_contents(*final(dst)) == bytes_mut_contents(*old(dst)) + wire_bytes(item@),
    {
        match item {
            PacketOrAck::Ack => {
                let b: [u8; 1] = [PLUS];
                bytes_mut_extend(dst, b.as_slice());
                assert(b@ =~= seq![PLUS]);
            },
            PacketOrAck::Nack => {
                let b: [u8; 1] = [MINUS];
                bytes_mut_extend(dst, b.as_slice());
                assert(b@ =~= seq![MINUS]);
            },
            PacketOrAck::Packet(packet) => {
                let bytes = packet.to_bytes();
                bytes_mut_extend(dst, bytes.as_slice());
            },
        }
        Ok(())
    }
}

/// Round trip on a stream: decoding the wire form of a well-formed item,
/// whatever follows it, yields that item and leaves exactly what followed.
pub proof fn lemma_decode_wire(f: FrameView, rest: Seq<u8>)
    requires
        well_formed_frame(f),
    ensures
        spec_decode(wire_bytes(f) + rest) == (rest, Ok::<Option<FrameView>, ProtocolError>(Some(f))),
{
    let s = wire_bytes(f) + rest;
    lemma_find_frame_start_at(s, 0);
    assert(s.skip(0) =~= s);
    match f {
        FrameView::Packet(d, c) => {
            let h: int = d.len() as int + 1;
            lemma_find_byte(d, HASH);
            assert forall|j: int| 0 <= j < h implies s[j] != HASH by {
                if j > 0 {
                    assert(s[j] == d[j - 1]);
                }
            }
            lemma_find_byte_at(s, HASH, h);
            assert(s.take(h + 3) =~= frame_bytes(d, c) + Seq::<u8>::empty());
            lemma_parse_frame(d, Seq::<u8>::empty());
            assert(s.skip(h + 3) =~= rest);
        },
        FrameView::Ack => {
            assert(s.skip(1) =~= rest);
        },
        FrameView::Nack => {
            assert(s.skip(1) =~= rest);
        },
    }
}

/// Round trip through a buffer: the bytes that encoding a new packet (whose
/// checksum is computed from data without `#`) appends to an empty buffer
/// decode to that packet and leave the buffer empty.
pub proof fn lemma_packet_round_trip(d: Seq<u8>)
    requires
        find_byte(d, HASH) is None,
    ensures
        spec_decode(Seq::<u8>::empty() + wire_bytes(FrameView::Packet(d, rsp_checksum(d)))) == (
            Seq::<u8>::empty(),
            Ok::<Option<FrameView>, ProtocolError>(Some(FrameView::Packet(d, rsp_checksum(d)))),
        ),
{
    let f = FrameView::Packet(d, rsp_checksum(d));
    lemma_decode_wire(f, Seq::empty());
    assert(Seq::<u8>::empty() + wire_bytes(f) =~= wire_bytes(f) + Seq::<u8>::empty());
}

/// Bytes before the first `$`, `+` or `-` make no difference: decoding
/// behaves as if they were not there. In particular, an item split across two
/// reads decodes the same as when it arrives whole.
pub proof fn lemma_decode_skips_noise(noise: Seq<u8>, s: Seq<u8>)
    requires
        forall|j: int| 0 <= j < noise.len() ==> !is_frame_start(#[trigger] noise[j]),
    ensures
        spec_decode(noise + s) == spec_decode(s),
{
    let all = noise + s;
    lemma_find_frame_start(s);
    match find_frame_start(s) {
        Some(i) => {
            assert forall|j: int| 0 <= j < noise.len() + i implies !is_frame_start(#[trigger] all[j]) by {
                if j >= noise.len() {
                    assert(all[j] == s[j - noise.len()]);
                }
            }
            assert(all[noise.len() + i] == s[i]);
            lemma_find_frame_start_at(all, noise.len() + i);
            assert(all.skip(noise.len() + i) =~= s.skip(i));
        },
        None => {
            assert forall|j: int| 0 <= j < all.len() implies !is_frame_start(#[trigger] all[j]) by {
                if j >= noise.len() {
                    assert(all[j] == s[j - noise.len()]);
                }
            }
            lemma_find_frame_start_at(all, all.len() as int);
        },
    }
}

/// Streaming: when a step finds no complete item, feeding more bytes and
/// stepping again gives the same result as stepping on everything at once.
pub proof fn lemma_decode_resume(s: Seq<u8>, more: Seq<u8>)
    requires
        spec_decode(s).1 == Ok::<Option<FrameView>, ProtocolError>(None),
    ensures
        spec_decode(s + more) == spec_decode(spec_decode(s).0 + more),
{
    lemma_find_frame_start(s);
    match find_frame_start(s) {
        Some(st) => {
            let noise = s.take(st);
            assert(s + more =~= noise + (s.skip(st) + more));
            lemma_decode_skips_noise(noise, s.skip(st) + more);
        },
        None => {
            assert(s + more =~= s + (Seq::<u8>::empty() + more));
            assert(Seq::<u8>::empty() + more =~= more);
            lemma_decode_skips_noise(s, more);
        },
    }
}

/// A decoding step never adds bytes: what is left is a suffix of the input.
pub proof fn lemma_decode_leaves_suffix(s: Seq<u8>)
    ensures
        exists|k: int| 0 <= k <= s.len() && #[trigger] s.skip(k) == spec_decode(s).0,
{
    lemma_find_frame_start(s);
    match find_frame_start(s) {
        None => {
            assert(s.skip(s.len() as int) =~= Seq::<u8>::empty());
        },
        Some(st) => {
            let t = s.skip(st);
            lemma_find_byte(t, HASH);
            match frame_end(t) {
                None => {},
                Some(e) => {
                    assert(t.skip(e) =~= s.skip(st + e));
                },
            }
        },
    }
}

/// The bytes of the item that a decoding step takes, without the bytes
/// discarded before it (empty when no complete item is there).
pub open spec fn consumed_frame(s: Seq<u8>) -> Seq<u8> {
    match find_frame_start(s) {
        None => Seq::empty(),
        Some(st) => match frame_end(s.skip(st)) {
            None => Seq::empty(),
            Some(e) => s.skip(st).take(e),
        },
    }
}

/// A lower-case hexadecimal digit byte.
pub open spec fn is_lower_hex_byte(b: u8) -> bool {
    (0x30 <= b <= 0x39) || (0x61 <= b <= 0x66)
}

/// A packet frame whose two checksum characters are lower-case hex digits,
/// the form in which packets are encoded; `+` and `-` always are.
pub open spec fn canonical_frame(f: Seq<u8>) -> bool {
    f.len() >= 3 && f[0] == DOLLAR ==> is_lower_hex_byte(f[f.len() - 2]) && is_lower_hex_byte(f[f.len() - 1])
}

/// Transparency: when a decoding step yields an item, the input is bytes
/// that cannot begin an item, then the wire form of that item, then what the
/// step leaves, so re-encoding the item gives back exactly the bytes it came
/// from. It needs the checksum in the form that encoding writes (lower-case
/// hex); `$OK#9A` decodes, but re-encodes as `$OK#9a`.
pub proof fn lemma_decode_then_encode(s: Seq<u8>)
    requires
        canonical_frame(consumed_frame(s)),
    ensures
        spec_decode(s).1 matches Ok(Some(f)) ==> exists|k: int|
            0 <= k <= s.len() && (forall|j: int| 0 <= j < k ==> !is_frame_start(#[trigger] s[j])) && s
                == s.take(k) + wire_bytes(f) + spec_decode(s).0,
{
    lemma_find_frame_start(s);
    if let Ok(Some(f)) = spec_decode(s).1 {
        let st = find_frame_start(s).unwrap();
        let t = s.skip(st);
        let e = frame_end(t).unwrap();
        let fr = t.take(e);
        lemma_find_byte(t, HASH);
        assert(0 <= st <= s.len() && 0 < e <= t.len());
        assert(s =~= s.take(st) + fr + t.skip(e));
        if t[0] == PLUS {
            assert(fr =~= wire_bytes(f));
        } else if t[0] == MINUS {
            assert(fr =~= wire_bytes(f));
        } else {
            let h = find_byte(t, HASH).unwrap();
            assert(forall|j: int| 0 <= j < h ==> fr[j] == t[j]);
            lemma_find_byte_at(fr, HASH, h);
            let b0 = fr[h + 1];
            let b1 = fr[h + 2];
            let hv = hex_digit_value(b0).unwrap();
            let lv = hex_digit_value(b1).unwrap();
            let c = checksum_digits(b0, b1).unwrap();
            assert(c == hv * 16 + lv);
            assert(c / 16 == hv && c % 16 == lv) by (nonlinear_arith)
                requires
                    c == hv * 16 + lv,
                    hv < 16,
                    lv < 16,
            ;
            assert(lower_hex_digit(hv) == b0);
            assert(lower_hex_digit(lv) == b1);
            assert(fr =~= wire_bytes(f));
        }
    }
}

} // verus!
