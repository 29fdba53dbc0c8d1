//! GDB Remote Serial Protocol (RSP): packet framing and checksums.
pub mod codec;
pub mod commands;

pub use codec::{GdbCodec, PacketOrAck};
pub use commands::{BreakpointType, CommandError, GdbCommand, QueryCommand};

use vstd::prelude::*;
use crate::deps::{hex_encode, io_error_text};
use crate::text::{
    append_to, hex_encode_text, owned, text_starts_with,
    find_byte, hex_digit, hex_digit_value, lemma_find_byte, lemma_find_byte_at,
    lower_hex, lower_hex_digit, opt_index, position_of, DOLLAR, HASH,
};

verus! {

/// Protocol errors.
#[derive(Debug)]
pub enum ProtocolError {
    /// The frame does not have the `$data#xx` shape.
    InvalidFormat,
    /// The checksum digits do not match the data.
    ChecksumMismatch { expected: u8, actual: u8 },
    /// The frame is shorter than a complete packet.
    IncompletePacket,
    /// A command that is not known.
    UnknownCommand(String),
    /// An I/O failure of the underlying stream.
    Io(std::io::Error),
}

/// The text of a protocol error; for an I/O failure, the start of it (the
/// operating system's message follows).
pub open spec fn protocol_error_text(e: ProtocolError) -> Seq<char> {
    match e {
        ProtocolError::InvalidFormat => "Invalid packet format"@,
        ProtocolError::ChecksumMismatch { expected, actual } => "Checksum mismatch: expected "@ + hex_encode_text(
            seq![expected],
        ) + ", got "@ + hex_encode_text(seq![actual]),
        ProtocolError::IncompletePacket => "Incomplete packet"@,
        ProtocolError::UnknownCommand(c) => "Unknown command: "@ + c@,
        ProtocolError::Io(_) => "IO error: "@,
    }
}

impl ProtocolError {
    /// The human-readable message of the error.
    pub fn message(&self) -> (r: String)
        ensures
            !(*self is Io) ==> r@ == protocol_error_text(*self),
            text_starts_with(r@, protocol_error_text(*self)),
    {
        let r = match self {
            ProtocolError::InvalidFormat => owned("Invalid packet format"),
            ProtocolError::ChecksumMismatch { expected, actual } => {
                let e: [u8; 1] = [*expected];
                let a: [u8; 1] = [*actual];
                proof {
                    assert(e@ =~= seq![*expected]);
                    assert(a@ =~= seq![*actual]);
                }
                let m = append_to(owned("Checksum mismatch: expected "), hex_encode(e.as_slice()).as_str());
                append_to(append_to(m, ", got "), hex_encode(a.as_slice()).as_str())
            },
            ProtocolError::IncompletePacket => owned("Incomplete packet"),
            ProtocolError::UnknownCommand(c) => append_to(owned("Unknown command: "), c.as_str()),
            ProtocolError::Io(e) => append_to(owned("IO error: "), io_error_text(e).as_str()),
        };
        proof {
            assert(r@.take(protocol_error_text(*self).len() as int) =~= protocol_error_text(*self));
        }
        r
    }
}

/// A GDB RSP packet.
#[derive(Debug, Clone)]
pub struct Packet {
    /// The packet data (without `$` prefix, `#` suffix, or checksum).
    pub data: Vec<u8>,
    /// The checksum.
    pub checksum: u8,
}

/// The RSP checksum: the sum of the bytes modulo 256.
pub open spec fn rsp_checksum(data: Seq<u8>) -> u8
    decreases data.len(),
{
    if data.len() == 0 {
        0
    } else {
        ((rsp_checksum(data.drop_last()) as int + data.last() as int) % 256) as u8
    }
}

/// The two checksum characters after `#`: two hexadecimal digits of either
/// case.
pub open spec fn checksum_digits(b0: u8, b1: u8) -> Option<u8> {
    match (hex_digit_value(b0), hex_digit_value(b1)) {
        (Some(h), Some(l)) => Some((h * 16 + l) as u8),
        _ => None,
    }
}

/// What parsing a buffer as one packet `$data#xx` yields: the data and the
/// checksum, or the error. Bytes after the checksum digits are ignored.
pub open spec fn spec_parse_packet(buf: Seq<u8>) -> Result<(Seq<u8>, u8), ProtocolError> {
    if buf.len() < 4 {
        Err(ProtocolError::IncompletePacket)
    } else if buf[0] != DOLLAR {
        Err(ProtocolError::InvalidFormat)
    } else {
        match find_byte(buf, HASH) {
            None => Err(ProtocolError::InvalidFormat),
            Some(h) => if h + 3 > buf.len() {
                Err(ProtocolError::IncompletePacket)
            } else {
                let data = buf.subrange(1, h);
                match checksum_digits(buf[h + 1], buf[h + 2]) {
                    None => Err(ProtocolError::InvalidFormat),
                    Some(c) => if rsp_checksum(data) != c {
                        Err(ProtocolError::ChecksumMismatch { expected: rsp_checksum(data), actual: c })
                    } else {
                        Ok((data, c))
                    },
                }
            },
        }
    }
}

/// The wire form of a packet: `$`, the data, `#` and two lower-case hex digits.
pub open spec fn frame_bytes(data: Seq<u8>, checksum: u8) -> Seq<u8> {
    seq![DOLLAR] + data + seq![HASH, lower_hex_digit(checksum / 16), lower_hex_digit(checksum % 16)]
}

/// `r` is the packet, or the error, that `s` describes.
pub open spec fn packet_result_is(r: Result<Packet, ProtocolError>, s: Result<(Seq<u8>, u8), ProtocolError>) -> bool {
    match r {
        Ok(p) => s == Ok::<(Seq<u8>, u8), ProtocolError>((p.data@, p.checksum)),
        Err(e) => s == Err::<(Seq<u8>, u8), ProtocolError>(e),
    }
}

impl Packet {
    /// Create a new packet with the given data; the checksum is computed.
    pub fn new(data: Vec<u8>) -> (p: Self)
        ensures
            p.data@ == data@,
            p.checksum == rsp_checksum(data@),
    {
        let checksum = Self::calculate_checksum(data.as_slice());
        Self { data, checksum }
    }

    /// Calculate the checksum for the given data.
    pub fn calculate_checksum(data: &[u8]) -> (c: u8)
        ensures
            c == rsp_checksum(data@),
    {
        let mut acc: u8 = 0;
        let mut i: usize = 0;
        while i < data.len()
            invariant
                i <= data.len(),
                acc == rsp_checksum(data@.take(i as int)),
            decreases data.len() - i,
        {
            assert(data@.take(i + 1).drop_last() =~= data@.take(i as int));
            let sum: u16 = acc as u16 + data[i] as u16;
            acc = (sum % 256) as u8;
            i = i + 1;
        }
        assert(data@.take(data.len() as int) =~= data@);
        acc
    }

    /// Parse a packet from a buffer of the form `$<data>#<checksum>`.
    pub fn parse(buffer: &[u8]) -> (r: Result<Self, ProtocolError>)
        ensures
            packet_result_is(r, spec_parse_packet(buffer@)),
    {
        if buffer.len() < 4 {
            return Err(ProtocolError::IncompletePacket);
        }
        if buffer[0] != DOLLAR {
            return Err(ProtocolError::InvalidFormat);
        }
        let hash_pos = match position_of(buffer, HASH) {
            Some(p) => p,
            None => return Err(ProtocolError::InvalidFormat),
        };
        if hash_pos > buffer.len() - 3 {
            return Err(ProtocolError::IncompletePacket);
        }
        proof {
            lemma_find_byte(buffer@, HASH);
        }
        let data = vstd::slice::slice_to_vec(vstd::slice::slice_subrange(buffer, 1, hash_pos));
        let b0 = buffer[hash_pos + 1];
        let b1 = buffer[hash_pos + 2];
        let checksum = match (hex_digit(b0), hex_digit(b1)) {
            (Some(h), Some(l)) => h * 16 + l,
            _ => return Err(ProtocolError::InvalidFormat),
        };
        let calculated = Self::calculate_checksum(data.as_slice());
        if calculated != checksum {
            return Err(ProtocolError::ChecksumMismatch { expected: calculated, actual: checksum });
        }
        Ok(Self { data, checksum })
    }

    /// Serialize the packet to bytes: `$`, the data, `#` and the checksum in
    /// two lower-case hex digits.
    pub fn to_bytes(&self) -> (r: Vec<u8>)
        requires
            self.data@.len() + 4 <= usize::MAX,
        ensures
            r@ == frame_bytes(self.data@, self.checksum),
    {
        let mut result: Vec<u8> = Vec::with_capacity(self.data.len() + 4);
        result.push(DOLLAR);
        let mut i: usize = 0;
        while i < self.data.len()
            invariant
                i <= self.data@.len(),
                result@ == seq![DOLLAR] + self.data@.take(i as int),
            decreases self.data@.len() - i,
        {
            result.push(self.data[i]);
            assert(self.data@.take(i + 1) =~= self.data@.take(i as int).push(self.data@[i as int]));
            i = i + 1;
        }
        assert(self.data@.take(i as int) =~= self.data@);
        result.push(HASH);
        result.push(lower_hex(self.checksum / 16));
        result.push(lower_hex(self.checksum % 16));
        assert(result@ =~= frame_bytes(self.data@, self.checksum));
        result
    }
}

/// Round trip: the wire form of a packet with a correct checksum and no `#`
/// in its data parses back to the same data and checksum; whatever follows
/// the frame is ignored.
pub proof fn lemma_parse_frame(data: Seq<u8>, rest: Seq<u8>)
    requires
        find_byte(data, HASH) is None,
    ensures
        spec_parse_packet(frame_bytes(data, rsp_checksum(data)) + rest)
            == Ok::<(Seq<u8>, u8), ProtocolError>((data, rsp_checksum(data))),
{
    let c = rsp_checksum(data);
    let buf = frame_bytes(data, c) + rest;
    let h: int = data.len() as int + 1;
    lemma_find_byte(data, HASH);
    assert forall|j: int| 0 <= j < h implies buf[j] != HASH by {
        if j > 0 {
            assert(buf[j] == data[j - 1]);
        }
    }
    assert(buf[h] == HASH);
    lemma_find_byte_at(buf, HASH, h);
    assert(buf.subrange(1, h) =~= data);
    lemma_lower_hex_digit((c / 16) as u8);
    lemma_lower_hex_digit((c % 16) as u8);
}

/// A lower-case digit decodes to its value.
pub proof fn lemma_lower_hex_digit(v: u8)
    requires
        v < 16,
    ensures
        hex_digit_value(lower_hex_digit(v)) == Some(v),
{
}

/// A successful parse always carries the checksum of its data, and the data
/// holds no `#`.
pub proof fn lemma_parse_ok_consistent(buf: Seq<u8>)
    ensures
        spec_parse_packet(buf) matches Ok((d, c)) ==> c == rsp_checksum(d) && find_byte(d, HASH) is None,
{
    lemma_find_byte(buf, HASH);
    if let Ok((d, c)) = spec_parse_packet(buf) {
        let h = find_byte(buf, HASH).unwrap();
        assert forall|j: int| 0 <= j < d.len() implies d[j] != HASH by {
            assert(d[j] == buf[j + 1]);
        }
        lemma_find_byte_at(d, HASH, d.len() as int);
    }
}

} // verus!
