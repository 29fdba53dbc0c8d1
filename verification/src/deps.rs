//! Types of std and of outside crates that the library carries as opaque values.
use vstd::prelude::*;
use crate::text::{hex_decode_spec, hex_encode_text};

verus! {

/// `std::io::Error`, carried by error variants that report an I/O failure.
#[verifier::external_type_specification]
#[verifier::external_body]
pub struct ExIoError(std::io::Error);

/// `serde_json::Error`, carried by error variants that report a JSON failure.
#[verifier::external_type_specification]
#[verifier::external_body]
pub struct ExJsonError(serde_json::Error);

/// A point in time: seconds and nanoseconds since the Unix epoch (UTC).
#[derive(Debug, Clone, Copy, PartialEq, Eq, Structural)]
pub struct Timestamp {
    pub secs: i64,
    pub nanos: u32,
}

/// `bytes::BytesMut`, the growable byte buffer that stream codecs read from and write to.
#[verifier::external_type_specification]
#[verifier::external_body]
pub struct ExBytesMut(bytes::BytesMut);

/// The bytes that a `BytesMut` holds, in order.
pub uninterp spec fn bytes_mut_contents(b: bytes::BytesMut) -> Seq<u8>;

/// `<BytesMut as Deref>::deref`: the slice of the held bytes.
#[verifier::external_body]
pub(crate) fn bytes_mut_as_slice(b: &bytes::BytesMut) -> (r: &[u8])
    ensures
        r@ == bytes_mut_contents(*b),
{
    &b[..]
}

/// `<BytesMut as bytes::Buf>::advance`: drops the first `n` held bytes; it
/// panics when `n` exceeds the length, which `requires` rules out.
#[verifier::external_body]
pub(crate) fn bytes_mut_advance(b: &mut bytes::BytesMut, n: usize)
    requires
        n <= bytes_mut_contents(*old(b)).len(),
    ensures
        bytes_mut_contents(*final(b)) == bytes_mut_contents(*old(b)).skip(n as int),
{
    bytes::Buf::advance(b, n)
}

/// `BytesMut::clear`: removes every held byte.
#[verifier::external_body]
pub(crate) fn bytes_mut_clear(b: &mut bytes::BytesMut)
    ensures
        bytes_mut_contents(*final(b)) == Seq::<u8>::empty(),
{
    b.clear()
}

/// `BytesMut::reserve`: grows the capacity, leaving the held bytes as they
/// are. It panics when the new capacity would not fit, which the bound in
/// `requires` rules out.
#[verifier::external_body]
pub(crate) fn bytes_mut_reserve(b: &mut bytes::BytesMut, additional: usize)
    requires
        bytes_mut_contents(*old(b)).len() + additional <= isize::MAX,
    ensures
        bytes_mut_contents(*final(b)) == bytes_mut_contents(*old(b)),
{
    b.reserve(additional)
}

/// `BytesMut::extend_from_slice`: appends the bytes of `s`; it reserves room
/// first, under the same bound as `reserve`.
#[verifier::external_body]
pub(crate) fn bytes_mut_extend(b: &mut bytes::BytesMut, s: &[u8])
    requires
        bytes_mut_contents(*old(b)).len() + s@.len() <= isize::MAX,
    ensures
        bytes_mut_contents(*final(b)) == bytes_mut_contents(*old(b)) + s@,
{
    b.extend_from_slice(s)
}

/// `hex::FromHexError`, the error of a failed hexadecimal decode.
#[verifier::external_type_specification]
#[verifier::external_body]
pub struct ExFromHexError(hex::FromHexError);

/// `hex::decode`: decodes pairs of hexadecimal digits (either case) into
/// bytes; it fails exactly when the length is odd or a character is not a
/// hexadecimal digit. Which of its error variants comes back is not stated.
#[verifier::external_body]
pub(crate) fn hex_decode(s: &[u8]) -> (r: Result<Vec<u8>, hex::FromHexError>)
    ensures
        match r {
            Ok(v) => hex_decode_spec(s@) == Some(v@),
            Err(_) => hex_decode_spec(s@) is None,
        },
{
    hex::decode(s)
}

/// `hex::encode`: two lower-case hexadecimal digits per byte.
#[verifier::external_body]
pub(crate) fn hex_encode(d: &[u8]) -> (r: String)
    ensures
        r@ == hex_encode_text(d@),
{
    hex::encode(d)
}

/// `std::io::Error`'s `Display` text. It comes from the operating system's
/// error messages, so nothing is stated of it.
#[verifier::external_body]
pub(crate) fn io_error_text(e: &std::io::Error) -> String {
    e.to_string()
}

/// `serde_json::Error`'s `Display` text. The error is carried opaque, so
/// nothing is stated of it.
#[verifier::external_body]
pub(crate) fn json_error_text(e: &serde_json::Error) -> String {
    e.to_string()
}

/// `hex::FromHexError`'s `Display` text. The error is carried opaque, so
/// nothing is stated of it.
#[verifier::external_body]
pub(crate) fn hex_error_text(e: &hex::FromHexError) -> String {
    e.to_string()
}

} // verus!
