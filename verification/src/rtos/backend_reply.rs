//! Summaries of backend → GDB thread replies, for read-only logging.
use vstd::prelude::*;
use vstd::utf8::valid_utf8;
use crate::deps::hex_decode;
use crate::rtos::opt_text;
use crate::text::{
    append_to, bytes_equal, decimal_string, decimal_text, has_prefix, hex_decode_spec, hex_digit,
    hex_digit_value, lit, lit_bytes, owned, split_on, split_ranges, starts_with, str_debug,
    str_debug_text, text, utf8_check, utf8_string, COMMA,
};

verus! {

/// How many of the pieces are not empty.
pub open spec fn count_nonempty(v: Seq<Seq<u8>>) -> nat
    decreases v.len(),
{
    if v.len() == 0 {
        0
    } else {
        count_nonempty(v.drop_last()) + if v.last().len() > 0 { 1nat } else { 0nat }
    }
}

/// Every byte is an ASCII hexadecimal digit.
pub open spec fn all_hex(d: Seq<u8>) -> bool {
    forall|i: int| 0 <= i < d.len() ==> #[trigger] hex_digit_value(d[i]) is Some
}

/// What summarizing a thread-related reply yields (stop replies `T…` are
/// left to the stop-reply summary): the end of a thread list, the number of
/// ids in an `m` list, a `QC` current-thread reply, or a hex-encoded thread
/// name of at most 512 bytes of UTF-8, shown quoted.
pub open spec fn spec_thread_payload_summary(data: Seq<u8>) -> Option<Seq<char>> {
    if data.len() == 0 || data[0] == 0x54 || !valid_utf8(data) {
        None
    } else if data == lit("l") {
        Some("thread list: end (l)"@)
    } else if data[0] == 0x6d {
        let rest = data.drop_first();
        if rest.len() == 0 {
            Some("thread list: m (empty)"@)
        } else {
            Some("thread list: "@ + decimal_text(count_nonempty(split_on(rest, COMMA))) + " id(s)"@)
        }
    } else if has_prefix(data, lit("QC")) {
        Some("current thread (qC reply): "@ + text(data))
    } else if data.len() >= 2 && data.len() % 2 == 0 && all_hex(data) {
        match hex_decode_spec(data) {
            Some(b) => if valid_utf8(b) && b.len() <= 512 {
                Some("thread extra info (decoded): "@ + str_debug_text(text(b)))
            } else {
                None
            },
            None => None,
        }
    } else {
        None
    }
}

/// Whether every byte is an ASCII hexadecimal digit.
fn all_hex_digits(data: &[u8]) -> (r: bool)
    ensures
        r == all_hex(data@),
{
    let mut i: usize = 0;
    while i < data.len()
        invariant
            i <= data@.len(),
            forall|j: int| 0 <= j < i ==> #[trigger] hex_digit_value(data@[j]) is Some,
        decreases data@.len() - i,
    {
        if hex_digit(data[i]).is_none() {
            assert(hex_digit_value(data@[i as int]) is None);
            return false;
        }
        i = i + 1;
    }
    true
}

/// Summarize thread-related reply payloads (not `T` stop replies).
pub fn summarize_backend_thread_payload(data: &[u8]) -> (r: Option<String>)
    ensures
        opt_text(r) == spec_thread_payload_summary(data@),
{
    if data.len() == 0 {
        return None;
    }
    if data[0] == 0x54 {
        return None;
    }
    if !utf8_check(data) {
        return None;
    }
    if bytes_equal(data, lit_bytes("l")) {
        return Some(owned("thread list: end (l)"));
    }
    if data[0] == 0x6d {
        let rest = vstd::slice::slice_subrange(data, 1, data.len());
        assert(rest@ =~= data@.drop_first());
        if rest.len() == 0 {
            return Some(owned("thread list: m (empty)"));
        }
        let ranges = split_ranges(rest, COMMA);
        let mut n: usize = 0;
        let mut k: usize = 0;
        while k < ranges.len()
            invariant
                k <= ranges@.len(),
                n <= k,
                ranges@.len() == split_on(rest@, COMMA).len(),
                forall|j: int| 0 <= j < ranges@.len() ==> {
                    let (a, b) = #[trigger] ranges@[j];
                    &&& a <= b <= rest@.len()
                    &&& rest@.subrange(a as int, b as int) == split_on(rest@, COMMA)[j]
                },
                n == count_nonempty(split_on(rest@, COMMA).take(k as int)),
            decreases ranges@.len() - k,
        {
            let (a, b) = ranges[k];
            proof {
                let _ = ranges@[k as int];
                assert(split_on(rest@, COMMA).take(k + 1).drop_last() =~= split_on(rest@, COMMA).take(k as int));
            }
            if a < b {
                n = n + 1;
            }
            k = k + 1;
        }
        assert(split_on(rest@, COMMA).take(k as int) =~= split_on(rest@, COMMA));
        let count = decimal_string(n as u64);
        return Some(append_to(append_to(owned("thread list: "), count.as_str()), " id(s)"));
    }
    if starts_with(data, lit_bytes("QC")) {
        let s = utf8_string(data);
        return Some(append_to(owned("current thread (qC reply): "), s.as_str()));
    }
    if data.len() >= 2 && data.len() % 2 == 0 {
        if !all_hex_digits(data) {
            return None;
        }
        match hex_decode(data) {
            Ok(bytes) => {
                if utf8_check(bytes.as_slice()) {
                    let name = utf8_string(bytes.as_slice());
                    if bytes.len() <= 512 {
                        return Some(append_to(owned("thread extra info (decoded): "), str_debug(name.as_str()).as_str()));
                    }
                }
            },
            Err(_) => {},
        }
    }
    None
}

} // verus!
