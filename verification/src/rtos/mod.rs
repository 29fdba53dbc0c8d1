//! RTOS-related RSP helpers: read-only summaries of thread-extension packets
//! for logging. Thread lists come from the debug stub; nothing is rewritten.
pub mod backend_reply;

pub use backend_reply::summarize_backend_thread_payload;

use vstd::prelude::*;
use vstd::utf8::valid_utf8;
use crate::text::{
    append_to, find_byte, find_sub, find_subslice, lemma_find_byte, lemma_find_byte_append, lemma_find_sub,
    lemma_find_sub_append, lemma_lit_ascii,
    lemma_valid_piece, lit, lit_bytes, opt_index, owned, position_of, str_trim, text, trim_chars,
    utf8_check, utf8_string, SEMICOLON,
};

verus! {

/// What summarizing a stop reply yields: for UTF-8 text of at least two
/// bytes that starts with `T`, "T stop reply", with the thread id that
/// follows the first `thread:` (up to `;`, trimmed) when it is not blank.
pub open spec fn spec_stop_reply_summary(data: Seq<u8>) -> Option<Seq<char>> {
    if !valid_utf8(data) || data.len() < 2 || data[0] != 0x54 {
        None
    } else {
        match find_sub(data, lit("thread:")) {
            Some(i) => {
                let rest = data.skip(i + lit("thread:").len());
                let end = match find_byte(rest, SEMICOLON) {
                    Some(e) => e,
                    None => rest.len() as int,
                };
                let tid = trim_chars(text(rest.take(end)));
                if tid.len() > 0 {
                    Some("T stop reply, thread="@ + tid)
                } else {
                    Some("T stop reply"@)
                }
            },
            None => Some("T stop reply"@),
        }
    }
}

/// The thread id ends at the first `;` after `thread:`: once a reply has
/// that `;`, the fields that follow never change its summary.
pub proof fn lemma_stop_reply_ignores_later_fields(data: Seq<u8>, more: Seq<u8>)
    requires
        valid_utf8(data),
        valid_utf8(more),
        find_sub(data, lit("thread:")) matches Some(i) && find_byte(data.skip(i + lit("thread:").len()), SEMICOLON) is Some,
    ensures
        spec_stop_reply_summary(data + more) == spec_stop_reply_summary(data),
{
    vstd::utf8::valid_utf8_concat(data, more);
    let pat = lit("thread:");
    let i = find_sub(data, pat)->0;
    lemma_find_sub(data, pat);
    lemma_find_sub_append(data, pat, more);
    let rest = data.skip(i + pat.len());
    assert((data + more).skip(i + pat.len()) =~= rest + more);
    lemma_find_byte_append(rest, SEMICOLON, more);
    lemma_find_byte(rest, SEMICOLON);
    let e = find_byte(rest, SEMICOLON)->0;
    assert((rest + more).take(e) =~= rest.take(e));
    if data.len() >= 2 {
        assert((data + more)[0] == data[0]);
    }
}

/// Spec view of an optional string.
pub open spec fn opt_text(o: Option<String>) -> Option<Seq<char>> {
    match o {
        Some(s) => Some(s@),
        None => None,
    }
}

/// Summarize a stop reply `T…` for logging (often with `thread:…` from
/// RTOS-aware stubs).
pub fn summarize_stop_reply(data: &[u8]) -> (r: Option<String>)
    ensures
        opt_text(r) == spec_stop_reply_summary(data@),
{
    if !utf8_check(data) {
        return None;
    }
    if data.len() < 2 || data[0] != 0x54 {
        return None;
    }
    let pat = lit_bytes("thread:");
    match find_subslice(data, pat) {
        Some(idx) => {
            proof {
                lemma_find_sub(data@, pat@);
                reveal_strlit("thread:");
                lemma_lit_ascii("thread:");
                assert(data@[idx + 6] == data@.subrange(idx as int, idx + 7)[6]);
            }
            let start = idx + pat.len();
            let rest = vstd::slice::slice_subrange(data, start, data.len());
            let end = match position_of(rest, SEMICOLON) {
                Some(e) => e,
                None => rest.len(),
            };
            proof {
                lemma_find_byte(rest@, SEMICOLON);
                assert(rest@ =~= data@.skip(start as int));
                lemma_valid_piece(data@, start as int, (start + end) as int);
                assert(data@.subrange(start as int, (start + end) as int) =~= rest@.take(end as int));
            }
            let tid_bytes = vstd::slice::slice_subrange(rest, 0, end);
            assert(tid_bytes@ =~= rest@.take(end as int));
            let tid_text = utf8_string(tid_bytes);
            let tid = str_trim(tid_text.as_str());
            if !tid.is_empty() {
                Some(append_to(owned("T stop reply, thread="), tid))
            } else {
                Some(owned("T stop reply"))
            }
        },
        None => Some(owned("T stop reply")),
    }
}

} // verus!
