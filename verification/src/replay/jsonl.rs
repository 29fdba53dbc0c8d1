//! Recordings loaded for replay: the header check.
use vstd::prelude::*;
use crate::recorder::{RecordEventV1, RecordHeaderV1, FORMAT_NAME, FORMAT_VERSION};
use crate::replay::error::ReplayError;
use crate::config::is_blank;
use crate::text::{
    append_to, decimal_string, decimal_text, lemma_valid_piece, owned, split_on, split_ranges, str_debug,
    str_debug_text, str_is, str_trim, text, utf8_string,
};
use vstd::utf8::valid_utf8;
use vstd::string::StringSliceAdditionalSpecFns;

verus! {

/// A parsed recording: header and events in file order.
#[derive(Debug, Clone)]
pub struct LoadedSession {
    pub header: RecordHeaderV1,
    pub events: Vec<RecordEventV1>,
}

/// What checking a header yields: the format name must be `rsgdb-record` and
/// the version 1, in that order.
pub open spec fn spec_check_header(format: Seq<char>, version: u32) -> Result<(), Seq<char>> {
    if format != FORMAT_NAME@ {
        Err("expected format "@ + str_debug_text(FORMAT_NAME@) + ", got "@ + str_debug_text(format))
    } else if version != FORMAT_VERSION {
        Err("expected version "@ + decimal_text(FORMAT_VERSION as nat) + ", got "@ + decimal_text(version as nat))
    } else {
        Ok(())
    }
}

/// Check the format name and version of a recording's header.
pub fn check_header(header: &RecordHeaderV1) -> (r: Result<(), ReplayError>)
    ensures
        match r {
            Ok(_) => spec_check_header(header.format@, header.version) is Ok,
            Err(e) => spec_check_header(header.format@, header.version) matches Err(m) && e matches ReplayError::InvalidHeader(x) && x@ == m,
        },
{
    if !str_is(header.format.as_str(), FORMAT_NAME) {
        let m = append_to(owned("expected format "), str_debug(FORMAT_NAME).as_str());
        let m = append_to(append_to(m, ", got "), str_debug(header.format.as_str()).as_str());
        return Err(ReplayError::InvalidHeader(m));
    }
    if header.version != FORMAT_VERSION {
        let m = append_to(owned("expected version "), decimal_string(FORMAT_VERSION as u64).as_str());
        let m = append_to(append_to(m, ", got "), decimal_string(header.version as u64).as_str());
        return Err(ReplayError::InvalidHeader(m));
    }
    Ok(())
}

/// Line feed.
pub const LF: u8 = 0x0a;
/// Carriage return.
pub const CR: u8 = 0x0d;

/// A line without the `\r` that ends it, if any.
pub open spec fn strip_cr(l: Seq<u8>) -> Seq<u8> {
    if l.len() > 0 && l.last() == CR {
        l.drop_last()
    } else {
        l
    }
}

/// How many lines a text has: the pieces between `\n`s, where a final `\n`
/// ends the last line rather than starting another.
pub open spec fn line_count(b: Seq<u8>) -> int {
    let n = split_on(b, LF).len() as int;
    if b.len() == 0 {
        0
    } else if b.last() == LF {
        n - 1
    } else {
        n
    }
}

/// The lines of a text as `str::lines` gives them: split at `\n`, a `\r`
/// right before a `\n` dropped, and no line after a final `\n`.
pub open spec fn text_lines(b: Seq<u8>) -> Seq<Seq<u8>> {
    let pieces = split_on(b, LF);
    Seq::new(
        line_count(b) as nat,
        |i: int|
            if i < pieces.len() - 1 {
                strip_cr(pieces[i])
            } else {
                pieces[i]
            },
    )
}

/// The lines that are not blank, in order.
pub open spec fn nonblank_lines(ls: Seq<Seq<u8>>) -> Seq<Seq<u8>>
    decreases ls.len(),
{
    if ls.len() == 0 {
        Seq::empty()
    } else {
        let rest = nonblank_lines(ls.drop_last());
        if is_blank(text(ls.last())) {
            rest
        } else {
            rest.push(ls.last())
        }
    }
}

/// A split of bytes has at least one piece.
proof fn lemma_split_nonempty(b: Seq<u8>, d: u8)
    ensures
        split_on(b, d).len() >= 1,
{
    crate::text::lemma_find_byte(b, d);
}

/// Line `k` of the text, given the ranges of its `\n`-separated pieces.
fn line_at(b: &[u8], ranges: &Vec<(usize, usize)>, k: usize) -> (r: String)
    requires
        valid_utf8(b@),
        0 <= k < line_count(b@),
        ranges@.len() == split_on(b@, LF).len(),
        forall|j: int| 0 <= j < ranges@.len() ==> {
            let (a, e) = #[trigger] ranges@[j];
            &&& a <= e <= b@.len()
            &&& b@.subrange(a as int, e as int) == split_on(b@, LF)[j]
            &&& (a == 0 || b@[a - 1] == LF)
            &&& (e == b@.len() || b@[e as int] == LF)
        },
    ensures
        r@ == text(text_lines(b@)[k as int]),
{
    let (a, e) = ranges[k];
    let ghost piece = split_on(b@, LF)[k as int];
    let end = if ranges.len() - k > 1 && e > a && b[e - 1] == CR {
        e - 1
    } else {
        e
    };
    proof {
        let _ = ranges@[k as int];
        lemma_valid_piece(b@, a as int, end as int);
        if end < e {
            assert(b@.subrange(a as int, end as int) =~= piece.drop_last());
        }
    }
    utf8_string(vstd::slice::slice_subrange(b, a, end))
}

/// The header line and the non-blank event lines of a recording's text.
pub fn session_lines(text: &str) -> (r: Result<(String, Vec<String>), ReplayError>)
    ensures
        ({
            let ls = text_lines(text.spec_bytes());
            match r {
                Ok((h, evs)) => ls.len() > 0 && h@ == crate::text::text(ls[0]) && evs@.map_values(
                    |s: String| s@,
                ) == nonblank_lines(ls.skip(1)).map_values(|l: Seq<u8>| crate::text::text(l)),
                Err(e) => ls.len() == 0 && (e matches ReplayError::InvalidHeader(m) && m@ == "empty file"@),
            }
        }),
{
    let b = text.as_bytes();
    proof {
        vstd::utf8::encode_utf8_valid_utf8(text@);
        lemma_split_nonempty(b@, LF);
    }
    let ranges = split_ranges(b, LF);
    let n = ranges.len();
    let kept: usize = if b.len() == 0 {
        0
    } else if b[b.len() - 1] == LF {
        n - 1
    } else {
        n
    };
    let ghost ls = text_lines(b@);
    if kept == 0 {
        return Err(ReplayError::InvalidHeader(owned("empty file")));
    }
    let header = line_at(b, &ranges, 0);
    let mut events: Vec<String> = Vec::new();
    let mut k: usize = 1;
    assert(ls.skip(1).take(0) =~= Seq::<Seq<u8>>::empty());
    while k < kept
        invariant
            1 <= k <= kept,
            kept == line_count(b@),
            ls == text_lines(b@),
            valid_utf8(b@),
            ranges@.len() == split_on(b@, LF).len(),
            forall|j: int| 0 <= j < ranges@.len() ==> {
                let (a, e) = #[trigger] ranges@[j];
                &&& a <= e <= b@.len()
                &&& b@.subrange(a as int, e as int) == split_on(b@, LF)[j]
                &&& (a == 0 || b@[a - 1] == LF)
                &&& (e == b@.len() || b@[e as int] == LF)
            },
            events@.map_values(|s: String| s@) == nonblank_lines(ls.skip(1).take(k - 1)).map_values(
                |l: Seq<u8>| crate::text::text(l),
            ),
        decreases kept - k,
    {
        let l = line_at(b, &ranges, k);
        let ghost before = events@;
        assert(ls.skip(1).take(k as int).drop_last() =~= ls.skip(1).take(k - 1));
        assert(ls.skip(1).take(k as int).last() == ls[k as int]);
        if !str_trim(l.as_str()).is_empty() {
            events.push(l);
            assert(events@.map_values(|s: String| s@) =~= before.map_values(|s: String| s@).push(l@));
        }
        k = k + 1;
    }
    assert(ls.skip(1).take(k - 1) =~= ls.skip(1));
    Ok((header, events))
}

} // verus!
