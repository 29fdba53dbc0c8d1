//! Byte and text helpers shared by the protocol, configuration and logging code.
use vstd::prelude::*;
use vstd::string::StringSliceAdditionalSpecFns;
use vstd::std_specs::iter::IteratorSpec;
use vstd::utf8::{
    decode_utf8, encode_utf8, is_char_boundary, is_continuation_byte, pop_first_scalar, valid_utf8,
    valid_first_scalar, length_of_first_scalar,
};

verus! {

/// `$`: start of a packet.
pub const DOLLAR: u8 = 0x24;
/// `#`: end of packet data.
pub const HASH: u8 = 0x23;
/// `+`: acknowledgement, or a sign.
pub const PLUS: u8 = 0x2b;
/// `-`: negative acknowledgement.
pub const MINUS: u8 = 0x2d;
/// `,`
pub const COMMA: u8 = 0x2c;
/// `:`
pub const COLON: u8 = 0x3a;
/// `;`
pub const SEMICOLON: u8 = 0x3b;

/// Value of an ASCII hexadecimal digit of either case.
pub open spec fn hex_digit_value(b: u8) -> Option<u8> {
    if 0x30 <= b <= 0x39 {
        Some((b - 0x30) as u8)
    } else if 0x61 <= b <= 0x66 {
        Some((b - 0x61 + 10) as u8)
    } else if 0x41 <= b <= 0x46 {
        Some((b - 0x41 + 10) as u8)
    } else {
        None
    }
}

/// The lower-case hexadecimal digit for a value below 16.
pub open spec fn lower_hex_digit(v: u8) -> u8 {
    if v < 10 {
        (0x30 + v) as u8
    } else {
        (0x61 + v - 10) as u8
    }
}

/// Decode one hexadecimal digit.
pub fn hex_digit(b: u8) -> (r: Option<u8>)
    ensures
        r == hex_digit_value(b),
{
    if 0x30 <= b && b <= 0x39 {
        Some(b - 0x30)
    } else if 0x61 <= b && b <= 0x66 {
        Some(b - 0x61 + 10)
    } else if 0x41 <= b && b <= 0x46 {
        Some(b - 0x41 + 10)
    } else {
        None
    }
}

/// Encode a value below 16 as a lower-case hexadecimal digit.
pub fn lower_hex(v: u8) -> (r: u8)
    requires
        v < 16,
    ensures
        r == lower_hex_digit(v),
        hex_digit_value(r) == Some(v),
{
    if v < 10 {
        0x30 + v
    } else {
        0x61 + v - 10
    }
}

/// The index of the first occurrence of `b` in `s`.
pub open spec fn find_byte(s: Seq<u8>, b: u8) -> Option<int>
    decreases s.len(),
{
    if s.len() == 0 {
        None
    } else if s[0] == b {
        Some(0)
    } else {
        match find_byte(s.drop_first(), b) {
            Some(i) => Some(i + 1),
            None => None,
        }
    }
}

/// `find_byte` is the first position holding `b`, or `None` when no position does.
pub proof fn lemma_find_byte(s: Seq<u8>, b: u8)
    ensures
        find_byte(s, b) matches Some(i) ==> 0 <= i < s.len() && s[i] == b && forall|j: int|
            0 <= j < i ==> s[j] != b,
        find_byte(s, b) is None ==> forall|j: int| 0 <= j < s.len() ==> s[j] != b,
    decreases s.len(),
{
    if s.len() > 0 && s[0] != b {
        lemma_find_byte(s.drop_first(), b);
        assert forall|j: int| 1 <= j < s.len() implies s[j] == s.drop_first()[j - 1] by {}
    }
}

/// A position that holds `b`, with no earlier `b`, is what `find_byte` returns.
pub proof fn lemma_find_byte_at(s: Seq<u8>, b: u8, i: int)
    requires
        0 <= i <= s.len(),
        forall|j: int| 0 <= j < i ==> s[j] != b,
        i < s.len() ==> s[i] == b,
    ensures
        i < s.len() ==> find_byte(s, b) == Some(i),
        i == s.len() ==> find_byte(s, b) is None,
{
    lemma_find_byte(s, b);
}

/// Spec view of an optional index.
pub open spec fn opt_index(o: Option<usize>) -> Option<int> {
    match o {
        Some(i) => Some(i as int),
        None => None,
    }
}

/// The first position of `b` in `s`.
pub fn position_of(s: &[u8], b: u8) -> (r: Option<usize>)
    ensures
        opt_index(r) == find_byte(s@, b),
{
    let mut i: usize = 0;
    while i < s.len()
        invariant
            i <= s.len(),
            forall|j: int| 0 <= j < i ==> s@[j] != b,
        decreases s.len() - i,
    {
        if s[i] == b {
            proof {
                lemma_find_byte_at(s@, b, i as int);
            }
            return Some(i);
        }
        i = i + 1;
    }
    proof {
        lemma_find_byte_at(s@, b, i as int);
    }
    None
}


/// The text that valid UTF-8 bytes encode.
pub open spec fn text(b: Seq<u8>) -> Seq<char> {
    decode_utf8(b)
}

/// `s` begins with `p`.
pub open spec fn has_prefix(s: Seq<u8>, p: Seq<u8>) -> bool {
    p.len() <= s.len() && s.take(p.len() as int) == p
}

/// The bytes of a string literal (its UTF-8 encoding).
pub open spec fn lit(s: &str) -> Seq<u8> {
    encode_utf8(s@)
}

/// An ASCII byte.
pub open spec fn is_ascii_byte(b: u8) -> bool {
    b < 0x80
}

/// Dropping an ASCII first byte of valid UTF-8 leaves valid UTF-8.
pub proof fn lemma_valid_drop_ascii(s: Seq<u8>)
    requires
        valid_utf8(s),
        s.len() > 0,
        is_ascii_byte(s[0]),
    ensures
        valid_utf8(s.drop_first()),
{
    assert(pop_first_scalar(s) =~= s.drop_first());
}

/// What follows a valid UTF-8 prefix of valid UTF-8 is valid UTF-8.
pub proof fn lemma_valid_after_prefix(p: Seq<u8>, r: Seq<u8>)
    requires
        valid_utf8(p),
        valid_utf8(p + r),
    ensures
        valid_utf8(r),
    decreases p.len(),
{
    if p.len() == 0 {
        assert(p + r =~= r);
    } else {
        let k = length_of_first_scalar(p);
        assert(valid_first_scalar(p));
        assert((p + r).take(4) =~= p.take(4) || p.len() < 4);
        assert(length_of_first_scalar(p + r) == k);
        assert(pop_first_scalar(p + r) =~= pop_first_scalar(p) + r);
        assert(pop_first_scalar(p).len() < p.len());
        lemma_valid_after_prefix(pop_first_scalar(p), r);
    }
}

/// A stretch of valid UTF-8 that begins at the start or right after an ASCII
/// byte, and ends at the end or right before an ASCII byte, is valid UTF-8.
pub proof fn lemma_valid_piece(s: Seq<u8>, a: int, b: int)
    requires
        valid_utf8(s),
        0 <= a <= b <= s.len(),
        a == 0 || is_ascii_byte(s[a - 1]),
        b == s.len() || is_ascii_byte(s[b]),
    ensures
        valid_utf8(s.subrange(a, b)),
{
    let u = s.subrange(a, s.len() as int);
    assert(valid_utf8(u)) by {
        if a == 0 {
            assert(u =~= s);
        } else {
            vstd::utf8::is_char_boundary_iff_not_is_continuation_byte(s, a - 1);
            vstd::utf8::valid_utf8_split(s, a - 1);
            let t = s.subrange(a - 1, s.len() as int);
            lemma_valid_drop_ascii(t);
            assert(t.drop_first() =~= u);
        }
    }
    if b == s.len() {
        assert(u =~= s.subrange(a, b));
    } else {
        vstd::utf8::is_char_boundary_iff_not_is_continuation_byte(u, b - a);
        vstd::utf8::valid_utf8_split(u, b - a);
        assert(u.subrange(0, b - a) =~= s.subrange(a, b));
    }
}

/// The first character boundary at or after `from` (the end counts as one).
pub open spec fn first_boundary_from(b: Seq<u8>, from: int) -> int
    decreases b.len() - from,
{
    if from >= b.len() || is_char_boundary(b, from) {
        from
    } else {
        first_boundary_from(b, from + 1)
    }
}

/// The first boundary at or after `from` lies between `from` and the end.
pub proof fn lemma_first_boundary_bounds(b: Seq<u8>, from: int)
    requires
        0 <= from <= b.len(),
    ensures
        from <= first_boundary_from(b, from) <= b.len(),
    decreases b.len() - from,
{
    if from < b.len() && !is_char_boundary(b, from) {
        lemma_first_boundary_bounds(b, from + 1);
    }
}

/// `std::str::from_utf8(b).is_ok()`: whether the bytes are valid UTF-8.
#[verifier::external_body]
pub(crate) fn utf8_check(b: &[u8]) -> (r: bool)
    ensures
        r == valid_utf8(b@),
{
    std::str::from_utf8(b).is_ok()
}

/// `String::from_utf8`: the string that valid UTF-8 bytes encode.
#[verifier::external_body]
pub(crate) fn utf8_string(b: &[u8]) -> (s: String)
    requires
        valid_utf8(b@),
    ensures
        s@ == decode_utf8(b@),
{
    String::from_utf8(b.to_vec()).unwrap_or_default()
}

/// What `format!("{:?}", c)` writes for a character: the quoted, escaped character.
pub uninterp spec fn char_debug_text(c: char) -> Seq<char>;

/// `format!("{:?}", c)` for a character.
#[verifier::external_body]
pub(crate) fn char_debug(c: char) -> (s: String)
    ensures
        s@ == char_debug_text(c),
{
    format!("{c:?}")
}

/// The decimal digit character for a value below 10.
pub open spec fn digit_char(d: nat) -> char {
    (d + 48) as char
}

/// The decimal notation of a number, without sign or leading zeros.
pub open spec fn decimal_text(n: nat) -> Seq<char>
    decreases n,
{
    if n < 10 {
        seq![digit_char(n)]
    } else {
        decimal_text(n / 10) + seq![digit_char(n % 10)]
    }
}

/// The decimal digit of a value below 10, as text.
fn digit_str(d: u64) -> (r: &'static str)
    requires
        d < 10,
    ensures
        r@ == seq![digit_char(d as nat)],
{
    match d {
        0 => {
            proof {
                reveal_strlit("0");
            }
            "0"
        },
        1 => {
            proof {
                reveal_strlit("1");
            }
            "1"
        },
        2 => {
            proof {
                reveal_strlit("2");
            }
            "2"
        },
        3 => {
            proof {
                reveal_strlit("3");
            }
            "3"
        },
        4 => {
            proof {
                reveal_strlit("4");
            }
            "4"
        },
        5 => {
            proof {
                reveal_strlit("5");
            }
            "5"
        },
        6 => {
            proof {
                reveal_strlit("6");
            }
            "6"
        },
        7 => {
            proof {
                reveal_strlit("7");
            }
            "7"
        },
        8 => {
            proof {
                reveal_strlit("8");
            }
            "8"
        },
        _ => {
            proof {
                reveal_strlit("9");
            }
            "9"
        },
    }
}

/// The decimal notation of the number (what `u64::to_string` gives).
pub(crate) fn decimal_string(n: u64) -> (s: String)
    ensures
        s@ == decimal_text(n as nat),
    decreases n,
{
    if n < 10 {
        owned(digit_str(n))
    } else {
        let head = decimal_string(n / 10);
        append_to(head, digit_str(n % 10))
    }
}

/// A string that holds a literal.
pub fn owned(s: &str) -> (r: String)
    ensures
        r@ == s@,
{
    s.to_owned()
}

/// `s` begins with the text `p`.
pub open spec fn text_starts_with(s: Seq<char>, p: Seq<char>) -> bool {
    p.len() <= s.len() && s.take(p.len() as int) == p
}

/// Concatenation of two strings.
pub fn concat_str(a: &str, b: &str) -> (r: String)
    ensures
        r@ == a@ + b@,
{
    let mut r = a.to_owned();
    vstd::string::StringExecFns::append(&mut r, b);
    r
}

/// Whether `s` begins with `p`.
pub fn starts_with(s: &[u8], p: &[u8]) -> (r: bool)
    ensures
        r == has_prefix(s@, p@),
{
    if p.len() > s.len() {
        return false;
    }
    let mut i: usize = 0;
    while i < p.len()
        invariant
            i <= p.len() <= s.len(),
            forall|j: int| 0 <= j < i ==> s@[j] == p@[j],
        decreases p.len() - i,
    {
        if s[i] != p[i] {
            assert(s@.take(p.len() as int)[i as int] != p@[i as int]);
            return false;
        }
        i = i + 1;
    }
    assert(s@.take(p.len() as int) =~= p@);
    true
}

/// Whether two byte strings are equal.
pub fn bytes_equal(a: &[u8], b: &[u8]) -> (r: bool)
    ensures
        r == (a@ == b@),
{
    if a.len() != b.len() {
        return false;
    }
    let r = starts_with(a, b);
    proof {
        assert(a@.take(b@.len() as int) =~= a@);
    }
    r
}

/// The bytes of a string literal.
pub fn lit_bytes(s: &str) -> (r: &[u8])
    ensures
        r@ == lit(s),
{
    s.as_bytes()
}

/// Splitting on a delimiter byte: the pieces between delimiters, in order;
/// `n` delimiters give `n + 1` pieces.
pub open spec fn split_on(s: Seq<u8>, d: u8) -> Seq<Seq<u8>>
    decreases s.len(),
{
    match find_byte(s, d) {
        None => seq![s],
        Some(i) => {
            proof {
                lemma_find_byte(s, d);
            }
            seq![s.take(i)] + split_on(s.skip(i + 1), d)
        },
    }
}

/// The ranges of the pieces that splitting `s` on `d` gives: each piece
/// starts at the start or after a `d`, and ends at the end or before a `d`.
pub fn split_ranges(s: &[u8], d: u8) -> (r: Vec<(usize, usize)>)
    ensures
        r@.len() == split_on(s@, d).len(),
        forall|k: int| 0 <= k < r@.len() ==> {
            let (a, b) = #[trigger] r@[k];
            &&& a <= b <= s@.len()
            &&& s@.subrange(a as int, b as int) == split_on(s@, d)[k]
            &&& (a == 0 || s@[a - 1] == d)
            &&& (b == s@.len() || s@[b as int] == d)
        },
{
    let mut r: Vec<(usize, usize)> = Vec::new();
    let ghost mut done: Seq<Seq<u8>> = Seq::empty();
    let mut start: usize = 0;
    let mut i: usize = 0;
    assert(s@.skip(0) =~= s@);
    while i < s.len()
        invariant
            start <= i <= s.len(),
            start == 0 || s@[start - 1] == d,
            forall|j: int| start <= j < i ==> s@[j] != d,
            done.len() == r@.len(),
            done + split_on(s@.skip(start as int), d) == split_on(s@, d),
            forall|k: int| 0 <= k < r@.len() ==> {
                let (a, b) = #[trigger] r@[k];
                &&& a <= b < start
                &&& s@.subrange(a as int, b as int) == done[k]
                &&& (a == 0 || s@[a - 1] == d)
                &&& s@[b as int] == d
            },
        decreases s.len() - i,
    {
        if s[i] == d {
            let ghost t = s@.skip(start as int);
            proof {
                lemma_find_byte_at(t, d, i - start);
                assert(t.take(i - start) =~= s@.subrange(start as int, i as int));
                assert(t.skip(i - start + 1) =~= s@.skip(i + 1));
                assert(split_on(t, d) == seq![t.take(i - start)] + split_on(t.skip(i - start + 1), d));
                assert(done.push(t.take(i - start)) + split_on(s@.skip(i + 1), d) =~= done + split_on(t, d));
                done = done.push(t.take(i - start));
            }
            r.push((start, i));
            start = i + 1;
        }
        i = i + 1;
    }
    let ghost t = s@.skip(start as int);
    proof {
        lemma_find_byte_at(t, d, t.len() as int);
        assert(t =~= s@.subrange(start as int, s@.len() as int));
        assert(done.push(t) =~= done + split_on(t, d));
        done = done.push(t);
    }
    r.push((start, s.len()));
    r
}

/// The value of a digit in the given radix (at most 16), if it is one.
pub open spec fn digit_value(b: u8, radix: nat) -> Option<nat> {
    match hex_digit_value(b) {
        Some(v) => if (v as nat) < radix { Some(v as nat) } else { None },
        None => None,
    }
}

/// The value of a string of digits, most significant first; `None` when a
/// byte is not a digit.
pub open spec fn digits_value(s: Seq<u8>, radix: nat) -> Option<nat>
    decreases s.len(),
{
    if s.len() == 0 {
        Some(0)
    } else {
        match (digits_value(s.drop_last(), radix), digit_value(s.last(), radix)) {
            (Some(v), Some(d)) => Some(v * radix + d),
            _ => None,
        }
    }
}

/// What parsing an unsigned number in the given radix yields: an optional
/// `+`, then at least one digit, with a value that does not exceed `max`.
pub open spec fn parse_unsigned_spec(s: Seq<u8>, radix: nat, max: nat) -> Option<nat> {
    let digits = if s.len() > 0 && s[0] == PLUS { s.drop_first() } else { s };
    if digits.len() == 0 {
        None
    } else {
        match digits_value(digits, radix) {
            Some(v) => if v <= max { Some(v) } else { None },
            None => None,
        }
    }
}

/// Spec view of an optional machine number.
pub open spec fn opt_nat(o: Option<u64>) -> Option<nat> {
    match o {
        Some(v) => Some(v as nat),
        None => None,
    }
}

/// A valid number's prefixes are valid too, and never larger.
pub proof fn lemma_digits_prefix(s: Seq<u8>, radix: nat, i: int)
    requires
        0 <= i <= s.len(),
        radix >= 1,
    ensures
        digits_value(s, radix) matches Some(v) ==> (digits_value(s.take(i), radix) matches Some(w) && w <= v),
    decreases s.len(),
{
    if i < s.len() {
        assert(s.drop_last().take(i) =~= s.take(i));
        lemma_digits_prefix(s.drop_last(), radix, i);
        if let Some(v) = digits_value(s, radix) {
            let v0 = digits_value(s.drop_last(), radix).unwrap();
            assert(v0 <= v0 * radix) by (nonlinear_arith)
                requires radix >= 1;
        }
    } else {
        assert(s.take(i) =~= s);
    }
}

/// Parse an unsigned number: an optional `+` and digits in the radix (10 or
/// 16), rejecting values above `max`.
pub fn parse_unsigned(s: &[u8], radix: u8, max: u64) -> (r: Option<u64>)
    requires
        radix == 10 || radix == 16,
    ensures
        opt_nat(r) == parse_unsigned_spec(s@, radix as nat, max as nat),
{
    let start: usize = if s.len() > 0 && s[0] == PLUS { 1 } else { 0 };
    let ghost digits = if s@.len() > 0 && s@[0] == PLUS { s@.drop_first() } else { s@ };
    assert(digits =~= s@.skip(start as int));
    if start == s.len() {
        return None;
    }
    let mut acc: u64 = 0;
    let mut i: usize = start;
    assert(digits.take(0) =~= Seq::<u8>::empty());
    while i < s.len()
        invariant
            start <= i <= s.len(),
            digits =~= s@.skip(start as int),
            digits == (if s@.len() > 0 && s@[0] == PLUS { s@.drop_first() } else { s@ }),
            radix == 10 || radix == 16,
            digits_value(digits.take(i - start), radix as nat) == Some(acc as nat),
            acc <= max,
        decreases s.len() - i,
    {
        let ghost k: int = i - start;
        assert(digits.take(k + 1).drop_last() =~= digits.take(k));
        assert(digits.take(k + 1).last() == s@[i as int]);
        let hd = hex_digit(s[i]);
        if hd.is_none() || hd.unwrap() >= radix {
            proof {
                assert(digit_value(s@[i as int], radix as nat) is None);
                assert(digits_value(digits.take(k + 1), radix as nat) is None);
                lemma_digits_prefix(digits, radix as nat, k + 1);
                assert(digits_value(digits, radix as nat) is None);
                assert(digits == (if s@.len() > 0 && s@[0] == PLUS { s@.drop_first() } else { s@ }));
            }
            return None;
        }
        let d = hd.unwrap();
        let next = match acc.checked_mul(radix as u64) {
            Some(m) => m.checked_add(d as u64),
            None => None,
        };
        match next {
            Some(n) => {
                if n > max {
                    proof {
                        assert(digit_value(s@[i as int], radix as nat) == Some(d as nat));
                        assert(digits_value(digits.take(k + 1), radix as nat) == Some(n as nat));
                        lemma_digits_prefix(digits, radix as nat, k + 1);
                        assert(digits == (if s@.len() > 0 && s@[0] == PLUS { s@.drop_first() } else { s@ }));
                    }
                    return None;
                }
                acc = n;
            },
            None => {
                proof {
                    lemma_digits_prefix(digits, radix as nat, k + 1);
                    assert(acc as nat * radix as nat + d as nat > u64::MAX);
                }
                return None;
            },
        }
        i = i + 1;
    }
    assert(digits.take(i - start) =~= digits);
    Some(acc)
}

/// Hexadecimal decoding: each pair of digits (either case) is one byte;
/// `None` for an odd length or a byte that is not a digit.
pub open spec fn hex_decode_spec(s: Seq<u8>) -> Option<Seq<u8>>
    decreases s.len(),
{
    if s.len() == 0 {
        Some(Seq::empty())
    } else if s.len() == 1 {
        None
    } else {
        match (hex_digit_value(s[0]), hex_digit_value(s[1]), hex_decode_spec(s.skip(2))) {
            (Some(h), Some(l), Some(rest)) => Some(seq![(h * 16 + l) as u8] + rest),
            _ => None,
        }
    }
}

/// The lower-case hexadecimal digit character for a value below 16.
pub open spec fn lower_hex_char(v: u8) -> char {
    lower_hex_digit(v) as char
}

/// Hexadecimal encoding: two lower-case digits per byte.
pub open spec fn hex_encode_text(d: Seq<u8>) -> Seq<char>
    decreases d.len(),
{
    if d.len() == 0 {
        Seq::empty()
    } else {
        seq![lower_hex_char(d[0] / 16), lower_hex_char(d[0] % 16)] + hex_encode_text(d.drop_first())
    }
}

/// A character with the Unicode `White_Space` property (what `char::is_whitespace` accepts).
pub open spec fn is_unicode_whitespace(c: char) -> bool {
    ||| ('\u{9}' <= c && c <= '\u{d}')
    ||| c == ' '
    ||| c == '\u{85}'
    ||| c == '\u{a0}'
    ||| c == '\u{1680}'
    ||| ('\u{2000}' <= c && c <= '\u{200a}')
    ||| c == '\u{2028}'
    ||| c == '\u{2029}'
    ||| c == '\u{202f}'
    ||| c == '\u{205f}'
    ||| c == '\u{3000}'
}

/// The text without its leading whitespace.
pub open spec fn trim_start_chars(s: Seq<char>) -> Seq<char>
    decreases s.len(),
{
    if s.len() > 0 && is_unicode_whitespace(s[0]) {
        trim_start_chars(s.drop_first())
    } else {
        s
    }
}

/// The text without its trailing whitespace.
pub open spec fn trim_end_chars(s: Seq<char>) -> Seq<char>
    decreases s.len(),
{
    if s.len() > 0 && is_unicode_whitespace(s.last()) {
        trim_end_chars(s.drop_last())
    } else {
        s
    }
}

/// The text without leading and trailing whitespace.
pub open spec fn trim_chars(s: Seq<char>) -> Seq<char> {
    trim_end_chars(trim_start_chars(s))
}

/// `str::trim`: the slice without leading and trailing Unicode whitespace.
#[verifier::external_body]
pub(crate) fn str_trim(s: &str) -> (r: &str)
    ensures
        r@ == trim_chars(s@),
        r.spec_bytes().len() <= usize::MAX,
{
    s.trim()
}

/// `str::trim_end`: the slice without trailing Unicode whitespace.
#[verifier::external_body]
pub(crate) fn str_trim_end(s: &str) -> (r: &str)
    ensures
        r@ == trim_end_chars(s@),
{
    s.trim_end()
}

/// `p` occurs in `s` as a contiguous stretch.
pub open spec fn contains_chars(s: Seq<char>, p: Seq<char>) -> bool {
    exists|i: int| 0 <= i && i + p.len() <= s.len() && #[trigger] s.subrange(i, i + p.len()) == p
}

/// The characters of a string, in order.
pub(crate) fn chars_of(s: &str) -> (v: Vec<char>)
    ensures
        v@ == s@,
{
    broadcast use vstd::string::group_string_axioms;

    let mut it = s.chars();
    let mut v: Vec<char> = Vec::new();
    loop
        invariant
            v@ + it.remaining() == s@,
            it.decrease() is Some,
        ensures
            v@ == s@,
        decreases it.decrease()->0,
    {
        let ghost before = it.remaining();
        match it.next() {
            Some(c) => {
                v.push(c);
                assert(before =~= seq![c] + it.remaining());
                assert(v@ + it.remaining() =~= s@);
            },
            None => {
                assert(v@ + before =~= v@);
                break;
            },
        }
    }
    v
}

/// Whether `p` occurs in `t` at position `i`.
fn occurs_at(t: &Vec<char>, p: &Vec<char>, i: usize) -> (r: bool)
    requires
        i + p@.len() <= t@.len(),
    ensures
        r == (t@.subrange(i as int, i + p@.len()) == p@),
{
    let n = t.len();
    let mut k: usize = 0;
    while k < p.len()
        invariant
            n == t@.len(),
            i + p@.len() <= t@.len(),
            k <= p@.len(),
            forall|m: int| 0 <= m < k ==> t@[i + m] == p@[m],
        decreases p@.len() - k,
    {
        if t[i + k] != p[k] {
            assert(t@.subrange(i as int, i + p@.len())[k as int] != p@[k as int]);
            return false;
        }
        k = k + 1;
    }
    assert(t@.subrange(i as int, i + p@.len()) =~= p@);
    true
}

/// Whether `p` occurs in `s` (`str::contains` with a string pattern).
pub(crate) fn str_contains(s: &str, p: &str) -> (r: bool)
    ensures
        r == contains_chars(s@, p@),
{
    let t = chars_of(s);
    let q = chars_of(p);
    if q.len() > t.len() {
        return false;
    }
    let last = t.len() - q.len();
    let mut i: usize = 0;
    loop
        invariant_except_break
            i <= last,
        invariant
            t@ == s@,
            q@ == p@,
            last == t@.len() - q@.len(),
            q@.len() <= t@.len(),
            forall|j: int| 0 <= j < i ==> #[trigger] t@.subrange(j, j + q@.len()) != q@,
        ensures
            forall|j: int| 0 <= j <= last ==> #[trigger] t@.subrange(j, j + q@.len()) != q@,
        decreases last - i,
    {
        if occurs_at(&t, &q, i) {
            return true;
        }
        if i == last {
            break;
        }
        i = i + 1;
    }
    false
}

/// The ASCII lower-case form of a character; other characters are unchanged.
pub open spec fn ascii_lower(c: char) -> char {
    if 'A' <= c && c <= 'Z' {
        ((c as u32) + 32) as char
    } else {
        c
    }
}

/// `str::to_ascii_lowercase`: ASCII letters lowered, everything else kept.
#[verifier::external_body]
pub(crate) fn str_ascii_lowercase(s: &str) -> (r: String)
    ensures
        r@ == s@.map_values(|c: char| ascii_lower(c)),
{
    s.to_ascii_lowercase()
}

/// Whether the text of a string equals a literal.
pub fn str_is(s: &str, l: &str) -> (r: bool)
    ensures
        r == (s@ == l@),
{
    let a = s.to_owned();
    let b = l.to_owned();
    a.eq(&b)
}

/// Concatenation of all the texts, in order.
pub open spec fn concat_all(v: Seq<Seq<char>>) -> Seq<char>
    decreases v.len(),
{
    if v.len() == 0 {
        Seq::empty()
    } else {
        concat_all(v.drop_last()) + v.last()
    }
}

/// Concatenate strings, in order.
pub fn concat_strings(v: &Vec<String>) -> (r: String)
    ensures
        r@ == concat_all(v@.map_values(|s: String| s@)),
{
    let mut r = String::new();
    let mut i: usize = 0;
    while i < v.len()
        invariant
            i <= v@.len(),
            r@ == concat_all(v@.map_values(|s: String| s@).take(i as int)),
        decreases v@.len() - i,
    {
        assert(v@.map_values(|s: String| s@).take(i + 1).drop_last() =~= v@.map_values(|s: String| s@).take(i as int));
        r = concat_str(r.as_str(), v[i].as_str());
        i = i + 1;
    }
    assert(v@.map_values(|s: String| s@).take(i as int) =~= v@.map_values(|s: String| s@));
    r
}

/// Replacing every non-overlapping occurrence of a non-empty pattern,
/// scanning from the left.
pub open spec fn replace_all(s: Seq<char>, p: Seq<char>, r: Seq<char>) -> Seq<char>
    decreases s.len(),
{
    if p.len() == 0 || s.len() < p.len() {
        s
    } else if s.take(p.len() as int) == p {
        r + replace_all(s.skip(p.len() as int), p, r)
    } else {
        seq![s[0]] + replace_all(s.drop_first(), p, r)
    }
}

/// Every non-overlapping occurrence of a non-empty pattern replaced,
/// scanning from the left (what `str::replace` does).
pub(crate) fn str_replace(s: &str, p: &str, r: &str) -> (out: String)
    requires
        p@.len() > 0,
    ensures
        out@ == replace_all(s@, p@, r@),
{
    let t = chars_of(s);
    let q = chars_of(p);
    let n = t.len();
    let m = q.len();
    let mut out = String::new();
    let mut seg: usize = 0;
    let mut i: usize = 0;
    assert(s@.skip(0) =~= s@);
    assert(out@ + s@.subrange(0, 0) + s@.skip(0) =~= s@.skip(0));
    while i < n
        invariant
            t@ == s@,
            q@ == p@,
            n == t@.len(),
            m == q@.len(),
            m > 0,
            seg <= i <= n,
            replace_all(s@, p@, r@) == out@ + s@.subrange(seg as int, i as int) + replace_all(
                s@.skip(i as int),
                p@,
                r@,
            ),
        decreases n - i,
    {
        let ghost rest = s@.skip(i as int);
        if m <= n - i && occurs_at(&t, &q, i) {
            assert(rest.take(m as int) =~= s@.subrange(i as int, i + m));
            assert(rest.skip(m as int) =~= s@.skip(i + m));
            let piece = vstd::string::StrSliceExecFns::substring_char(s, seg, i);
            out = append_to(append_to(out, piece), r);
            i = i + m;
            seg = i;
            assert(s@.subrange(seg as int, i as int) =~= Seq::<char>::empty());
        } else {
            if m <= n - i {
                assert(rest.take(m as int) =~= s@.subrange(i as int, i + m));
            }
            assert(rest.drop_first() =~= s@.skip(i + 1));
            assert(s@.subrange(seg as int, i as int) + seq![rest[0]] =~= s@.subrange(seg as int, i + 1));
            i = i + 1;
        }
    }
    assert(s@.skip(i as int) =~= Seq::<char>::empty());
    let piece = vstd::string::StrSliceExecFns::substring_char(s, seg, i);
    append_to(out, piece)
}

/// Whether any of the strings contains the pattern.
pub fn any_contains(v: &[String], p: &str) -> (r: bool)
    ensures
        r == exists|i: int| 0 <= i < v@.len() && contains_chars(#[trigger] v@[i]@, p@),
{
    let mut i: usize = 0;
    while i < v.len()
        invariant
            i <= v@.len(),
            forall|j: int| 0 <= j < i ==> !contains_chars(#[trigger] v@[j]@, p@),
        decreases v@.len() - i,
    {
        if str_contains(v[i].as_str(), p) {
            return true;
        }
        i = i + 1;
    }
    false
}

/// Replace the pattern in every string.
pub fn replace_each(v: &[String], p: &str, r: &str) -> (out: Vec<String>)
    requires
        p@.len() > 0,
    ensures
        out@.len() == v@.len(),
        forall|i: int| 0 <= i < v@.len() ==> #[trigger] out@[i]@ == replace_all(v@[i]@, p@, r@),
{
    let mut out: Vec<String> = Vec::new();
    let mut i: usize = 0;
    while i < v.len()
        invariant
            i <= v@.len(),
            p@.len() > 0,
            out@.len() == i,
            forall|j: int| 0 <= j < i ==> #[trigger] out@[j]@ == replace_all(v@[j]@, p@, r@),
        decreases v@.len() - i,
    {
        out.push(str_replace(v[i].as_str(), p, r));
        i = i + 1;
    }
    out
}

/// `acc` followed by `s`.
pub fn append_to(acc: String, s: &str) -> (r: String)
    ensures
        r@ == acc@ + s@,
{
    concat_str(acc.as_str(), s)
}

/// The position of the first occurrence of `p` in `s`.
pub open spec fn find_sub(s: Seq<u8>, p: Seq<u8>) -> Option<int>
    decreases s.len(),
{
    if s.len() < p.len() {
        None
    } else if s.take(p.len() as int) == p {
        Some(0)
    } else if s.len() == 0 {
        None
    } else {
        match find_sub(s.drop_first(), p) {
            Some(i) => Some(i + 1),
            None => None,
        }
    }
}

/// `find_sub` is the first position where `p` occurs.
pub proof fn lemma_find_sub(s: Seq<u8>, p: Seq<u8>)
    ensures
        find_sub(s, p) matches Some(i) ==> 0 <= i && i + p.len() <= s.len() && s.subrange(i, i + p.len()) == p
            && forall|j: int| 0 <= j < i ==> #[trigger] s.subrange(j, j + p.len()) != p,
        find_sub(s, p) is None ==> forall|j: int| 0 <= j && j + p.len() <= s.len() ==> #[trigger] s.subrange(j, j + p.len()) != p,
    decreases s.len(),
{
    if s.len() >= p.len() && s.take(p.len() as int) != p && s.len() > 0 {
        lemma_find_sub(s.drop_first(), p);
        assert forall|j: int| 1 <= j && j + p.len() <= s.len() implies #[trigger] s.subrange(j, j + p.len())
            == s.drop_first().subrange(j - 1, j - 1 + p.len()) by {
            assert(s.subrange(j, j + p.len()) =~= s.drop_first().subrange(j - 1, j - 1 + p.len()));
        }
        assert(s.subrange(0, p.len() as int) =~= s.take(p.len() as int));
    } else if s.len() >= p.len() && s.take(p.len() as int) == p {
        assert(s.subrange(0, p.len() as int) =~= s.take(p.len() as int));
    }
}

/// Appending bytes keeps the first occurrence of a pattern that already occurs.
pub proof fn lemma_find_sub_append(s: Seq<u8>, p: Seq<u8>, t: Seq<u8>)
    requires
        find_sub(s, p) is Some,
    ensures
        find_sub(s + t, p) == find_sub(s, p),
    decreases s.len(),
{
    assert((s + t).take(p.len() as int) =~= s.take(p.len() as int));
    if s.take(p.len() as int) != p {
        assert((s + t).drop_first() =~= s.drop_first() + t);
        lemma_find_sub_append(s.drop_first(), p, t);
    }
}

/// Appending bytes keeps the first position of a byte that already occurs.
pub proof fn lemma_find_byte_append(s: Seq<u8>, b: u8, t: Seq<u8>)
    requires
        find_byte(s, b) is Some,
    ensures
        find_byte(s + t, b) == find_byte(s, b),
    decreases s.len(),
{
    if s[0] != b {
        assert((s + t).drop_first() =~= s.drop_first() + t);
        lemma_find_byte_append(s.drop_first(), b, t);
    }
}

/// The position of the first occurrence of `p` in `s`.
pub fn find_subslice(s: &[u8], p: &[u8]) -> (r: Option<usize>)
    ensures
        opt_index(r) == find_sub(s@, p@),
{
    proof {
        lemma_find_sub(s@, p@);
    }
    if p.len() > s.len() {
        return None;
    }
    if p.len() == 0 {
        assert(s@.take(0) =~= p@);
        return Some(0);
    }
    let mut i: usize = 0;
    while i <= s.len() - p.len()
        invariant
            0 < p@.len() <= s@.len(),
            i <= s@.len() - p@.len() + 1,
            forall|j: int| 0 <= j < i ==> #[trigger] s@.subrange(j, j + p@.len()) != p@,
            find_sub(s@, p@) matches Some(k) ==> i <= k,
        decreases s@.len() - p@.len() + 1 - i,
    {
        proof {
            lemma_find_sub(s@, p@);
        }
        let tail = vstd::slice::slice_subrange(s, i, s.len());
        if starts_with(tail, p) {
            assert(tail@.take(p@.len() as int) =~= s@.subrange(i as int, i + p@.len()));
            return Some(i);
        }
        assert(tail@.take(p@.len() as int) =~= s@.subrange(i as int, i + p@.len()));
        i = i + 1;
    }
    None
}

/// The bytes of an ASCII literal are its characters.
pub proof fn lemma_lit_ascii(s: &str)
    requires
        vstd::utf8::is_ascii_chars(s@),
    ensures
        lit(s).len() == s@.len(),
        forall|i: int| 0 <= i < s@.len() ==> #[trigger] lit(s)[i] == s@[i] as u8,
{
    vstd::utf8::is_ascii_chars_encode_utf8(s@);
}

/// What `format!("{:?}", s)` writes for a string: the quoted, escaped text.
pub uninterp spec fn str_debug_text(s: Seq<char>) -> Seq<char>;

/// `format!("{:?}", s)` for a string.
#[verifier::external_body]
pub(crate) fn str_debug(s: &str) -> (r: String)
    ensures
        r@ == str_debug_text(s@),
{
    format!("{s:?}")
}

} // verus!
