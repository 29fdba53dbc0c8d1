//! Spawn a GDB stub with `{port}` substitution and connect via TCP to `bind_host:port`.
use vstd::prelude::*;
use vstd::string::StringSliceAdditionalSpecFns;
use vstd::utf8::{decode_utf8, encode_utf8, is_char_boundary, valid_utf8};
use crate::config::{texts, BackendSpawnConfig};
use crate::error::{is_backend_error, is_timeout_error, RsgdbError};
use crate::text::{
    any_contains, append_to, concat_str, contains_chars, decimal_string, decimal_text, owned, replace_all,
    replace_each, str_trim, str_trim_end, trim_chars, trim_end_chars, first_boundary_from,
    lemma_first_boundary_bounds,
};

verus! {

/// Max bytes retained from stub stderr (rolling tail).
pub const STDERR_CAPTURE_MAX_BYTES: usize = 12288;
/// Max bytes of stderr appended to a single error message.
pub const STDERR_ERR_TAIL_BYTES: usize = 2048;

/// Some element of the list contains the pattern.
pub open spec fn mentions(v: Seq<String>, p: Seq<char>) -> bool {
    exists|i: int| 0 <= i < v.len() && contains_chars(#[trigger] v[i]@, p)
}

/// Each element with every occurrence of the pattern replaced.
pub open spec fn substitute(v: Seq<String>, p: Seq<char>, r: Seq<char>) -> Seq<Seq<char>> {
    v.map_values(|s: String| replace_all(s@, p, r))
}

/// Replace `{port}` in each argv element by the decimal port number; at
/// least one element must hold the placeholder.
pub fn build_spawn_argv(program: &[String], port: u16) -> (r: Result<Vec<String>, RsgdbError>)
    ensures
        match r {
            Ok(v) => mentions(program@, "{port}"@) && texts(v@) == substitute(
                program@,
                "{port}"@,
                decimal_text(port as nat),
            ),
            Err(e) => !mentions(program@, "{port}"@) && is_backend_error(
                e,
                "[backend.spawn] program must include the placeholder {port}"@,
            ),
        },
{
    substitute_port(program, port, "[backend.spawn] program must include the placeholder {port}")
}

/// Replace `{port}` in each element, or fail with `missing` when no element holds it.
pub fn substitute_port(program: &[String], port: u16, missing: &str) -> (r: Result<Vec<String>, RsgdbError>)
    ensures
        match r {
            Ok(v) => mentions(program@, "{port}"@) && texts(v@) == substitute(
                program@,
                "{port}"@,
                decimal_text(port as nat),
            ),
            Err(e) => !mentions(program@, "{port}"@) && is_backend_error(e, missing@),
        },
{
    if !any_contains(program, "{port}") {
        return Err(RsgdbError::Backend(owned(missing)));
    }
    let n = decimal_string(port as u64);
    proof {
        reveal_strlit("{port}");
    }
    let v = replace_each(program, "{port}", n.as_str());
    assert(texts(v@) =~= substitute(program@, "{port}"@, decimal_text(port as nat)));
    Ok(v)
}

/// The last `max` bytes of UTF-8 text, shortened at the front to a character boundary.
pub open spec fn utf8_tail_bytes(b: Seq<u8>, max: nat) -> Seq<u8> {
    if b.len() <= max {
        b
    } else {
        b.skip(first_boundary_from(b, b.len() - max))
    }
}

/// The last at most `max_bytes` bytes of `s`, starting on a character boundary.
pub fn utf8_tail(s: &str, max_bytes: usize) -> (r: &str)
    requires
        s.spec_bytes().len() <= usize::MAX,
    ensures
        r.spec_bytes() == utf8_tail_bytes(s.spec_bytes(), max_bytes as nat),
{
    let n = s.len();
    if n <= max_bytes {
        return s;
    }
    let ghost b = s.spec_bytes();
    proof {
        vstd::utf8::encode_utf8_valid_utf8(s@);
        vstd::utf8::is_char_boundary_start_end_of_seq(b);
    }
    let mut start: usize = n - max_bytes;
    while start < n && !s.is_char_boundary(start)
        invariant
            n == b.len(),
            b == s.spec_bytes(),
            valid_utf8(b),
            is_char_boundary(b, b.len() as int),
            n - max_bytes <= start <= n,
            first_boundary_from(b, start as int) == first_boundary_from(b, (n - max_bytes) as int),
        decreases n - start,
    {
        start = start + 1;
    }
    let (_, tail) = s.split_at(start);
    assert(tail.spec_bytes() =~= b.skip(start as int));
    tail
}

/// The tail is at most `max` bytes long.
pub proof fn lemma_utf8_tail_len(b: Seq<u8>, max: nat)
    ensures
        utf8_tail_bytes(b, max).len() <= max,
{
    if b.len() > max {
        lemma_first_boundary_bounds(b, b.len() - max);
    }
}

/// The stub's recent stderr as appended to error messages: trimmed, then
/// its last `STDERR_ERR_TAIL_BYTES` bytes on a character boundary.
pub open spec fn stderr_tail_text(stderr: Seq<char>) -> Seq<char> {
    decode_utf8(utf8_tail_bytes(encode_utf8(trim_chars(stderr)), 2048))
}

/// Append the tail of the stub's stderr to a backend or timeout error; other
/// errors, and blank stderr, leave the error as it is.
pub fn enrich_err_with_stderr(err: RsgdbError, stderr: &str) -> (r: RsgdbError)
    ensures
        trim_chars(stderr@).len() == 0 ==> r == err,
        trim_chars(stderr@).len() > 0 ==> match err {
            RsgdbError::Timeout(m) => r matches RsgdbError::Timeout(m2) && m2@ == m@
                + "\n--- stub stderr (recent) ---\n"@ + stderr_tail_text(stderr@),
            RsgdbError::Backend(m) => r matches RsgdbError::Backend(m2) && m2@ == m@
                + "\n--- stub stderr ---\n"@ + stderr_tail_text(stderr@),
            _ => r == err,
        },
{
    let trimmed = str_trim(stderr);
    if trimmed.is_empty() {
        return err;
    }
    let tail = utf8_tail(trimmed, STDERR_ERR_TAIL_BYTES);
    proof {
        vstd::utf8::encode_utf8_decode_utf8(tail@);
    }
    match err {
        RsgdbError::Timeout(msg) => {
            let a = concat_str(msg.as_str(), "\n--- stub stderr (recent) ---\n");
            RsgdbError::Timeout(concat_str(a.as_str(), tail))
        },
        RsgdbError::Backend(msg) => {
            let a = concat_str(msg.as_str(), "\n--- stub stderr ---\n");
            RsgdbError::Backend(concat_str(a.as_str(), tail))
        },
        other => other,
    }
}

/// The stderr capture with one more line joined on: the line without its
/// trailing whitespace, after a `\n` unless the capture is empty.
pub open spec fn capture_joined(cap: Seq<char>, line: Seq<char>) -> Seq<char> {
    if cap.len() == 0 {
        trim_end_chars(line)
    } else {
        cap + "\n"@ + trim_end_chars(line)
    }
}

/// The capture kept after a line: the joined capture, cut at the front to
/// at most `STDERR_CAPTURE_MAX_BYTES` bytes, starting on a character boundary.
pub open spec fn capture_kept(cap: Seq<char>, line: Seq<char>) -> Seq<u8> {
    utf8_tail_bytes(encode_utf8(capture_joined(cap, line)), 12288)
}

/// The capture with the line joined on, before any cut.
fn join_line(cap: &str, line: &str) -> (r: String)
    ensures
        r@ == capture_joined(cap@, line@),
{
    let l = str_trim_end(line);
    if cap.is_empty() {
        owned(l)
    } else {
        append_to(concat_str(cap, "\n"), l)
    }
}

/// The rolling tail of a stub's stderr after one more line.
pub fn push_stderr_line(cap: &str, line: &str) -> (r: String)
    ensures
        encode_utf8(r@) == capture_kept(cap@, line@),
        encode_utf8(r@).len() <= STDERR_CAPTURE_MAX_BYTES,
{
    let joined = join_line(cap, line);
    let b = joined.as_str().as_bytes();
    let n = b.len();
    assert(b@.len() == n);
    let tail = utf8_tail(joined.as_str(), STDERR_CAPTURE_MAX_BYTES);
    proof {
        lemma_utf8_tail_len(encode_utf8(joined@), 12288);
    }
    owned(tail)
}

/// The trimmed lines joined as the capture joins them: each after a `\n`
/// unless the text before it is empty.
pub open spec fn lines_joined(lines: Seq<Seq<char>>) -> Seq<char>
    decreases lines.len(),
{
    if lines.len() == 0 {
        Seq::empty()
    } else {
        capture_joined(lines_joined(lines.drop_last()), lines.last())
    }
}

/// `s` ends with `t`.
pub open spec fn ends_with(s: Seq<u8>, t: Seq<u8>) -> bool {
    t.len() <= s.len() && s.skip(s.len() - t.len()) == t
}

/// The captures of a run of lines: each is what [`push_stderr_line`] keeps
/// from the one before and the next line, starting from an empty capture.
pub open spec fn capture_run(lines: Seq<Seq<char>>, caps: Seq<Seq<char>>) -> bool {
    &&& caps.len() == lines.len() + 1
    &&& caps[0].len() == 0
    &&& forall|k: int| 0 <= k < lines.len() ==> encode_utf8(#[trigger] caps[k + 1]) == capture_kept(caps[k], lines[k])
}

/// UTF-8 encoding distributes over concatenation.
proof fn lemma_encode_concat(a: Seq<char>, b: Seq<char>)
    ensures
        encode_utf8(a + b) == encode_utf8(a) + encode_utf8(b),
    decreases a.len(),
{
    if a.len() > 0 {
        assert((a + b).drop_first() =~= a.drop_first() + b);
        lemma_encode_concat(a.drop_first(), b);
        assert(encode_utf8(a + b) =~= encode_utf8(a) + encode_utf8(b));
    } else {
        assert(a + b =~= b);
        assert(encode_utf8(a) =~= Seq::<u8>::empty());
        assert(encode_utf8(a) + encode_utf8(b) =~= encode_utf8(b));
    }
}

/// Text that is not empty has a nonempty encoding.
proof fn lemma_encode_nonempty(a: Seq<char>)
    requires
        a.len() > 0,
    ensures
        encode_utf8(a).len() > 0,
{
    assert(encode_utf8(a) == vstd::utf8::encode_scalar(a[0] as u32) + encode_utf8(a.drop_first()));
}

/// A byte string that ends with `t` still does after the same bytes are
/// appended to both; `ends_with` is transitive.
proof fn lemma_ends_with(y: Seq<u8>, x: Seq<u8>, z: Seq<u8>, w: Seq<u8>)
    ensures
        ends_with(y, x) ==> ends_with(y + z, x + z),
        ends_with(y + z, z),
        ends_with(y, x) && ends_with(x, w) ==> ends_with(y, w),
        ends_with(y, y),
{
    if ends_with(y, x) {
        assert((y + z).skip((y + z).len() - (x + z).len()) =~= x + z);
    }
    assert((y + z).skip((y + z).len() - z.len()) =~= z);
    if ends_with(y, x) && ends_with(x, w) {
        assert(y.skip(y.len() - w.len()) =~= x.skip(x.len() - w.len()));
    }
    assert(y.skip(0) =~= y);
}

/// The kept tail is the end of the text.
proof fn lemma_tail_ends(b: Seq<u8>, max: nat)
    ensures
        ends_with(b, utf8_tail_bytes(b, max)),
{
    if b.len() > max {
        lemma_first_boundary_bounds(b, b.len() - max);
        let q = first_boundary_from(b, b.len() - max);
        assert(b.skip(b.len() - (b.len() - q)) =~= b.skip(q));
    } else {
        assert(b.skip(0) =~= b);
    }
}

/// Joining a line onto a capture that is the end of the joined text gives
/// the end of the text with the line joined on.
proof fn lemma_joined_ends(all: Seq<char>, cap: Seq<char>, line: Seq<char>)
    requires
        ends_with(encode_utf8(all), encode_utf8(cap)),
    ensures
        ends_with(encode_utf8(capture_joined(all, line)), encode_utf8(capture_joined(cap, line))),
{
    let t = trim_end_chars(line);
    let nt = "\n"@ + t;
    lemma_encode_concat("\n"@, t);
    if cap.len() > 0 {
        lemma_encode_nonempty(cap);
        assert(all.len() > 0);
        assert(cap + "\n"@ + t =~= cap + nt);
        assert(all + "\n"@ + t =~= all + nt);
        lemma_encode_concat(cap, nt);
        lemma_encode_concat(all, nt);
        lemma_ends_with(encode_utf8(all), encode_utf8(cap), encode_utf8(nt), encode_utf8(nt));
    } else if all.len() > 0 {
        assert(all + "\n"@ + t =~= (all + "\n"@) + t);
        lemma_encode_concat(all + "\n"@, t);
        lemma_ends_with(encode_utf8(all + "\n"@), encode_utf8(all + "\n"@), encode_utf8(t), encode_utf8(t));
    } else {
        lemma_ends_with(encode_utf8(t), encode_utf8(t), encode_utf8(t), encode_utf8(t));
    }
}

/// After any run of lines, the capture holds at most
/// `STDERR_CAPTURE_MAX_BYTES` bytes and is the end of the trimmed lines read
/// so far, joined by newlines.
pub proof fn lemma_capture_run(lines: Seq<Seq<char>>, caps: Seq<Seq<char>>, k: int)
    requires
        capture_run(lines, caps),
        0 <= k <= lines.len(),
    ensures
        ends_with(encode_utf8(lines_joined(lines.take(k))), encode_utf8(caps[k])),
        encode_utf8(caps[k]).len() <= STDERR_CAPTURE_MAX_BYTES,
    decreases k,
{
    if k == 0 {
        assert(caps[0] =~= Seq::<char>::empty());
        assert(lines.take(0) =~= Seq::<Seq<char>>::empty());
        assert(encode_utf8(caps[0]) =~= Seq::<u8>::empty());
        lemma_ends_with(encode_utf8(lines_joined(lines.take(0))), encode_utf8(caps[0]), Seq::empty(), Seq::empty());
    } else {
        lemma_capture_run(lines, caps, k - 1);
        let cap = caps[k - 1];
        let line = lines[k - 1];
        let all = lines_joined(lines.take(k - 1));
        assert(lines.take(k).drop_last() =~= lines.take(k - 1));
        assert(lines.take(k).last() == line);
        assert(lines_joined(lines.take(k)) == capture_joined(all, line));
        assert(encode_utf8(caps[(k - 1) + 1]) == capture_kept(caps[k - 1], lines[k - 1]));
        lemma_joined_ends(all, cap, line);
        let b = encode_utf8(capture_joined(cap, line));
        lemma_tail_ends(b, 12288);
        lemma_utf8_tail_len(b, 12288);
        lemma_ends_with(encode_utf8(capture_joined(all, line)), b, Seq::empty(), utf8_tail_bytes(b, 12288));
    }
}

/// How to launch a managed stub: its argv and the wait parameters.
#[derive(Debug, Clone)]
pub struct StubLaunch {
    /// The argv with `{port}` substituted.
    pub argv: Vec<String>,
    /// Host the stub is expected to listen on.
    pub host: String,
    /// Port the stub is expected to listen on.
    pub port: u16,
    /// Seconds to wait for the stub to accept TCP (at least 1).
    pub ready_timeout_secs: u64,
    /// Milliseconds between connection attempts (at least 10).
    pub poll_interval_ms: u64,
}

/// The larger of two numbers.
pub open spec fn max_u64(a: u64, b: u64) -> u64 {
    if a >= b { a } else { b }
}

/// The larger of two numbers is one of them and no smaller than either, so
/// a configured wait above its floor is kept as configured.
pub proof fn lemma_max_u64(a: u64, b: u64)
    ensures
        max_u64(a, b) >= a,
        max_u64(a, b) >= b,
        max_u64(a, b) == a || max_u64(a, b) == b,
        a >= b ==> max_u64(a, b) == a,
{
}

/// Plan the launch of a managed stub on `port`: substitute the port into the
/// configured argv, and clamp the wait parameters to at least 1 s and 10 ms.
pub fn plan_native_stub(spawn: &BackendSpawnConfig, port: u16) -> (r: Result<StubLaunch, RsgdbError>)
    ensures
        match r {
            Ok(l) => {
                &&& mentions(spawn.program@, "{port}"@)
                &&& texts(l.argv@) == substitute(spawn.program@, "{port}"@, decimal_text(port as nat))
                &&& l.argv@.len() > 0
                &&& l.host@ == spawn.bind_host@
                &&& l.port == port
                &&& l.ready_timeout_secs == max_u64(spawn.ready_timeout_secs, 1)
                &&& l.poll_interval_ms == max_u64(spawn.poll_interval_ms, 10)
                &&& (spawn.ready_timeout_secs >= 1 ==> l.ready_timeout_secs == spawn.ready_timeout_secs)
                &&& (spawn.ready_timeout_secs < 1 ==> l.ready_timeout_secs == 1)
                &&& (spawn.poll_interval_ms >= 10 ==> l.poll_interval_ms == spawn.poll_interval_ms)
                &&& (spawn.poll_interval_ms < 10 ==> l.poll_interval_ms == 10)
            },
            Err(e) => !mentions(spawn.program@, "{port}"@) && is_backend_error(
                e,
                "[backend.spawn] program must include the placeholder {port}"@,
            ),
        },
{
    let argv = build_spawn_argv(spawn.program.as_slice(), port)?;
    assert(texts(argv@).len() == argv@.len());
    assert(spawn.program@.len() > 0);
    if argv.len() == 0 {
        return Err(RsgdbError::Backend(owned("spawn program is empty")));
    }
    let ready_timeout_secs = if spawn.ready_timeout_secs >= 1 { spawn.ready_timeout_secs } else { 1 };
    let poll_interval_ms = if spawn.poll_interval_ms >= 10 { spawn.poll_interval_ms } else { 10 };
    Ok(StubLaunch { argv, host: spawn.bind_host.clone(), port, ready_timeout_secs, poll_interval_ms })
}

/// The error reported when the stub exits before accepting TCP.
pub open spec fn stub_exited_text(host: Seq<char>, port: u16, status: Seq<char>) -> Seq<char> {
    "stub process exited before TCP was ready on "@ + host + ":"@ + decimal_text(port as nat) + " (status="@
        + status + "); check [backend.spawn] argv, PATH, and that the program listens on "@ + host
        + " at the substituted port"@
}

/// The error reported when the stub does not accept TCP in time.
pub open spec fn stub_timeout_text(host: Seq<char>, port: u16, timeout_secs: u64) -> Seq<char> {
    "stub did not accept TCP on "@ + host + ":"@ + decimal_text(port as nat) + " within "@ + decimal_text(
        timeout_secs as nat,
    ) + "s; confirm the stub binds to "@ + host + " and uses the same port as `"@ + decimal_text(port as nat)
        + "` in argv; increase [backend.spawn] ready_timeout_secs if the tool starts slowly"@
}

/// One round of waiting for a spawned stub to accept TCP: a stub that has
/// exited (with its exit status shown as `exit_status`) fails the wait;
/// otherwise a passed deadline fails it; otherwise the caller tries to
/// connect (`None`).
pub fn wait_step(
    host: &str,
    port: u16,
    timeout_secs: u64,
    exit_status: Option<String>,
    deadline_passed: bool,
) -> (r: Option<RsgdbError>)
    ensures
        match exit_status {
            Some(st) => r matches Some(e) && is_backend_error(e, stub_exited_text(host@, port, st@)),
            None => if deadline_passed {
                r matches Some(e) && is_timeout_error(e, stub_timeout_text(host@, port, timeout_secs))
            } else {
                r is None
            },
        },
{
    let p = decimal_string(port as u64);
    match exit_status {
        Some(status) => {
            let m = append_to(owned("stub process exited before TCP was ready on "), host);
            let m = append_to(m, ":");
            let m = append_to(m, p.as_str());
            let m = append_to(m, " (status=");
            let m = append_to(m, status.as_str());
            let m = append_to(m, "); check [backend.spawn] argv, PATH, and that the program listens on ");
            let m = append_to(m, host);
            let m = append_to(m, " at the substituted port");
            Some(RsgdbError::Backend(m))
        },
        None => {
            if deadline_passed {
                let t = decimal_string(timeout_secs);
                let m = append_to(owned("stub did not accept TCP on "), host);
                let m = append_to(m, ":");
                let m = append_to(m, p.as_str());
                let m = append_to(m, " within ");
                let m = append_to(m, t.as_str());
                let m = append_to(m, "s; confirm the stub binds to ");
                let m = append_to(m, host);
                let m = append_to(m, " and uses the same port as `");
                let m = append_to(m, p.as_str());
                let m = append_to(
                    m,
                    "` in argv; increase [backend.spawn] ready_timeout_secs if the tool starts slowly",
                );
                Some(RsgdbError::Timeout(m))
            } else {
                None
            }
        },
    }
}

} // verus!
