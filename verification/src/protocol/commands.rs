//! GDB RSP command definitions and parsing.
use vstd::prelude::*;
use vstd::string::StrSliceExecFns;
use vstd::utf8::{encode_utf8, is_char_boundary, valid_utf8};
use crate::deps::hex_decode;
use crate::text::{
    first_boundary_from,
    bytes_equal, char_debug, char_debug_text, concat_str, decimal_string, decimal_text,
    find_byte, has_prefix, hex_decode_spec, lemma_find_byte, lemma_valid_after_prefix,
    lemma_valid_drop_ascii, lemma_valid_piece, lit, lit_bytes, opt_index, opt_nat, owned,
    parse_unsigned, parse_unsigned_spec, position_of, split_on, split_ranges, starts_with, text,
    utf8_check, utf8_string, COLON, COMMA, SEMICOLON,
};

verus! {

/// GDB command parsing errors.
#[derive(Debug)]
pub enum CommandError {
    Unknown(String),
    InvalidFormat(String),
    InvalidHex(String),
    MissingParameter(String),
}

/// A parsed GDB command.
#[derive(Debug, Clone, PartialEq)]
pub enum GdbCommand {
    /// Query command (`q…`).
    Query(QueryCommand),
    /// Set command (`Qkey:value`).
    SetValue(String, String),
    /// Read registers (`g`).
    ReadRegisters,
    /// Write registers (`G` hex…).
    WriteRegisters(Vec<u8>),
    /// Read memory (`m addr,length`).
    ReadMemory { addr: u64, len: usize },
    /// Write memory (`M addr,length:XX…`).
    WriteMemory { addr: u64, data: Vec<u8> },
    /// Continue execution (`c [addr]`).
    Continue { addr: Option<u64> },
    /// Step execution (`s [addr]`).
    Step { addr: Option<u64> },
    /// Insert breakpoint (`Z type,addr,kind`).
    InsertBreakpoint { bp_type: BreakpointType, addr: u64, kind: u32 },
    /// Remove breakpoint (`z type,addr,kind`).
    RemoveBreakpoint { bp_type: BreakpointType, addr: u64, kind: u32 },
    /// Kill request (`k`).
    Kill,
    /// Detach (`D`).
    Detach,
    /// `Hg` / `Hc`: set the thread for later operations (`Hg` general, `Hc` continue).
    SetThread { for_continue: bool, thread_id: u64 },
    /// `vCont`: continue with actions.
    VCont(VContAction),
    /// Unknown or unsupported command.
    Unsupported(String),
}

/// Query commands (`q…`).
#[derive(Debug, Clone, PartialEq)]
pub enum QueryCommand {
    /// `qSupported`: feature negotiation.
    Supported(Vec<String>),
    /// `qAttached`.
    Attached,
    /// `qC`: current thread id.
    CurrentThread,
    /// `qfThreadInfo`.
    FirstThreadInfo,
    /// `qsThreadInfo`.
    SubsequentThreadInfo,
    /// `qThreadExtraInfo:<id>`.
    ThreadExtraInfo(String),
    /// `qOffsets`.
    Offsets,
    /// `qSymbol`.
    Symbol(Option<String>),
    /// Any other query.
    Other(String),
}

/// Breakpoint types of `Z`/`z`, numbered 0 to 4 on the wire.
#[derive(Debug, Clone, Copy, PartialEq, Eq)]
pub enum BreakpointType {
    Software,
    Hardware,
    WriteWatchpoint,
    ReadWatchpoint,
    AccessWatchpoint,
}

/// `vCont` action.
#[derive(Debug, Clone, PartialEq)]
pub enum VContAction {
    Continue,
    ContinueWithSignal(u8),
    Step,
    StepWithSignal(u8),
    Stop,
}

/// Abstract view of a query.
pub enum QueryView {
    Supported(Seq<Seq<char>>),
    Attached,
    CurrentThread,
    FirstThreadInfo,
    SubsequentThreadInfo,
    ThreadExtraInfo(Seq<char>),
    Offsets,
    Symbol(Option<Seq<char>>),
    Other(Seq<char>),
}

/// Abstract view of a command.
pub enum CommandView {
    Query(QueryView),
    SetValue(Seq<char>, Seq<char>),
    ReadRegisters,
    WriteRegisters(Seq<u8>),
    ReadMemory { addr: u64, len: usize },
    WriteMemory { addr: u64, data: Seq<u8> },
    Continue { addr: Option<u64> },
    Step { addr: Option<u64> },
    InsertBreakpoint { bp_type: BreakpointType, addr: u64, kind: u32 },
    RemoveBreakpoint { bp_type: BreakpointType, addr: u64, kind: u32 },
    Kill,
    Detach,
    SetThread { for_continue: bool, thread_id: u64 },
    VCont(VContAction),
    Unsupported(Seq<char>),
}

/// Abstract view of a command error.
pub enum CommandErrorView {
    Unknown(Seq<char>),
    InvalidFormat(Seq<char>),
    InvalidHex(Seq<char>),
    MissingParameter(Seq<char>),
}

impl View for QueryCommand {
    type V = QueryView;

    open spec fn view(&self) -> QueryView {
        match self {
            QueryCommand::Supported(v) => QueryView::Supported(v@.map_values(|f: String| f@)),
            QueryCommand::Attached => QueryView::Attached,
            QueryCommand::CurrentThread => QueryView::CurrentThread,
            QueryCommand::FirstThreadInfo => QueryView::FirstThreadInfo,
            QueryCommand::SubsequentThreadInfo => QueryView::SubsequentThreadInfo,
            QueryCommand::ThreadExtraInfo(s) => QueryView::ThreadExtraInfo(s@),
            QueryCommand::Offsets => QueryView::Offsets,
            QueryCommand::Symbol(o) => QueryView::Symbol(
                match o {
                    Some(s) => Some(s@),
                    None => None,
                },
            ),
            QueryCommand::Other(s) => QueryView::Other(s@),
        }
    }
}

impl View for GdbCommand {
    type V = CommandView;

    open spec fn view(&self) -> CommandView {
        match self {
            GdbCommand::Query(q) => CommandView::Query(q@),
            GdbCommand::SetValue(k, v) => CommandView::SetValue(k@, v@),
            GdbCommand::ReadRegisters => CommandView::ReadRegisters,
            GdbCommand::WriteRegisters(b) => CommandView::WriteRegisters(b@),
            GdbCommand::ReadMemory { addr, len } => CommandView::ReadMemory { addr: *addr, len: *len },
            GdbCommand::WriteMemory { addr, data } => CommandView::WriteMemory { addr: *addr, data: data@ },
            GdbCommand::Continue { addr } => CommandView::Continue { addr: *addr },
            GdbCommand::Step { addr } => CommandView::Step { addr: *addr },
            GdbCommand::InsertBreakpoint { bp_type, addr, kind } => CommandView::InsertBreakpoint {
                bp_type: *bp_type,
                addr: *addr,
                kind: *kind,
            },
            GdbCommand::RemoveBreakpoint { bp_type, addr, kind } => CommandView::RemoveBreakpoint {
                bp_type: *bp_type,
                addr: *addr,
                kind: *kind,
            },
            GdbCommand::Kill => CommandView::Kill,
            GdbCommand::Detach => CommandView::Detach,
            GdbCommand::SetThread { for_continue, thread_id } => CommandView::SetThread {
                for_continue: *for_continue,
                thread_id: *thread_id,
            },
            GdbCommand::VCont(a) => CommandView::VCont(*a),
            GdbCommand::Unsupported(s) => CommandView::Unsupported(s@),
        }
    }
}

impl View for CommandError {
    type V = CommandErrorView;

    open spec fn view(&self) -> CommandErrorView {
        match self {
            CommandError::Unknown(s) => CommandErrorView::Unknown(s@),
            CommandError::InvalidFormat(s) => CommandErrorView::InvalidFormat(s@),
            CommandError::InvalidHex(s) => CommandErrorView::InvalidHex(s@),
            CommandError::MissingParameter(s) => CommandErrorView::MissingParameter(s@),
        }
    }
}

/// The text of a command error.
pub open spec fn command_error_text(e: CommandErrorView) -> Seq<char> {
    match e {
        CommandErrorView::Unknown(s) => "Unknown command: "@ + s,
        CommandErrorView::InvalidFormat(s) => "Invalid command format: "@ + s,
        CommandErrorView::InvalidHex(s) => "Invalid hex value: "@ + s,
        CommandErrorView::MissingParameter(s) => "Missing required parameter: "@ + s,
    }
}

impl CommandError {
    /// The human-readable message of the error.
    pub fn message(&self) -> (r: String)
        ensures
            r@ == command_error_text(self@),
    {
        match self {
            CommandError::Unknown(s) => concat_str("Unknown command: ", s.as_str()),
            CommandError::InvalidFormat(s) => concat_str("Invalid command format: ", s.as_str()),
            CommandError::InvalidHex(s) => concat_str("Invalid hex value: ", s.as_str()),
            CommandError::MissingParameter(s) => concat_str("Missing required parameter: ", s.as_str()),
        }
    }
}

/// The breakpoint type with the given wire number.
pub open spec fn breakpoint_type_of(v: nat) -> Option<BreakpointType> {
    if v == 0 {
        Some(BreakpointType::Software)
    } else if v == 1 {
        Some(BreakpointType::Hardware)
    } else if v == 2 {
        Some(BreakpointType::WriteWatchpoint)
    } else if v == 3 {
        Some(BreakpointType::ReadWatchpoint)
    } else if v == 4 {
        Some(BreakpointType::AccessWatchpoint)
    } else {
        None
    }
}

/// The wire numbering of `Z`/`z` types that the GDB remote protocol fixes:
/// 0 software breakpoint, 1 hardware breakpoint, 2 write watchpoint, 3 read
/// watchpoint, 4 access watchpoint; no other number names a type.
pub proof fn lemma_breakpoint_wire_numbers(v: nat)
    ensures
        breakpoint_type_of(0) == Some(BreakpointType::Software),
        breakpoint_type_of(1) == Some(BreakpointType::Hardware),
        breakpoint_type_of(2) == Some(BreakpointType::WriteWatchpoint),
        breakpoint_type_of(3) == Some(BreakpointType::ReadWatchpoint),
        breakpoint_type_of(4) == Some(BreakpointType::AccessWatchpoint),
        v > 4 ==> breakpoint_type_of(v) is None,
{
}

/// Distinct wire numbers name distinct types.
pub proof fn lemma_breakpoint_wire_numbers_distinct(a: nat, b: nat)
    requires
        breakpoint_type_of(a) is Some,
        a != b,
    ensures
        breakpoint_type_of(a) != breakpoint_type_of(b),
{
}

impl BreakpointType {
    /// The breakpoint type with the given wire number (0 to 4).
    pub fn from_u8(value: u8) -> (r: Result<Self, CommandError>)
        ensures
            value == 0 ==> r == Ok::<Self, CommandError>(BreakpointType::Software),
            value == 1 ==> r == Ok::<Self, CommandError>(BreakpointType::Hardware),
            value == 2 ==> r == Ok::<Self, CommandError>(BreakpointType::WriteWatchpoint),
            value == 3 ==> r == Ok::<Self, CommandError>(BreakpointType::ReadWatchpoint),
            value == 4 ==> r == Ok::<Self, CommandError>(BreakpointType::AccessWatchpoint),
            match r {
                Ok(t) => breakpoint_type_of(value as nat) == Some(t),
                Err(e) => breakpoint_type_of(value as nat) is None && e@ == CommandErrorView::InvalidFormat(
                    "Invalid breakpoint type: "@ + decimal_text(value as nat),
                ),
            },
    {
        match value {
            0 => Ok(BreakpointType::Software),
            1 => Ok(BreakpointType::Hardware),
            2 => Ok(BreakpointType::WriteWatchpoint),
            3 => Ok(BreakpointType::ReadWatchpoint),
            4 => Ok(BreakpointType::AccessWatchpoint),
            _ => {
                let n = decimal_string(value as u64);
                Err(CommandError::InvalidFormat(concat_str("Invalid breakpoint type: ", n.as_str())))
            },
        }
    }
}

/// `r` is the command, or the error, that `s` describes.
pub open spec fn command_result_is(
    r: Result<GdbCommand, CommandError>,
    s: Result<CommandView, CommandErrorView>,
) -> bool {
    match r {
        Ok(c) => s == Ok::<CommandView, CommandErrorView>(c@),
        Err(e) => s == Err::<CommandView, CommandErrorView>(e@),
    }
}

/// The byte of an ASCII letter.
pub open spec fn byte_of(c: char) -> u8 {
    c as u8
}

/// `Hg<id>` / `Hc<id>` after the `H`.
pub open spec fn spec_parse_set_thread(s: Seq<u8>) -> Result<CommandView, CommandErrorView> {
    if s.len() == 0 {
        Err(CommandErrorView::InvalidFormat("H: missing g/c"@))
    } else if s[0] != byte_of('g') && s[0] != byte_of('c') {
        Err(CommandErrorView::InvalidFormat("H: expected g or c, got "@ + char_debug_text(text(s)[0])))
    } else {
        let id = s.drop_first();
        if id.len() == 0 {
            Err(CommandErrorView::InvalidFormat("H: missing thread id"@))
        } else {
            match parse_unsigned_spec(id, 16, u64::MAX as nat) {
                None => Err(CommandErrorView::InvalidHex(text(id))),
                Some(v) => Ok(CommandView::SetThread { for_continue: s[0] == byte_of('c'), thread_id: v as u64 }),
            }
        }
    }
}

/// What follows `q`.
pub open spec fn spec_parse_query(q: Seq<u8>) -> Result<CommandView, CommandErrorView> {
    Ok(CommandView::Query(
        if has_prefix(q, lit("Supported")) {
            QueryView::Supported(
                if q.len() > 9 && q[9] == COLON {
                    split_on(q.skip(10), SEMICOLON).map_values(|p: Seq<u8>| text(p))
                } else {
                    Seq::empty()
                },
            )
        } else if q == lit("Attached") {
            QueryView::Attached
        } else if q == lit("C") {
            QueryView::CurrentThread
        } else if q == lit("fThreadInfo") {
            QueryView::FirstThreadInfo
        } else if q == lit("sThreadInfo") {
            QueryView::SubsequentThreadInfo
        } else if has_prefix(q, lit("ThreadExtraInfo:")) {
            QueryView::ThreadExtraInfo(text(q.skip(lit("ThreadExtraInfo:").len() as int)))
        } else if q == lit("Offsets") {
            QueryView::Offsets
        } else if has_prefix(q, lit("Symbol")) {
            QueryView::Symbol(if q.len() > 7 { Some(text(q.skip(first_boundary_from(q, 7)))) } else { None })
        } else {
            QueryView::Other(text(q))
        },
    ))
}

/// `Qkey:value` after the `Q`: split at the first `:`.
pub open spec fn spec_parse_set(s: Seq<u8>) -> Result<CommandView, CommandErrorView> {
    match find_byte(s, COLON) {
        Some(p) => Ok(CommandView::SetValue(text(s.take(p)), text(s.skip(p + 1)))),
        None => Err(CommandErrorView::InvalidFormat("Set command missing ':'"@)),
    }
}

/// `G<hex>` after the `G`.
pub open spec fn spec_parse_write_registers(s: Seq<u8>) -> Result<CommandView, CommandErrorView> {
    match hex_decode_spec(s) {
        Some(b) => Ok(CommandView::WriteRegisters(b)),
        None => Err(CommandErrorView::InvalidHex(text(s))),
    }
}

/// `m<addr>,<len>` after the `m`.
pub open spec fn spec_parse_read_memory(s: Seq<u8>) -> Result<CommandView, CommandErrorView> {
    let parts = split_on(s, COMMA);
    if parts.len() != 2 {
        Err(CommandErrorView::InvalidFormat("Expected addr,length"@))
    } else {
        match parse_unsigned_spec(parts[0], 16, u64::MAX as nat) {
            None => Err(CommandErrorView::InvalidHex(text(parts[0]))),
            Some(a) => match parse_unsigned_spec(parts[1], 16, usize::MAX as nat) {
                None => Err(CommandErrorView::InvalidHex(text(parts[1]))),
                Some(l) => Ok(CommandView::ReadMemory { addr: a as u64, len: l as usize }),
            },
        }
    }
}

/// `M<addr>,<len>:<hex>` after the `M`; the length field is not read.
pub open spec fn spec_parse_write_memory(s: Seq<u8>) -> Result<CommandView, CommandErrorView> {
    let parts = split_on(s, COLON);
    if parts.len() != 2 {
        Err(CommandErrorView::InvalidFormat("Expected addr,length:data"@))
    } else {
        let addr_len = split_on(parts[0], COMMA);
        if addr_len.len() != 2 {
            Err(CommandErrorView::InvalidFormat("Expected addr,length"@))
        } else {
            match parse_unsigned_spec(addr_len[0], 16, u64::MAX as nat) {
                None => Err(CommandErrorView::InvalidHex(text(addr_len[0]))),
                Some(a) => match hex_decode_spec(parts[1]) {
                    None => Err(CommandErrorView::InvalidHex(text(parts[1]))),
                    Some(d) => Ok(CommandView::WriteMemory { addr: a as u64, data: d }),
                },
            }
        }
    }
}

/// An optional hexadecimal address (for `c` and `s`).
pub open spec fn spec_parse_opt_addr(s: Seq<u8>) -> Result<Option<u64>, CommandErrorView> {
    if s.len() == 0 {
        Ok(None)
    } else {
        match parse_unsigned_spec(s, 16, u64::MAX as nat) {
            Some(v) => Ok(Some(v as u64)),
            None => Err(CommandErrorView::InvalidHex(text(s))),
        }
    }
}

/// `Z`/`z` `<type>,<addr>,<kind>` after the letter.
pub open spec fn spec_parse_breakpoint(s: Seq<u8>, insert: bool) -> Result<CommandView, CommandErrorView> {
    let parts = split_on(s, COMMA);
    if parts.len() != 3 {
        Err(CommandErrorView::InvalidFormat("Expected type,addr,kind"@))
    } else {
        match parse_unsigned_spec(parts[0], 10, 255) {
            None => Err(CommandErrorView::InvalidFormat(text(parts[0]))),
            Some(t) => match breakpoint_type_of(t) {
                None => Err(CommandErrorView::InvalidFormat("Invalid breakpoint type: "@ + decimal_text(t))),
                Some(bp_type) => match parse_unsigned_spec(parts[1], 16, u64::MAX as nat) {
                    None => Err(CommandErrorView::InvalidHex(text(parts[1]))),
                    Some(addr) => match parse_unsigned_spec(parts[2], 16, u32::MAX as nat) {
                        None => Err(CommandErrorView::InvalidHex(text(parts[2]))),
                        Some(kind) => if insert {
                            Ok(CommandView::InsertBreakpoint { bp_type, addr: addr as u64, kind: kind as u32 })
                        } else {
                            Ok(CommandView::RemoveBreakpoint { bp_type, addr: addr as u64, kind: kind as u32 })
                        },
                    },
                },
            },
        }
    }
}

/// What parsing packet data as a command yields. The first byte selects the
/// command; data that is not valid UTF-8 is rejected; unknown letters give
/// `Unsupported` with the whole text.
pub open spec fn spec_parse_command(data: Seq<u8>) -> Result<CommandView, CommandErrorView> {
    if data.len() == 0 {
        Err(CommandErrorView::InvalidFormat("Empty command"@))
    } else if !valid_utf8(data) {
        Err(CommandErrorView::InvalidFormat("Invalid UTF-8"@))
    } else {
        let c = data[0];
        let rest = data.drop_first();
        if c == byte_of('q') {
            spec_parse_query(rest)
        } else if c == byte_of('Q') {
            spec_parse_set(rest)
        } else if c == byte_of('g') {
            Ok(CommandView::ReadRegisters)
        } else if c == byte_of('G') {
            spec_parse_write_registers(rest)
        } else if c == byte_of('m') {
            spec_parse_read_memory(rest)
        } else if c == byte_of('M') {
            spec_parse_write_memory(rest)
        } else if c == byte_of('c') {
            match spec_parse_opt_addr(rest) {
                Ok(addr) => Ok(CommandView::Continue { addr }),
                Err(e) => Err(e),
            }
        } else if c == byte_of('s') {
            match spec_parse_opt_addr(rest) {
                Ok(addr) => Ok(CommandView::Step { addr }),
                Err(e) => Err(e),
            }
        } else if c == byte_of('Z') {
            spec_parse_breakpoint(rest, true)
        } else if c == byte_of('z') {
            spec_parse_breakpoint(rest, false)
        } else if c == byte_of('k') {
            Ok(CommandView::Kill)
        } else if c == byte_of('D') {
            Ok(CommandView::Detach)
        } else if c == byte_of('H') {
            spec_parse_set_thread(rest)
        } else if c == byte_of('v') {
            if has_prefix(rest, lit("Cont")) {
                Ok(CommandView::VCont(VContAction::Continue))
            } else {
                Ok(CommandView::Unsupported(text(data)))
            }
        } else {
            Ok(CommandView::Unsupported(text(data)))
        }
    }
}

/// `r` is the optional address, or the error, that `s` describes.
pub open spec fn opt_addr_result_is(r: Result<Option<u64>, CommandError>, s: Result<Option<u64>, CommandErrorView>) -> bool {
    match r {
        Ok(a) => s == Ok::<Option<u64>, CommandErrorView>(a),
        Err(e) => s == Err::<Option<u64>, CommandErrorView>(e@),
    }
}

/// The pieces of valid UTF-8 text split on an ASCII delimiter, as strings.
fn split_strings(s: &[u8], d: u8) -> (r: Vec<String>)
    requires
        valid_utf8(s@),
        d < 0x80,
    ensures
        r@.map_values(|x: String| x@) == split_on(s@, d).map_values(|p: Seq<u8>| text(p)),
{
    let ranges = split_ranges(s, d);
    let mut out: Vec<String> = Vec::new();
    let mut k: usize = 0;
    while k < ranges.len()
        invariant
            k <= ranges@.len(),
            valid_utf8(s@),
            d < 0x80,
            ranges@.len() == split_on(s@, d).len(),
            forall|j: int| 0 <= j < ranges@.len() ==> {
                let (a, b) = #[trigger] ranges@[j];
                &&& a <= b <= s@.len()
                &&& s@.subrange(a as int, b as int) == split_on(s@, d)[j]
                &&& (a == 0 || s@[a - 1] == d)
                &&& (b == s@.len() || s@[b as int] == d)
            },
            out@.len() == k,
            forall|j: int| 0 <= j < k ==> #[trigger] out@[j]@ == text(split_on(s@, d)[j]),
        decreases ranges@.len() - k,
    {
        let (a, b) = ranges[k];
        proof {
            let _ = ranges@[k as int];
            lemma_valid_piece(s@, a as int, b as int);
        }
        let piece = vstd::slice::slice_subrange(s, a, b);
        out.push(utf8_string(piece));
        k = k + 1;
    }
    assert(out@.map_values(|x: String| x@) =~= split_on(s@, d).map_values(|p: Seq<u8>| text(p)));
    out
}

/// A piece of `s` between ASCII delimiters, checked to be valid UTF-8.
fn piece_between(s: &[u8], a: usize, b: usize) -> (r: &[u8])
    requires
        valid_utf8(s@),
        a <= b <= s@.len(),
        a == 0 || s@[a - 1] < 0x80,
        b == s@.len() || s@[b as int] < 0x80,
    ensures
        r@ == s@.subrange(a as int, b as int),
        valid_utf8(r@),
{
    proof {
        lemma_valid_piece(s@, a as int, b as int);
    }
    vstd::slice::slice_subrange(s, a, b)
}

/// The first character boundary of valid UTF-8 at or after `from`.
fn next_boundary(s: &[u8], from: usize) -> (k: usize)
    requires
        valid_utf8(s@),
        from <= s@.len(),
    ensures
        k == first_boundary_from(s@, from as int),
        k == s@.len() || is_char_boundary(s@, k as int),
{
    let mut k = from;
    proof {
        vstd::utf8::is_char_boundary_start_end_of_seq(s@);
    }
    while k < s.len() && 0x80 <= s[k] && s[k] <= 0xbf
        invariant
            from <= k <= s@.len(),
            valid_utf8(s@),
            first_boundary_from(s@, k as int) == first_boundary_from(s@, from as int),
        decreases s@.len() - k,
    {
        proof {
            vstd::utf8::is_char_boundary_iff_not_is_continuation_byte(s@, k as int);
        }
        k = k + 1;
    }
    proof {
        if k < s@.len() {
            vstd::utf8::is_char_boundary_iff_not_is_continuation_byte(s@, k as int);
        }
    }
    k
}

impl GdbCommand {
    /// Parse a GDB command from packet data.
    pub fn parse(data: &[u8]) -> (r: Result<Self, CommandError>)
        ensures
            command_result_is(r, spec_parse_command(data@)),
    {
        if data.len() == 0 {
            return Err(CommandError::InvalidFormat(owned("Empty command")));
        }
        if !utf8_check(data) {
            return Err(CommandError::InvalidFormat(owned("Invalid UTF-8")));
        }
        let rest = vstd::slice::slice_subrange(data, 1, data.len());
        assert(rest@ =~= data@.drop_first());
        let c = data[0];
        proof {
            if c < 0x80 {
                lemma_valid_drop_ascii(data@);
            }
        }
        if c == 0x71 {
            Self::parse_query(rest)
        } else if c == 0x51 {
            Self::parse_set(rest)
        } else if c == 0x67 {
            Ok(GdbCommand::ReadRegisters)
        } else if c == 0x47 {
            Self::parse_write_registers(rest)
        } else if c == 0x6d {
            Self::parse_read_memory(rest)
        } else if c == 0x4d {
            Self::parse_write_memory(rest)
        } else if c == 0x63 {
            Self::parse_continue(rest)
        } else if c == 0x73 {
            Self::parse_step(rest)
        } else if c == 0x5a {
            Self::parse_insert_breakpoint(rest)
        } else if c == 0x7a {
            Self::parse_remove_breakpoint(rest)
        } else if c == 0x6b {
            Ok(GdbCommand::Kill)
        } else if c == 0x44 {
            Ok(GdbCommand::Detach)
        } else if c == 0x48 {
            Self::parse_set_thread(rest)
        } else if c == 0x76 {
            Self::parse_v_command(data, rest)
        } else {
            Ok(GdbCommand::Unsupported(utf8_string(data)))
        }
    }

    fn parse_set_thread(data: &[u8]) -> (r: Result<Self, CommandError>)
        requires
            valid_utf8(data@),
        ensures
            command_result_is(r, spec_parse_set_thread(data@)),
    {
        if data.len() == 0 {
            return Err(CommandError::InvalidFormat(owned("H: missing g/c")));
        }
        let mode = data[0];
        if mode != 0x67 && mode != 0x63 {
            let t = utf8_string(data);
            assert(t@.len() > 0);
            let ch = t.as_str().get_char(0);
            let shown = char_debug(ch);
            return Err(CommandError::InvalidFormat(concat_str("H: expected g or c, got ", shown.as_str())));
        }
        let for_continue = mode == 0x63;
        proof {
            lemma_valid_drop_ascii(data@);
        }
        let rest = vstd::slice::slice_subrange(data, 1, data.len());
        assert(rest@ =~= data@.drop_first());
        if rest.len() == 0 {
            return Err(CommandError::InvalidFormat(owned("H: missing thread id")));
        }
        match parse_unsigned(rest, 16, u64::MAX) {
            Some(thread_id) => Ok(GdbCommand::SetThread { for_continue, thread_id }),
            None => Err(CommandError::InvalidHex(utf8_string(rest))),
        }
    }

    fn parse_query(data: &[u8]) -> (r: Result<Self, CommandError>)
        requires
            valid_utf8(data@),
        ensures
            command_result_is(r, spec_parse_query(data@)),
    {
        if starts_with(data, lit_bytes("Supported")) {
            let features = if data.len() > 9 && data[9] == COLON {
                let tail = piece_between(data, 10, data.len());
                split_strings(tail, SEMICOLON)
            } else {
                Vec::new()
            };
            proof {
                if !(data@.len() > 9 && data@[9] == COLON) {
                    assert(features@.map_values(|x: String| x@) =~= Seq::<Seq<char>>::empty());
                }
            }
            Ok(GdbCommand::Query(QueryCommand::Supported(features)))
        } else if bytes_equal(data, lit_bytes("Attached")) {
            Ok(GdbCommand::Query(QueryCommand::Attached))
        } else if bytes_equal(data, lit_bytes("C")) {
            Ok(GdbCommand::Query(QueryCommand::CurrentThread))
        } else if bytes_equal(data, lit_bytes("fThreadInfo")) {
            Ok(GdbCommand::Query(QueryCommand::FirstThreadInfo))
        } else if bytes_equal(data, lit_bytes("sThreadInfo")) {
            Ok(GdbCommand::Query(QueryCommand::SubsequentThreadInfo))
        } else if starts_with(data, lit_bytes("ThreadExtraInfo:")) {
            let p = lit_bytes("ThreadExtraInfo:");
            let id = vstd::slice::slice_subrange(data, p.len(), data.len());
            proof {
                vstd::utf8::encode_utf8_valid_utf8(("ThreadExtraInfo:")@);
                assert(data@ =~= p@ + id@);
                lemma_valid_after_prefix(p@, id@);
                assert(id@ =~= data@.skip(lit("ThreadExtraInfo:").len() as int));
            }
            Ok(GdbCommand::Query(QueryCommand::ThreadExtraInfo(utf8_string(id))))
        } else if bytes_equal(data, lit_bytes("Offsets")) {
            Ok(GdbCommand::Query(QueryCommand::Offsets))
        } else if starts_with(data, lit_bytes("Symbol")) {
            let symbol = if data.len() > 7 {
                let k = next_boundary(data, 7);
                proof {
                    vstd::utf8::is_char_boundary_start_end_of_seq(data@);
                    vstd::utf8::valid_utf8_split(data@, k as int);
                }
                let tail = vstd::slice::slice_subrange(data, k, data.len());
                assert(tail@ =~= data@.skip(k as int));
                Some(utf8_string(tail))
            } else {
                None
            };
            Ok(GdbCommand::Query(QueryCommand::Symbol(symbol)))
        } else {
            Ok(GdbCommand::Query(QueryCommand::Other(utf8_string(data))))
        }
    }

    fn parse_set(data: &[u8]) -> (r: Result<Self, CommandError>)
        requires
            valid_utf8(data@),
        ensures
            command_result_is(r, spec_parse_set(data@)),
    {
        match position_of(data, COLON) {
            Some(pos) => {
                proof {
                    lemma_find_byte(data@, COLON);
                    assert(find_byte(data@, COLON) == Some(pos as int));
                    assert(pos < data@.len());
                }
                let n = data.len();
                let key = piece_between(data, 0, pos);
                let value = piece_between(data, pos + 1, n);
                assert(key@ =~= data@.take(pos as int));
                assert(value@ =~= data@.skip(pos + 1));
                Ok(GdbCommand::SetValue(utf8_string(key), utf8_string(value)))
            },
            None => Err(CommandError::InvalidFormat(owned("Set command missing ':'"))),
        }
    }

    fn parse_write_registers(data: &[u8]) -> (r: Result<Self, CommandError>)
        requires
            valid_utf8(data@),
        ensures
            command_result_is(r, spec_parse_write_registers(data@)),
    {
        match hex_decode(data) {
            Ok(bytes) => Ok(GdbCommand::WriteRegisters(bytes)),
            Err(_) => Err(CommandError::InvalidHex(utf8_string(data))),
        }
    }

    fn parse_read_memory(data: &[u8]) -> (r: Result<Self, CommandError>)
        requires
            valid_utf8(data@),
        ensures
            command_result_is(r, spec_parse_read_memory(data@)),
    {
        let parts = split_ranges(data, COMMA);
        if parts.len() != 2 {
            return Err(CommandError::InvalidFormat(owned("Expected addr,length")));
        }
        let (a0, b0) = parts[0];
        let (a1, b1) = parts[1];
        proof {
            let _ = parts@[0];
            let _ = parts@[1];
        }
        let p0 = piece_between(data, a0, b0);
        let p1 = piece_between(data, a1, b1);
        let addr = match parse_unsigned(p0, 16, u64::MAX) {
            Some(a) => a,
            None => return Err(CommandError::InvalidHex(utf8_string(p0))),
        };
        let len = match parse_unsigned(p1, 16, usize::MAX as u64) {
            Some(l) => l as usize,
            None => return Err(CommandError::InvalidHex(utf8_string(p1))),
        };
        Ok(GdbCommand::ReadMemory { addr, len })
    }

    fn parse_write_memory(data: &[u8]) -> (r: Result<Self, CommandError>)
        requires
            valid_utf8(data@),
        ensures
            command_result_is(r, spec_parse_write_memory(data@)),
    {
        let parts = split_ranges(data, COLON);
        if parts.len() != 2 {
            return Err(CommandError::InvalidFormat(owned("Expected addr,length:data")));
        }
        let (a0, b0) = parts[0];
        let (a1, b1) = parts[1];
        proof {
            let _ = parts@[0];
            let _ = parts@[1];
        }
        let head = piece_between(data, a0, b0);
        let hex = piece_between(data, a1, b1);
        let addr_len = split_ranges(head, COMMA);
        if addr_len.len() != 2 {
            return Err(CommandError::InvalidFormat(owned("Expected addr,length")));
        }
        let (c0, d0) = addr_len[0];
        proof {
            let _ = addr_len@[0];
        }
        let addr_text = piece_between(head, c0, d0);
        let addr = match parse_unsigned(addr_text, 16, u64::MAX) {
            Some(a) => a,
            None => return Err(CommandError::InvalidHex(utf8_string(addr_text))),
        };
        match hex_decode(hex) {
            Ok(bytes) => Ok(GdbCommand::WriteMemory { addr, data: bytes }),
            Err(_) => Err(CommandError::InvalidHex(utf8_string(hex))),
        }
    }

    fn parse_opt_addr(data: &[u8]) -> (r: Result<Option<u64>, CommandError>)
        requires
            valid_utf8(data@),
        ensures
            opt_addr_result_is(r, spec_parse_opt_addr(data@)),
    {
        if data.len() == 0 {
            Ok(None)
        } else {
            match parse_unsigned(data, 16, u64::MAX) {
                Some(a) => Ok(Some(a)),
                None => Err(CommandError::InvalidHex(utf8_string(data))),
            }
        }
    }

    fn parse_continue(data: &[u8]) -> (r: Result<Self, CommandError>)
        requires
            valid_utf8(data@),
        ensures
            command_result_is(r, match spec_parse_opt_addr(data@) {
                Ok(addr) => Ok(CommandView::Continue { addr }),
                Err(e) => Err(e),
            }),
    {
        match Self::parse_opt_addr(data) {
            Ok(addr) => Ok(GdbCommand::Continue { addr }),
            Err(e) => Err(e),
        }
    }

    fn parse_step(data: &[u8]) -> (r: Result<Self, CommandError>)
        requires
            valid_utf8(data@),
        ensures
            command_result_is(r, match spec_parse_opt_addr(data@) {
                Ok(addr) => Ok(CommandView::Step { addr }),
                Err(e) => Err(e),
            }),
    {
        match Self::parse_opt_addr(data) {
            Ok(addr) => Ok(GdbCommand::Step { addr }),
            Err(e) => Err(e),
        }
    }

    fn parse_insert_breakpoint(data: &[u8]) -> (r: Result<Self, CommandError>)
        requires
            valid_utf8(data@),
        ensures
            command_result_is(r, spec_parse_breakpoint(data@, true)),
    {
        Self::parse_breakpoint_command(data, true)
    }

    fn parse_remove_breakpoint(data: &[u8]) -> (r: Result<Self, CommandError>)
        requires
            valid_utf8(data@),
        ensures
            command_result_is(r, spec_parse_breakpoint(data@, false)),
    {
        Self::parse_breakpoint_command(data, false)
    }

    fn parse_breakpoint_command(data: &[u8], insert: bool) -> (r: Result<Self, CommandError>)
        requires
            valid_utf8(data@),
        ensures
            command_result_is(r, spec_parse_breakpoint(data@, insert)),
    {
        let parts = split_ranges(data, COMMA);
        if parts.len() != 3 {
            return Err(CommandError::InvalidFormat(owned("Expected type,addr,kind")));
        }
        let (a0, b0) = parts[0];
        let (a1, b1) = parts[1];
        let (a2, b2) = parts[2];
        proof {
            let _ = parts@[0];
            let _ = parts@[1];
            let _ = parts@[2];
        }
        let p0 = piece_between(data, a0, b0);
        let p1 = piece_between(data, a1, b1);
        let p2 = piece_between(data, a2, b2);
        let code = match parse_unsigned(p0, 10, 255) {
            Some(v) => v as u8,
            None => return Err(CommandError::InvalidFormat(utf8_string(p0))),
        };
        let bp_type = match BreakpointType::from_u8(code) {
            Ok(t) => t,
            Err(e) => return Err(e),
        };
        let addr = match parse_unsigned(p1, 16, u64::MAX) {
            Some(a) => a,
            None => return Err(CommandError::InvalidHex(utf8_string(p1))),
        };
        let kind = match parse_unsigned(p2, 16, u32::MAX as u64) {
            Some(k) => k as u32,
            None => return Err(CommandError::InvalidHex(utf8_string(p2))),
        };
        if insert {
            Ok(GdbCommand::InsertBreakpoint { bp_type, addr, kind })
        } else {
            Ok(GdbCommand::RemoveBreakpoint { bp_type, addr, kind })
        }
    }

    fn parse_v_command(whole: &[u8], data: &[u8]) -> (r: Result<Self, CommandError>)
        requires
            valid_utf8(whole@),
            whole@.len() > 0,
            data@ == whole@.drop_first(),
        ensures
            command_result_is(r, if has_prefix(data@, lit("Cont")) {
                Ok(CommandView::VCont(VContAction::Continue))
            } else {
                Ok(CommandView::Unsupported(text(whole@)))
            }),
    {
        if starts_with(data, lit_bytes("Cont")) {
            Ok(GdbCommand::VCont(VContAction::Continue))
        } else {
            Ok(GdbCommand::Unsupported(utf8_string(whole)))
        }
    }
}

} // verus!
