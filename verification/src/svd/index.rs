//! Address → peripheral.register mapping built from a device description.
use vstd::prelude::*;
use crate::deps::io_error_text;
use crate::svd::parsed::{
    opt_array_view, svd_default_size, svd_default_size_of, svd_field, svd_field_count, svd_field_count_of, svd_field_of,
    svd_parse, svd_parses, svd_peripheral_array, svd_peripheral_array_of, svd_peripheral_count, svd_peripheral_count_of,
    svd_peripheral_head, svd_peripheral_head_of, svd_register, svd_register_count, svd_register_count_of, svd_register_of,
    ParsedSvd,
};
use crate::text::{append_to, concat_str, decimal_string, decimal_text, owned, str_is, text_starts_with};

verus! {

/// Errors loading an SVD file.
#[derive(Debug)]
pub enum SvdLoadError {
    /// The file could not be read.
    Io(std::io::Error),
    /// The XML could not be parsed as SVD.
    Parse(String),
}

/// The text of an SVD load error; for a read failure, the start of it
/// (the operating system's message follows).
pub open spec fn svd_error_text(e: SvdLoadError) -> Seq<char> {
    match e {
        SvdLoadError::Io(_) => "I/O error reading SVD: "@,
        SvdLoadError::Parse(s) => "SVD parse error: "@ + s@,
    }
}

impl SvdLoadError {
    /// The human-readable message of the error.
    pub fn message(&self) -> (r: String)
        ensures
            self is Parse ==> r@ == svd_error_text(*self),
            text_starts_with(r@, svd_error_text(*self)),
    {
        let r = match self {
            SvdLoadError::Io(e) => concat_str("I/O error reading SVD: ", io_error_text(e).as_str()),
            SvdLoadError::Parse(s) => concat_str("SVD parse error: ", s.as_str()),
        };
        proof {
            assert(r@.take(svd_error_text(*self).len() as int) =~= svd_error_text(*self));
        }
        r
    }
}

/// An array of instances: one per name, `dim_increment` apart (in bytes for
/// registers and peripherals, in bits for fields).
#[derive(Debug, Clone)]
pub struct ArrayLayout {
    /// Distance between instances.
    pub dim_increment: u32,
    /// The instance names, in order.
    pub names: Vec<String>,
}

/// A register of a peripheral, as the device description gives it.
#[derive(Debug, Clone)]
pub struct RegisterLayout {
    pub name: String,
    /// Offset from the peripheral's base address.
    pub address_offset: u32,
    /// Width in bits, when the register states it.
    pub size: Option<u32>,
    /// Set for a register array.
    pub array: Option<ArrayLayout>,
    /// The register's bit fields.
    pub fields: Vec<FieldLayout>,
}

/// A bit field of a register.
#[derive(Debug, Clone)]
pub struct FieldLayout {
    pub name: String,
    /// Position of the field's least significant bit in the register.
    pub bit_offset: u32,
    /// Width of the field in bits.
    pub bit_width: u32,
    /// Set for a field array.
    pub array: Option<ArrayLayout>,
}

/// A peripheral, or an array of peripherals, of a device description.
#[derive(Debug, Clone)]
pub struct PeripheralLayout {
    pub name: String,
    pub base_address: u64,
    /// The peripheral this one is derived from, if any.
    pub derived_from: Option<String>,
    /// All registers (clusters flattened), or `None` when the peripheral lists none.
    pub registers: Option<Vec<RegisterLayout>>,
    /// The peripheral's default register width in bits, if stated.
    pub default_size: Option<u32>,
    /// Set for a peripheral array.
    pub array: Option<ArrayLayout>,
}

/// The parts of a device description that the register map is built from.
#[derive(Debug, Clone)]
pub struct DeviceLayout {
    /// The device's default register width in bits, if stated.
    pub default_size: Option<u32>,
    pub peripherals: Vec<PeripheralLayout>,
}

/// Model of an [`ArrayLayout`].
pub struct ArrayView {
    pub dim_increment: u32,
    pub names: Seq<Seq<char>>,
}

/// Model of a [`FieldLayout`].
pub struct FieldView {
    pub name: Seq<char>,
    pub bit_offset: u32,
    pub bit_width: u32,
    pub array: Option<ArrayView>,
}

/// Model of a [`RegisterLayout`].
pub struct RegisterView {
    pub name: Seq<char>,
    pub address_offset: u32,
    pub size: Option<u32>,
    pub array: Option<ArrayView>,
    pub fields: Seq<FieldView>,
}

/// Model of a [`PeripheralLayout`].
pub struct PeripheralView {
    pub name: Seq<char>,
    pub base_address: u64,
    pub derived_from: Option<Seq<char>>,
    pub registers: Option<Seq<RegisterView>>,
    pub default_size: Option<u32>,
    pub array: Option<ArrayView>,
}

/// Model of a [`DeviceLayout`].
pub struct LayoutView {
    pub default_size: Option<u32>,
    pub peripherals: Seq<PeripheralView>,
}

/// The texts of a list of strings.
pub open spec fn names_view(v: Seq<String>) -> Seq<Seq<char>> {
    v.map_values(|s: String| s@)
}

/// Model of an optional array.
pub open spec fn array_view(a: Option<ArrayLayout>) -> Option<ArrayView> {
    match a {
        Some(x) => Some(x@),
        None => None,
    }
}

impl View for ArrayLayout {
    type V = ArrayView;

    open spec fn view(&self) -> ArrayView {
        ArrayView { dim_increment: self.dim_increment, names: names_view(self.names@) }
    }
}

impl View for FieldLayout {
    type V = FieldView;

    open spec fn view(&self) -> FieldView {
        FieldView {
            name: self.name@,
            bit_offset: self.bit_offset,
            bit_width: self.bit_width,
            array: array_view(self.array),
        }
    }
}

/// Models of a list of fields.
pub open spec fn fields_view(v: Seq<FieldLayout>) -> Seq<FieldView> {
    v.map_values(|f: FieldLayout| f@)
}

impl View for RegisterLayout {
    type V = RegisterView;

    open spec fn view(&self) -> RegisterView {
        RegisterView {
            name: self.name@,
            address_offset: self.address_offset,
            size: self.size,
            array: array_view(self.array),
            fields: fields_view(self.fields@),
        }
    }
}

/// Models of a list of registers.
pub open spec fn registers_view(v: Seq<RegisterLayout>) -> Seq<RegisterView> {
    v.map_values(|r: RegisterLayout| r@)
}

impl View for PeripheralLayout {
    type V = PeripheralView;

    open spec fn view(&self) -> PeripheralView {
        PeripheralView {
            name: self.name@,
            base_address: self.base_address,
            derived_from: match self.derived_from {
                Some(s) => Some(s@),
                None => None,
            },
            registers: match self.registers {
                Some(v) => Some(registers_view(v@)),
                None => None,
            },
            default_size: self.default_size,
            array: array_view(self.array),
        }
    }
}

/// Models of a list of peripherals.
pub open spec fn peripherals_view(v: Seq<PeripheralLayout>) -> Seq<PeripheralView> {
    v.map_values(|p: PeripheralLayout| p@)
}

impl View for DeviceLayout {
    type V = LayoutView;

    open spec fn view(&self) -> LayoutView {
        LayoutView { default_size: self.default_size, peripherals: peripherals_view(self.peripherals@) }
    }
}

/// One register address range `[start, end)` and its label.
pub type Span = (u64, u64, String);

/// Parsed SVD with range lookup for memory access annotation.
#[derive(Debug, Clone)]
pub struct SvdIndex {
    /// Sorted by start; half-open `[start, end)`.
    spans: Vec<Span>,
    /// The bytes each bit field covers, labelled with the field's name, in
    /// the order of the device description.
    fields: Vec<Span>,
}

/// Spec view of spans.
pub open spec fn spans_view(v: Seq<Span>) -> Seq<(u64, u64, Seq<char>)> {
    v.map_values(|s: Span| (s.0, s.1, s.2@))
}

/// The default width that applies in a peripheral: its own, else the device's.
pub open spec fn merged_size(device: Option<u32>, peripheral: Option<u32>) -> Option<u32> {
    if peripheral is Some {
        peripheral
    } else {
        device
    }
}

/// The default register width in a peripheral is the peripheral's own when
/// it states one, and the device's otherwise; a register's own width beats
/// both, and with none stated a register is 32 bits wide.
pub proof fn lemma_register_width_precedence(size: Option<u32>, device: Option<u32>, peripheral: Option<u32>)
    ensures
        peripheral matches Some(w) ==> merged_size(device, peripheral) == Some(w),
        peripheral is None ==> merged_size(device, peripheral) == device,
        size matches Some(s) ==> reg_bits_spec(size, merged_size(device, peripheral)) == s,
        size is None ==> (peripheral matches Some(w) ==> reg_bits_spec(size, merged_size(device, peripheral)) == w),
        size is None && peripheral is None ==> (device matches Some(w) ==> reg_bits_spec(
            size,
            merged_size(device, peripheral),
        ) == w),
        size is None && peripheral is None && device is None ==> reg_bits_spec(size, merged_size(device, peripheral))
            == 32,
{
}

/// A register's width in bits: its own, else the default, else 32.
pub open spec fn reg_bits_spec(size: Option<u32>, merged: Option<u32>) -> u32 {
    match size {
        Some(s) => s,
        None => match merged {
            Some(m) => m,
            None => 32,
        },
    }
}

/// Bytes covered by a register of `bits` bits: rounded up, at least one.
pub open spec fn bytes_of_bits(bits: u32) -> int {
    let b = (bits as int + 7) / 8;
    if b < 1 {
        1
    } else {
        b
    }
}

/// A register covers its bits rounded up to whole bytes, and at least one
/// byte: the fewest bytes whose bits hold them all.
pub proof fn lemma_bytes_of_bits(bits: u32)
    ensures
        bytes_of_bits(bits) >= 1,
        bytes_of_bits(bits) * 8 >= bits,
        bits > 0 ==> (bytes_of_bits(bits) - 1) * 8 < bits,
{
}

/// `Peripheral.REGISTER`.
pub open spec fn span_label(peripheral: Seq<char>, register: Seq<char>) -> Seq<char> {
    peripheral + "."@ + register
}

/// The spans of one register (one per instance for an array).
pub open spec fn register_spans(base: u64, per: Seq<char>, r: RegisterView, merged: Option<u32>) -> Seq<
    (u64, u64, Seq<char>),
> {
    let bytes = bytes_of_bits(reg_bits_spec(r.size, merged));
    match r.array {
        None => seq![
            ((base + r.address_offset) as u64, (base + r.address_offset + bytes) as u64, span_label(per, r.name)),
        ],
        Some(a) => Seq::new(
            a.names.len(),
            |i: int|
                (
                    (base + r.address_offset + i * a.dim_increment) as u64,
                    (base + r.address_offset + i * a.dim_increment + bytes) as u64,
                    span_label(per, a.names[i]),
                ),
        ),
    }
}

/// The end of instance `i` of a register array.
pub open spec fn instance_end(base: u64, offset: u32, i: int, increment: u32, bytes: int) -> int {
    base + offset + i * increment + bytes
}

/// Every address computed for the register fits in 64 bits.
pub open spec fn register_fits(base: u64, r: RegisterView, merged: Option<u32>) -> bool {
    let bytes = bytes_of_bits(reg_bits_spec(r.size, merged));
    match r.array {
        None => base + r.address_offset + bytes <= u64::MAX,
        Some(a) => forall|i: int|
            0 <= i < a.names.len() ==> #[trigger] instance_end(base, r.address_offset, i, a.dim_increment, bytes)
                <= u64::MAX,
    }
}

/// The spans of a list of registers, in order.
pub open spec fn registers_spans(base: u64, per: Seq<char>, regs: Seq<RegisterView>, merged: Option<u32>) -> Seq<
    (u64, u64, Seq<char>),
>
    decreases regs.len(),
{
    if regs.len() == 0 {
        Seq::empty()
    } else {
        registers_spans(base, per, regs.drop_last(), merged) + register_spans(base, per, regs.last(), merged)
    }
}

/// The names of a peripheral's instances: the array's names, or its own.
pub open spec fn instance_names(p: PeripheralView) -> Seq<Seq<char>> {
    match p.array {
        Some(a) => a.names,
        None => seq![p.name],
    }
}

/// The base address of instance `i` of a peripheral.
pub open spec fn instance_base(p: PeripheralView, i: int) -> int {
    match p.array {
        Some(a) => p.base_address + i * a.dim_increment,
        None => p.base_address as int,
    }
}

/// The spans of the first `n` instances of a peripheral; a peripheral that
/// lists no registers (such as one derived from another) has none.
pub open spec fn instances_spans(device: Option<u32>, p: PeripheralView, n: int) -> Seq<(u64, u64, Seq<char>)>
    decreases n,
{
    if n <= 0 {
        Seq::empty()
    } else {
        instances_spans(device, p, n - 1) + match p.registers {
            Some(regs) => registers_spans(
                instance_base(p, n - 1) as u64,
                instance_names(p)[n - 1],
                regs,
                merged_size(device, p.default_size),
            ),
            None => Seq::empty(),
        }
    }
}

/// The spans of a peripheral, instance by instance.
pub open spec fn peripheral_spans(device: Option<u32>, p: PeripheralView) -> Seq<(u64, u64, Seq<char>)> {
    instances_spans(device, p, instance_names(p).len() as int)
}

/// The spans of all peripherals, in order, before sorting.
pub open spec fn layout_spans(device: Option<u32>, ps: Seq<PeripheralView>) -> Seq<(u64, u64, Seq<char>)>
    decreases ps.len(),
{
    if ps.len() == 0 {
        Seq::empty()
    } else {
        layout_spans(device, ps.drop_last()) + peripheral_spans(device, ps.last())
    }
}

/// The bytes `[lo, hi)` of a register instance `[st, en)` that a field with
/// this bit offset and width covers: its bits rounded out to whole bytes (a
/// zero-width field counts as one bit), cut off at the end of the register.
pub open spec fn field_span(st: u64, en: u64, name: Seq<char>, bit_offset: int, bit_width: u32) -> (
    u64,
    u64,
    Seq<char>,
) {
    let lo = st + bit_offset / 8;
    let width = if bit_width == 0 { 1 } else { bit_width as int };
    let hi = st + (bit_offset + width + 7) / 8;
    ((if lo > en { en as int } else { lo }) as u64, (if hi > en { en as int } else { hi }) as u64, name)
}

/// The spans of one field (one per instance for an array) in a register
/// instance `[st, en)`.
pub open spec fn field_spans(st: u64, en: u64, f: FieldView) -> Seq<(u64, u64, Seq<char>)> {
    match f.array {
        None => seq![field_span(st, en, f.name, f.bit_offset as int, f.bit_width)],
        Some(a) => Seq::new(
            a.names.len(),
            |i: int| field_span(st, en, a.names[i], f.bit_offset + i * a.dim_increment, f.bit_width),
        ),
    }
}

/// The field spans of a list of fields in one register instance.
pub open spec fn fields_in(st: u64, en: u64, fs: Seq<FieldView>) -> Seq<(u64, u64, Seq<char>)>
    decreases fs.len(),
{
    if fs.len() == 0 {
        Seq::empty()
    } else {
        fields_in(st, en, fs.drop_last()) + field_spans(st, en, fs.last())
    }
}

/// The field spans of the given register instances, in order.
pub open spec fn fields_of_spans(spans: Seq<(u64, u64, Seq<char>)>, fs: Seq<FieldView>) -> Seq<
    (u64, u64, Seq<char>),
>
    decreases spans.len(),
{
    if spans.len() == 0 {
        Seq::empty()
    } else {
        fields_of_spans(spans.drop_last(), fs) + fields_in(spans.last().0, spans.last().1, fs)
    }
}

/// The field spans of one register, instance by instance.
pub open spec fn register_field_spans(base: u64, per: Seq<char>, r: RegisterView, merged: Option<u32>) -> Seq<
    (u64, u64, Seq<char>),
> {
    fields_of_spans(register_spans(base, per, r, merged), r.fields)
}

/// The field spans of a list of registers, in order.
pub open spec fn registers_field_spans(
    base: u64,
    per: Seq<char>,
    regs: Seq<RegisterView>,
    merged: Option<u32>,
) -> Seq<(u64, u64, Seq<char>)>
    decreases regs.len(),
{
    if regs.len() == 0 {
        Seq::empty()
    } else {
        registers_field_spans(base, per, regs.drop_last(), merged) + register_field_spans(
            base,
            per,
            regs.last(),
            merged,
        )
    }
}

/// The field spans of the first `n` instances of a peripheral.
pub open spec fn instances_field_spans(device: Option<u32>, p: PeripheralView, n: int) -> Seq<
    (u64, u64, Seq<char>),
>
    decreases n,
{
    if n <= 0 {
        Seq::empty()
    } else {
        instances_field_spans(device, p, n - 1) + match p.registers {
            Some(regs) => registers_field_spans(
                instance_base(p, n - 1) as u64,
                instance_names(p)[n - 1],
                regs,
                merged_size(device, p.default_size),
            ),
            None => Seq::empty(),
        }
    }
}

/// The field spans of a peripheral.
pub open spec fn peripheral_field_spans(device: Option<u32>, p: PeripheralView) -> Seq<(u64, u64, Seq<char>)> {
    instances_field_spans(device, p, instance_names(p).len() as int)
}

/// The field spans of all peripherals, in order.
pub open spec fn layout_field_spans(device: Option<u32>, ps: Seq<PeripheralView>) -> Seq<(u64, u64, Seq<char>)>
    decreases ps.len(),
{
    if ps.len() == 0 {
        Seq::empty()
    } else {
        layout_field_spans(device, ps.drop_last()) + peripheral_field_spans(device, ps.last())
    }
}

/// Every address that instance `i` of the peripheral gives fits in 64 bits.
pub open spec fn instance_fits(device: Option<u32>, p: PeripheralView, i: int) -> bool {
    &&& instance_base(p, i) <= u64::MAX
    &&& match p.registers {
        Some(regs) => forall|j: int|
            0 <= j < regs.len() ==> register_fits(
                instance_base(p, i) as u64,
                #[trigger] regs[j],
                merged_size(device, p.default_size),
            ),
        None => true,
    }
}

/// Every address the peripheral gives fits in 64 bits.
pub open spec fn peripheral_fits(device: Option<u32>, p: PeripheralView) -> bool {
    forall|i: int| 0 <= i < instance_names(p).len() ==> #[trigger] instance_fits(device, p, i)
}

/// Every address the layout gives fits in 64 bits.
pub open spec fn layout_fits(l: LayoutView) -> bool {
    forall|i: int| 0 <= i < l.peripherals.len() ==> peripheral_fits(l.default_size, #[trigger] l.peripherals[i])
}

/// Where a span with start `k` goes in a sorted list: after every span whose
/// start is not greater.
pub open spec fn insert_pos(s: Seq<(u64, u64, Seq<char>)>, k: u64) -> int
    decreases s.len(),
{
    if s.len() == 0 {
        0
    } else if s[0].0 > k {
        0
    } else {
        1 + insert_pos(s.drop_first(), k)
    }
}

/// Stable sort by start: spans with equal starts keep their order.
pub open spec fn sort_by_start(s: Seq<(u64, u64, Seq<char>)>) -> Seq<(u64, u64, Seq<char>)>
    decreases s.len(),
{
    if s.len() == 0 {
        Seq::empty()
    } else {
        let sorted = sort_by_start(s.drop_last());
        sorted.insert(insert_pos(sorted, s.last().0), s.last())
    }
}

/// Spans in order of their start addresses.
pub open spec fn sorted_by_start(s: Seq<(u64, u64, Seq<char>)>) -> bool {
    forall|i: int, j: int| 0 <= i <= j < s.len() ==> s[i].0 <= s[j].0
}

/// In a sorted list, the spans before `insert_pos` start at or below `k`
/// and the ones from it on start above `k`.
proof fn lemma_insert_pos(s: Seq<(u64, u64, Seq<char>)>, k: u64)
    requires
        sorted_by_start(s),
    ensures
        0 <= insert_pos(s, k) <= s.len(),
        forall|i: int| 0 <= i < insert_pos(s, k) ==> s[i].0 <= k,
        forall|i: int| insert_pos(s, k) <= i < s.len() ==> s[i].0 > k,
    decreases s.len(),
{
    if s.len() > 0 && s[0].0 <= k {
        let t = s.drop_first();
        assert(sorted_by_start(t)) by {
            assert forall|i: int, j: int| 0 <= i <= j < t.len() implies t[i].0 <= t[j].0 by {
                assert(t[i] == s[i + 1] && t[j] == s[j + 1]);
            }
        }
        lemma_insert_pos(t, k);
        assert forall|i: int| 1 <= i < s.len() implies s[i] == t[i - 1] by {}
    }
}

/// The index order: sorting by start yields the same spans, each as often
/// as before, in order of their start addresses.
pub proof fn lemma_sort_by_start(s: Seq<(u64, u64, Seq<char>)>)
    ensures
        sorted_by_start(sort_by_start(s)),
        sort_by_start(s).to_multiset() == s.to_multiset(),
    decreases s.len(),
{
    broadcast use vstd::seq_lib::group_to_multiset_ensures;
    if s.len() > 0 {
        let x = s.last();
        let sorted = sort_by_start(s.drop_last());
        lemma_sort_by_start(s.drop_last());
        lemma_insert_pos(sorted, x.0);
        let p = insert_pos(sorted, x.0);
        let r = sorted.insert(p, x);
        assert(r.len() == sorted.len() + 1);
        assert forall|i: int, j: int| 0 <= i <= j < r.len() implies r[i].0 <= r[j].0 by {
            if i < p {
                assert(r[i] == sorted[i]);
            } else if i > p {
                assert(r[i] == sorted[i - 1]);
            }
            if j < p {
                assert(r[j] == sorted[j]);
            } else if j > p {
                assert(r[j] == sorted[j - 1]);
            }
        }
        assert(r.remove(p) =~= sorted);
        assert(r[p] == x);
        assert(s.drop_last().push(x) =~= s);
        assert(r.to_multiset().remove(x) == sorted.to_multiset());
        assert(r.to_multiset().count(x) > 0) by {
            assert(r.contains(x));
        }
        assert(r.to_multiset() =~= sorted.to_multiset().insert(x));
    }
}

/// The label of the first span that contains `addr`.
pub open spec fn first_containing(s: Seq<(u64, u64, Seq<char>)>, addr: u64) -> Option<Seq<char>>
    decreases s.len(),
{
    if s.len() == 0 {
        None
    } else if s[0].0 <= addr && addr < s[0].1 {
        Some(s[0].2)
    } else {
        first_containing(s.drop_first(), addr)
    }
}

/// The note for an access of `len` bytes at `addr`: the registers holding the
/// first and the last byte (the end saturating at the top of the address
/// space), or nothing when either byte is in no register.
pub open spec fn register_note(s: Seq<(u64, u64, Seq<char>)>, addr: u64, len: u64) -> Option<Seq<char>> {
    let end = if addr + len > u64::MAX { u64::MAX as int } else { addr + len };
    let last = if end >= 1 { (end - 1) as u64 } else { 0u64 };
    if len == 0 {
        None
    } else {
        match (first_containing(s, addr), first_containing(s, last)) {
            (Some(a), Some(b)) => if a == b {
                Some(a + " ("@ + decimal_text(len as nat) + " bytes)"@)
            } else {
                Some(a + " .. "@ + b + " ("@ + decimal_text(len as nat) + " bytes)"@)
            },
            _ => None,
        }
    }
}

/// The last byte of an access of `len` bytes at `addr` (the end saturating
/// at the top of the address space).
pub open spec fn access_last(addr: u64, len: u64) -> u64 {
    let end = if addr + len > u64::MAX { u64::MAX as int } else { addr + len };
    if end >= 1 { (end - 1) as u64 } else { 0u64 }
}

/// Whether a span that is not empty holds a byte of `[first, last]`.
pub open spec fn touches(f: (u64, u64, Seq<char>), first: u64, last: u64) -> bool {
    f.0 < f.1 && f.0 <= last && first < f.1
}

/// The names of the fields that hold a byte of `[first, last]`, in order.
pub open spec fn touched_names(fs: Seq<(u64, u64, Seq<char>)>, first: u64, last: u64) -> Seq<Seq<char>>
    decreases fs.len(),
{
    if fs.len() == 0 {
        Seq::empty()
    } else if touches(fs.last(), first, last) {
        touched_names(fs.drop_last(), first, last).push(fs.last().2)
    } else {
        touched_names(fs.drop_last(), first, last)
    }
}

/// Names joined with `, `.
pub open spec fn join_names(ns: Seq<Seq<char>>) -> Seq<char>
    decreases ns.len(),
{
    if ns.len() == 0 {
        Seq::empty()
    } else if ns.len() == 1 {
        ns[0]
    } else {
        join_names(ns.drop_last()) + ", "@ + ns.last()
    }
}

/// The note for an access: the register note, followed by the fields that
/// the access touches (`fields: A, B`) when there are any.
pub open spec fn spec_annotate(
    s: Seq<(u64, u64, Seq<char>)>,
    fields: Seq<(u64, u64, Seq<char>)>,
    addr: u64,
    len: u64,
) -> Option<Seq<char>> {
    match register_note(s, addr, len) {
        Some(n) => {
            let t = touched_names(fields, addr, access_last(addr, len));
            if t.len() == 0 {
                Some(n)
            } else {
                Some(n + " fields: "@ + join_names(t))
            }
        },
        None => None,
    }
}

/// Spec view of an optional string slice.
pub open spec fn opt_str(o: Option<&str>) -> Option<Seq<char>> {
    match o {
        Some(s) => Some(s@),
        None => None,
    }
}

/// Spec view of an optional string.
pub open spec fn opt_string(o: Option<String>) -> Option<Seq<char>> {
    match o {
        Some(s) => Some(s@),
        None => None,
    }
}

/// Width in bits of a register.
fn reg_bits(size: Option<u32>, merged: Option<u32>) -> (r: u32)
    ensures
        r == reg_bits_spec(size, merged),
        size matches Some(s) ==> r == s,
        size is None ==> (merged matches Some(m) ==> r == m),
        size is None && merged is None ==> r == 32,
{
    match size {
        Some(s) => s,
        None => match merged {
            Some(m) => m,
            None => 32,
        },
    }
}

/// The default width in a peripheral.
fn merge_reg_props(device: Option<u32>, peripheral: Option<u32>) -> (r: Option<u32>)
    ensures
        r == merged_size(device, peripheral),
        peripheral is Some ==> r == peripheral,
        peripheral is None ==> r == device,
{
    if peripheral.is_some() {
        peripheral
    } else {
        device
    }
}

/// The span of a field with this bit offset and width in `[st, en)`.
fn field_span_of(st: u64, en: u64, name: &str, bit_offset: u128, bit_width: u32) -> (s: Span)
    requires
        st <= en,
        bit_offset < 0x10_0000_0000_0000_0000_0000_0000u128,
    ensures
        (s.0, s.1, s.2@) == field_span(st, en, name@, bit_offset as int, bit_width),
{
    let width: u128 = if bit_width == 0 { 1 } else { bit_width as u128 };
    let lo_off: u128 = bit_offset / 8;
    let hi_off: u128 = (bit_offset + width + 7) / 8;
    let room: u128 = (en - st) as u128;
    let lo: u64 = if lo_off > room { en } else { st + lo_off as u64 };
    let hi: u64 = if hi_off > room { en } else { st + hi_off as u64 };
    (lo, hi, owned(name))
}

/// Append the field spans of one register instance `[st, en)`.
fn push_field_spans(st: u64, en: u64, fs: &Vec<FieldLayout>, fout: &mut Vec<Span>)
    requires
        st <= en,
    ensures
        spans_view(final(fout)@) == spans_view(old(fout)@) + fields_in(st, en, fields_view(fs@)),
{
    let ghost f0 = spans_view(fout@);
    let ghost fv = fields_view(fs@);
    let mut k: usize = 0;
    while k < fs.len()
        invariant
            k <= fs@.len(),
            st <= en,
            fv == fields_view(fs@),
            spans_view(fout@) == f0 + fields_in(st, en, fv.take(k as int)),
        decreases fs@.len() - k,
    {
        let f = &fs[k];
        let ghost before = spans_view(fout@);
        let ghost fsp = field_spans(st, en, f@);
        assert(fv.take(k + 1).drop_last() =~= fv.take(k as int));
        assert(fv.take(k + 1).last() == f@);
        match &f.array {
            None => {
                let s = field_span_of(st, en, f.name.as_str(), f.bit_offset as u128, f.bit_width);
                fout.push(s);
                assert(spans_view(fout@) =~= before + fsp);
            },
            Some(a) => {
                let mut i: usize = 0;
                while i < a.names.len()
                    invariant
                        i <= a.names@.len(),
                        st <= en,
                        f.array == Some(*a),
                        fsp == field_spans(st, en, f@),
                        spans_view(fout@) == before + fsp.take(i as int),
                    decreases a.names@.len() - i,
                {
                    assert((i as int) * (a.dim_increment as int) < 0x1_0000_0000_0000_0000_0000_0000) by (nonlinear_arith)
                        requires
                            i <= usize::MAX,
                            usize::MAX <= u64::MAX,
                            a.dim_increment <= u32::MAX,
                    ;
                    let bo: u128 = f.bit_offset as u128 + (i as u128) * (a.dim_increment as u128);
                    let s = field_span_of(st, en, a.names[i].as_str(), bo, f.bit_width);
                    let ghost b2 = spans_view(fout@);
                    assert(names_view(a.names@)[i as int] == a.names@[i as int]@);
                    assert(fsp[i as int] == (s.0, s.1, s.2@));
                    fout.push(s);
                    assert(fsp.take(i + 1) =~= fsp.take(i as int).push(fsp[i as int]));
                    assert(spans_view(fout@) =~= b2.push((s.0, s.1, s.2@)));
                    i = i + 1;
                }
                assert(fsp.take(i as int) =~= fsp);
            },
        }
        k = k + 1;
    }
    assert(fv.take(k as int) =~= fv);
}

/// Append the spans of one register.
fn collect_register_spans(
    pbase: u64,
    per_name: &str,
    reg: &RegisterLayout,
    merged: Option<u32>,
    out: &mut Vec<Span>,
    fout: &mut Vec<Span>,
)
    requires
        register_fits(pbase, reg@, merged),
    ensures
        spans_view(final(out)@) == spans_view(old(out)@) + register_spans(pbase, per_name@, reg@, merged),
        spans_view(final(fout)@) == spans_view(old(fout)@) + register_field_spans(pbase, per_name@, reg@, merged),
{
    let bits = reg_bits(reg.size, merged);
    let q: u32 = bits / 8 + if bits % 8 == 0 { 0 } else { 1 };
    let bytes: u64 = if q < 1 { 1 } else { q as u64 };
    assert(bytes == bytes_of_bits(bits));
    let ghost o0 = out@;
    let ghost fo0 = fout@;
    let ghost rs = register_spans(pbase, per_name@, reg@, merged);
    match &reg.array {
        None => {
            let start = pbase + reg.address_offset as u64;
            let end = start + bytes;
            let label = append_to(append_to(owned(per_name), "."), reg.name.as_str());
            out.push((start, end, label));
            assert(spans_view(out@) =~= spans_view(o0) + rs);
            push_field_spans(start, end, &reg.fields, fout);
            assert(rs.drop_last() =~= Seq::<(u64, u64, Seq<char>)>::empty());
            assert(fields_of_spans(rs.drop_last(), reg@.fields) =~= Seq::<(u64, u64, Seq<char>)>::empty());
            assert(spans_view(fout@) =~= spans_view(fo0) + register_field_spans(pbase, per_name@, reg@, merged));
        },
        Some(a) => {
            let mut i: usize = 0;
            while i < a.names.len()
                invariant
                    i <= a.names@.len(),
                    reg.array == Some(*a),
                    register_fits(pbase, reg@, merged),
                    bytes == bytes_of_bits(reg_bits_spec(reg.size, merged)),
                    rs == register_spans(pbase, per_name@, reg@, merged),
                    rs.len() == a.names@.len(),
                    spans_view(out@) == spans_view(o0) + rs.take(i as int),
                    spans_view(fout@) == spans_view(fo0) + fields_of_spans(rs.take(i as int), reg@.fields),
                decreases a.names@.len() - i,
            {
                let ghost before = out@;
                assert(instance_end(pbase, reg.address_offset, i as int, a.dim_increment, bytes as int) <= u64::MAX);
                assert(0 <= (i as int) * (a.dim_increment as int)) by (nonlinear_arith);
                let off: u64 = reg.address_offset as u64 + (i as u64) * (a.dim_increment as u64);
                let start = pbase + off;
                let end = start + bytes;
                let label = append_to(append_to(owned(per_name), "."), a.names[i].as_str());
                assert(names_view(a.names@)[i as int] == a.names@[i as int]@);
                out.push((start, end, label));
                push_field_spans(start, end, &reg.fields, fout);
                assert(rs.take(i + 1).drop_last() =~= rs.take(i as int));
                assert(rs.take(i + 1).last() == rs[i as int]);
                assert(spans_view(fout@) =~= spans_view(fo0) + fields_of_spans(rs.take(i + 1), reg@.fields));
                assert(rs.take(i + 1) =~= rs.take(i as int).push(rs[i as int]));
                assert(spans_view(out@) =~= spans_view(before).push((start, end, label@)));
                i = i + 1;
            }
            assert(rs.take(i as int) =~= rs);
        },
    }
}

/// Insert a span after every span whose start is not greater.
fn insert_span(out: &mut Vec<Span>, s: Span)
    ensures
        spans_view(final(out)@) == spans_view(old(out)@).insert(
            insert_pos(spans_view(old(out)@), s.0),
            (s.0, s.1, s.2@),
        ),
{
    let ghost v = spans_view(out@);
    let mut j: usize = 0;
    assert(v.skip(0) =~= v);
    while j < out.len() && out[j].0 <= s.0
        invariant
            j <= out@.len(),
            v == spans_view(out@),
            insert_pos(v, s.0) == j + insert_pos(v.skip(j as int), s.0),
        decreases out@.len() - j,
    {
        assert(v.skip(j as int).drop_first() =~= v.skip(j + 1));
        j = j + 1;
    }
    assert(insert_pos(v.skip(j as int), s.0) == 0);
    let ghost x = (s.0, s.1, s.2@);
    out.insert(j, s);
    assert(spans_view(out@) =~= v.insert(j as int, x));
}

/// The number of instances of a peripheral.
fn instance_count(p: &PeripheralLayout) -> (n: usize)
    ensures
        n == instance_names(p@).len(),
{
    match &p.array {
        Some(a) => a.names.len(),
        None => 1,
    }
}

/// The base address and name of instance `i` of a peripheral whose base
/// address fits in 64 bits.
fn instance_of(p: &PeripheralLayout, i: usize) -> (r: (u64, &str))
    requires
        i < instance_names(p@).len(),
        instance_base(p@, i as int) <= u64::MAX,
    ensures
        r.0 == instance_base(p@, i as int),
        r.1@ == instance_names(p@)[i as int],
{
    match &p.array {
        Some(a) => {
            assert(0 <= (i as int) * (a.dim_increment as int)) by (nonlinear_arith);
            assert(names_view(a.names@)[i as int] == a.names@[i as int]@);
            (p.base_address + (i as u64) * (a.dim_increment as u64), a.names[i].as_str())
        },
        None => (p.base_address, p.name.as_str()),
    }
}

/// Append the spans of one peripheral, instance by instance.
fn collect_peripheral_spans(device: Option<u32>, p: &PeripheralLayout, out: &mut Vec<Span>, fout: &mut Vec<Span>)
    requires
        peripheral_fits(device, p@),
    ensures
        spans_view(final(out)@) == spans_view(old(out)@) + peripheral_spans(device, p@),
        spans_view(final(fout)@) == spans_view(old(fout)@) + peripheral_field_spans(device, p@),
{
    let ghost pv = p@;
    let ghost o0 = spans_view(out@);
    let ghost fo0 = spans_view(fout@);
    let n = instance_count(p);
    let merged = merge_reg_props(device, p.default_size);
    let mut i: usize = 0;
    while i < n
        invariant
            i <= n,
            n == instance_names(pv).len(),
            pv == p@,
            peripheral_fits(device, pv),
            merged == merged_size(device, p.default_size),
            spans_view(out@) == o0 + instances_spans(device, pv, i as int),
            spans_view(fout@) == fo0 + instances_field_spans(device, pv, i as int),
        decreases n - i,
    {
        assert(instance_fits(device, pv, i as int));
        let (base, name) = instance_of(p, i);
        let ghost o1 = spans_view(out@);
        let ghost fo1 = spans_view(fout@);
        match &p.registers {
            Some(regs) => {
                let ghost rv = registers_view(regs@);
                let mut j: usize = 0;
                assert(o1 =~= o1 + registers_spans(base, name@, rv.take(0), merged));
                assert(fo1 =~= fo1 + registers_field_spans(base, name@, rv.take(0), merged));
                while j < regs.len()
                    invariant
                        j <= regs@.len(),
                        p.registers == Some(*regs),
                        rv == registers_view(regs@),
                        pv == p@,
                        instance_fits(device, pv, i as int),
                        base == instance_base(pv, i as int),
                        merged == merged_size(device, p.default_size),
                        spans_view(out@) == o1 + registers_spans(base, name@, rv.take(j as int), merged),
                        spans_view(fout@) == fo1 + registers_field_spans(base, name@, rv.take(j as int), merged),
                    decreases regs@.len() - j,
                {
                    assert(rv[j as int] == regs@[j as int]@);
                    assert(pv.registers == Some(rv));
                    assert(register_fits(base, pv.registers->0[j as int], merged));
                    assert(rv.take(j + 1).drop_last() =~= rv.take(j as int));
                    assert(rv.take(j + 1).last() == regs@[j as int]@);
                    collect_register_spans(base, name, &regs[j], merged, out, fout);
                    assert(spans_view(out@) =~= o1 + registers_spans(base, name@, rv.take(j + 1), merged));
                    assert(spans_view(fout@) =~= fo1 + registers_field_spans(base, name@, rv.take(j + 1), merged));
                    j = j + 1;
                }
                assert(rv.take(j as int) =~= rv);
            },
            None => {},
        }
        assert(spans_view(out@) =~= o0 + instances_spans(device, pv, i + 1));
        assert(spans_view(fout@) =~= fo0 + instances_field_spans(device, pv, i + 1));
        i = i + 1;
    }
}

/// An array register with an instance past the top of the address space does not fit.
proof fn lemma_register_unfits(base: u64, r: RegisterView, merged: Option<u32>, i: int)
    requires
        r.array is Some,
        0 <= i < r.array->0.names.len(),
        instance_end(base, r.address_offset, i, r.array->0.dim_increment, bytes_of_bits(reg_bits_spec(r.size, merged)))
            > u64::MAX,
    ensures
        !register_fits(base, r, merged),
{
    let a = r.array->0;
    let bytes = bytes_of_bits(reg_bits_spec(r.size, merged));
    assert(instance_end(base, r.address_offset, i, a.dim_increment, bytes) > u64::MAX);
}

/// A peripheral instance with a register whose addresses do not fit does not fit.
proof fn lemma_instance_unfits(device: Option<u32>, p: PeripheralView, i: int, j: int)
    requires
        p.registers is Some,
        0 <= j < p.registers->0.len(),
        !register_fits(instance_base(p, i) as u64, p.registers->0[j], merged_size(device, p.default_size)),
    ensures
        !instance_fits(device, p, i),
{
    let regs = p.registers->0;
    assert(!register_fits(instance_base(p, i) as u64, regs[j], merged_size(device, p.default_size)));
}

/// Whether a register's addresses fit in 64 bits.
fn register_fits_exec(base: u64, r: &RegisterLayout, merged: Option<u32>) -> (ok: bool)
    ensures
        ok == register_fits(base, r@, merged),
{
    let bits = reg_bits(r.size, merged);
    let q: u32 = bits / 8 + if bits % 8 == 0 { 0 } else { 1 };
    let bytes: u64 = if q < 1 { 1 } else { q as u64 };
    assert(bytes == bytes_of_bits(bits));
    match &r.array {
        None => match base.checked_add(r.address_offset as u64) {
            Some(start) => start.checked_add(bytes).is_some(),
            None => false,
        },
        Some(a) => {
            let mut i: usize = 0;
            while i < a.names.len()
                invariant
                    i <= a.names@.len(),
                    r.array == Some(*a),
                    bytes == bytes_of_bits(reg_bits_spec(r.size, merged)),
                    forall|k: int|
                        0 <= k < i ==> #[trigger] instance_end(base, r.address_offset, k, a.dim_increment, bytes as int)
                            <= u64::MAX,
                decreases a.names@.len() - i,
            {
                assert(0 <= (i as int) * (a.dim_increment as int)) by (nonlinear_arith);
                let ok = match (i as u64).checked_mul(a.dim_increment as u64) {
                    Some(step) => match base.checked_add(r.address_offset as u64) {
                        Some(start) => match start.checked_add(step) {
                            Some(v) => v.checked_add(bytes).is_some(),
                            None => false,
                        },
                        None => false,
                    },
                    None => false,
                };
                if !ok {
                    assert(r@.array == Some(a@));
                    assert(a@.names.len() == a.names@.len());
                    proof {
                        lemma_register_unfits(base, r@, merged, i as int);
                    }
                    return false;
                }
                i = i + 1;
            }
            true
        },
    }
}

/// Whether every address of instance `i` of a peripheral fits in 64 bits.
fn instance_fits_exec(device: Option<u32>, p: &PeripheralLayout, i: usize, merged: Option<u32>) -> (ok: bool)
    requires
        i < instance_names(p@).len(),
        merged == merged_size(device, p.default_size),
    ensures
        ok == instance_fits(device, p@, i as int),
{
    let base: u64 = match &p.array {
        Some(a) => {
            assert((i as int) * (a.dim_increment as int) < 0x1_0000_0000_0000_0000_0000_0000) by (nonlinear_arith)
                requires
                    i <= usize::MAX,
                    usize::MAX <= u64::MAX,
                    a.dim_increment <= u32::MAX,
            ;
            let b: u128 = p.base_address as u128 + (i as u128) * (a.dim_increment as u128);
            if b > 0xffff_ffff_ffff_ffffu128 {
                return false;
            }
            b as u64
        },
        None => p.base_address,
    };
    assert(base == instance_base(p@, i as int));
    match &p.registers {
        Some(regs) => {
            let ghost rv = registers_view(regs@);
            let mut j: usize = 0;
            while j < regs.len()
                invariant
                    j <= regs@.len(),
                    rv == registers_view(regs@),
                    p.registers == Some(*regs),
                    base == instance_base(p@, i as int),
                    merged == merged_size(device, p.default_size),
                    forall|k: int| 0 <= k < j ==> register_fits(base, #[trigger] rv[k], merged),
                decreases regs@.len() - j,
            {
                assert(rv[j as int] == regs@[j as int]@);
                if !register_fits_exec(base, &regs[j], merged) {
                    assert(p@.registers == Some(rv));
                    assert(instance_base(p@, i as int) as u64 == base);
                    proof {
                        lemma_instance_unfits(device, p@, i as int, j as int);
                    }
                    return false;
                }
                j = j + 1;
            }
            true
        },
        None => {
            assert(p@.registers is None);
            true
        },
    }
}

/// Whether every address of a peripheral fits in 64 bits.
fn peripheral_fits_exec(device: Option<u32>, p: &PeripheralLayout) -> (ok: bool)
    ensures
        ok == peripheral_fits(device, p@),
{
    let n = instance_count(p);
    let merged = merge_reg_props(device, p.default_size);
    let mut i: usize = 0;
    while i < n
        invariant
            i <= n,
            n == instance_names(p@).len(),
            merged == merged_size(device, p.default_size),
            forall|k: int| 0 <= k < i ==> #[trigger] instance_fits(device, p@, k),
        decreases n - i,
    {
        if !instance_fits_exec(device, p, i, merged) {
            return false;
        }
        i = i + 1;
    }
    true
}

impl SvdIndex {
    /// Whether every register address of the layout fits in 64 bits, which
    /// building an index needs.
    pub fn layout_fits(layout: &DeviceLayout) -> (ok: bool)
        ensures
            ok == layout_fits(layout@),
    {
        let ghost lv = layout@;
        let mut i: usize = 0;
        while i < layout.peripherals.len()
            invariant
                i <= layout.peripherals@.len(),
                lv == layout@,
                forall|k: int| 0 <= k < i ==> peripheral_fits(lv.default_size, #[trigger] lv.peripherals[k]),
            decreases layout.peripherals@.len() - i,
        {
            assert(lv.peripherals[i as int] == layout.peripherals@[i as int]@);
            if !peripheral_fits_exec(layout.default_size, &layout.peripherals[i]) {
                return false;
            }
            i = i + 1;
        }
        true
    }

    /// Build the index: the spans of every register of every peripheral,
    /// sorted by start address (spans with equal starts keep their order).
    pub fn from_layout(layout: &DeviceLayout) -> (idx: Self)
        requires
            layout_fits(layout@),
        ensures
            idx.view_spans() == sort_by_start(layout_spans(layout@.default_size, layout@.peripherals)),
            idx.view_fields() == layout_field_spans(layout@.default_size, layout@.peripherals),
    {
        let ghost lv = layout@;
        let mut spans: Vec<Span> = Vec::new();
        let mut fields: Vec<Span> = Vec::new();
        let mut i: usize = 0;
        while i < layout.peripherals.len()
            invariant
                i <= layout.peripherals@.len(),
                lv == layout@,
                layout_fits(lv),
                spans_view(spans@) == layout_spans(lv.default_size, lv.peripherals.take(i as int)),
                spans_view(fields@) == layout_field_spans(lv.default_size, lv.peripherals.take(i as int)),
            decreases layout.peripherals@.len() - i,
        {
            assert(lv.peripherals[i as int] == layout.peripherals@[i as int]@);
            assert(lv.peripherals.take(i + 1).drop_last() =~= lv.peripherals.take(i as int));
            assert(lv.peripherals.take(i + 1).last() == layout.peripherals@[i as int]@);
            collect_peripheral_spans(layout.default_size, &layout.peripherals[i], &mut spans, &mut fields);
            i = i + 1;
        }
        assert(lv.peripherals.take(i as int) =~= lv.peripherals);
        let ghost all = spans_view(spans@);
        let mut sorted: Vec<Span> = Vec::new();
        let mut k: usize = 0;
        let n = spans.len();
        let mut rest = spans;
        while k < n
            invariant
                k <= n,
                n == all.len(),
                spans_view(rest@) == all.skip(k as int),
                spans_view(sorted@) == sort_by_start(all.take(k as int)),
                spans_view(fields@) == layout_field_spans(lv.default_size, lv.peripherals),
            decreases n - k,
        {
            let ghost r0 = rest@;
            assert(rest@.len() == spans_view(rest@).len());
            let s = rest.remove(0);
            assert forall|t: int| 0 <= t < rest@.len() implies #[trigger] spans_view(rest@)[t] == all.skip(k + 1)[t] by {
                assert(rest@[t] == r0[t + 1]);
                assert(spans_view(r0)[t + 1] == all.skip(k as int)[t + 1]);
            }
            assert(spans_view(rest@) =~= all.skip(k + 1));
            assert(spans_view(r0)[0] == all[k as int]);
            assert(all.take(k + 1).drop_last() =~= all.take(k as int));
            insert_span(&mut sorted, s);
            k = k + 1;
        }
        assert(all.take(k as int) =~= all);
        SvdIndex { spans: sorted, fields }
    }

    /// Spec view of the spans.
    pub closed spec fn view_spans(&self) -> Seq<(u64, u64, Seq<char>)> {
        spans_view(self.spans@)
    }

    /// Spec view of the field spans.
    pub closed spec fn view_fields(&self) -> Seq<(u64, u64, Seq<char>)> {
        spans_view(self.fields@)
    }

    /// Number of indexed register address ranges (after array expansion).
    pub fn register_count(&self) -> (n: usize)
        ensures
            n == self.view_spans().len(),
    {
        self.spans.len()
    }

    /// Resolve `addr` to `Peripheral.REGISTER` if it lies in a register span.
    pub fn lookup(&self, addr: u64) -> (r: Option<&str>)
        ensures
            opt_str(r) == first_containing(self.view_spans(), addr),
    {
        let ghost v = spans_view(self.spans@);
        let mut i: usize = 0;
        assert(v.skip(0) =~= v);
        while i < self.spans.len()
            invariant
                i <= self.spans@.len(),
                v == spans_view(self.spans@),
                first_containing(v, addr) == first_containing(v.skip(i as int), addr),
            decreases self.spans@.len() - i,
        {
            assert(v.skip(i as int).drop_first() =~= v.skip(i + 1));
            let (start, end, label) = &self.spans[i];
            if addr >= *start && addr < *end {
                return Some(label.as_str());
            }
            i = i + 1;
        }
        None
    }

    /// Human-readable note for an RSP memory access `[addr, addr + len)`:
    /// the registers it starts and ends in, and the fields it touches.
    pub fn annotate_access(&self, addr: u64, len: u64) -> (r: Option<String>)
        ensures
            opt_string(r) == spec_annotate(self.view_spans(), self.view_fields(), addr, len),
    {
        let note = match self.register_note(addr, len) {
            Some(n) => n,
            None => return None,
        };
        let end = match addr.checked_add(len) {
            Some(e) => e,
            None => u64::MAX,
        };
        let last = if end >= 1 { end - 1 } else { 0 };
        assert(last == access_last(addr, len));
        let ghost fv = spans_view(self.fields@);
        let mut names = String::new();
        let mut count: usize = 0;
        let mut k: usize = 0;
        while k < self.fields.len()
            invariant
                k <= self.fields@.len(),
                fv == spans_view(self.fields@),
                count == touched_names(fv.take(k as int), addr, last).len(),
                count <= k,
                names@ == join_names(touched_names(fv.take(k as int), addr, last)),
            decreases self.fields@.len() - k,
        {
            let (lo, hi, name) = &self.fields[k];
            let ghost t0 = touched_names(fv.take(k as int), addr, last);
            assert(fv.take(k + 1).drop_last() =~= fv.take(k as int));
            assert(fv.take(k + 1).last() == (*lo, *hi, name@));
            if *lo < *hi && *lo <= last && addr < *hi {
                if count == 0 {
                    names = owned(name.as_str());
                } else {
                    names = append_to(append_to(names, ", "), name.as_str());
                }
                assert(t0.push(name@).drop_last() =~= t0);
                count = count + 1;
            }
            k = k + 1;
        }
        assert(fv.take(k as int) =~= fv);
        if count == 0 {
            Some(note)
        } else {
            Some(append_to(append_to(note, " fields: "), names.as_str()))
        }
    }

    /// The register part of the note.
    fn register_note(&self, addr: u64, len: u64) -> (r: Option<String>)
        ensures
            opt_string(r) == register_note(self.view_spans(), addr, len),
    {
        if len == 0 {
            return None;
        }
        let end = match addr.checked_add(len) {
            Some(e) => e,
            None => u64::MAX,
        };
        let last = if end >= 1 { end - 1 } else { 0 };
        let a = match self.lookup(addr) {
            Some(a) => a,
            None => return None,
        };
        let b = match self.lookup(last) {
            Some(b) => b,
            None => return None,
        };
        let n = decimal_string(len);
        if str_is(a, b) {
            Some(append_to(append_to(append_to(owned(a), " ("), n.as_str()), " bytes)"))
        } else {
            let m = append_to(append_to(append_to(owned(a), " .. "), b), " (");
            Some(append_to(append_to(m, n.as_str()), " bytes)"))
        }
    }
}


/// Model of an optional array description.
pub open spec fn array_of(a: Option<(u32, Seq<Seq<char>>)>) -> Option<ArrayView> {
    match a {
        Some(x) => Some(ArrayView { dim_increment: x.0, names: x.1 }),
        None => None,
    }
}

/// Field `k` of register `j` of peripheral entry `i` of the description.
pub open spec fn svd_field_view(xml: Seq<char>, i: int, j: int, k: int) -> FieldView {
    let f = svd_field_of(xml, i, j, k);
    FieldView { name: f.0, bit_offset: f.1, bit_width: f.2, array: array_of(f.3) }
}

/// Register `j` of peripheral entry `i` of the description, with its fields.
pub open spec fn svd_register_view(xml: Seq<char>, i: int, j: int) -> RegisterView {
    let r = svd_register_of(xml, i, j);
    RegisterView {
        name: r.0,
        address_offset: r.1,
        size: r.2,
        array: array_of(r.3),
        fields: Seq::new(svd_field_count_of(xml, i, j), |k: int| svd_field_view(xml, i, j, k)),
    }
}

/// Peripheral entry `i` of the description, with its registers when it
/// lists any.
pub open spec fn svd_peripheral_view(xml: Seq<char>, i: int) -> PeripheralView {
    let h = svd_peripheral_head_of(xml, i);
    PeripheralView {
        name: h.0,
        base_address: h.1,
        derived_from: h.2,
        registers: if h.4 {
            Some(Seq::new(svd_register_count_of(xml, i), |j: int| svd_register_view(xml, i, j)))
        } else {
            None
        },
        default_size: h.3,
        array: array_of(svd_peripheral_array_of(xml, i)),
    }
}

/// The layout that an SVD text describes: every peripheral entry in order,
/// arrays kept as arrays, clusters flattened.
pub open spec fn svd_layout(xml: Seq<char>) -> LayoutView {
    LayoutView {
        default_size: svd_default_size_of(xml),
        peripherals: Seq::new(svd_peripheral_count_of(xml), |i: int| svd_peripheral_view(xml, i)),
    }
}

/// An array description as a layout.
fn array_from(a: Option<(u32, Vec<String>)>) -> (r: Option<ArrayLayout>)
    ensures
        array_view(r) == array_of(opt_array_view(a)),
{
    match a {
        Some((dim_increment, names)) => Some(ArrayLayout { dim_increment, names }),
        None => None,
    }
}

/// Field `k` of register `j` of peripheral entry `i`.
fn field_from_svd(p: &ParsedSvd, i: usize, j: usize, k: usize) -> (r: FieldLayout)
    requires
        i < svd_peripheral_count_of(p.text()),
        j < svd_register_count_of(p.text(), i as int),
        k < svd_field_count_of(p.text(), i as int, j as int),
    ensures
        r@ == svd_field_view(p.text(), i as int, j as int, k as int),
{
    let (name, bit_offset, bit_width, arr) = svd_field(p, i, j, k);
    FieldLayout { name, bit_offset, bit_width, array: array_from(arr) }
}

/// Register `j` of peripheral entry `i`, with its fields.
fn register_from_svd(p: &ParsedSvd, i: usize, j: usize) -> (r: RegisterLayout)
    requires
        i < svd_peripheral_count_of(p.text()),
        j < svd_register_count_of(p.text(), i as int),
    ensures
        r@ == svd_register_view(p.text(), i as int, j as int),
{
    let (name, address_offset, size, arr) = svd_register(p, i, j);
    let n = svd_field_count(p, i, j);
    let ghost want = svd_register_view(p.text(), i as int, j as int).fields;
    let mut fields: Vec<FieldLayout> = Vec::new();
    let mut k: usize = 0;
    while k < n
        invariant
            k <= n,
            n == svd_field_count_of(p.text(), i as int, j as int),
            i < svd_peripheral_count_of(p.text()),
            j < svd_register_count_of(p.text(), i as int),
            want == svd_register_view(p.text(), i as int, j as int).fields,
            fields_view(fields@) == want.take(k as int),
        decreases n - k,
    {
        let f = field_from_svd(p, i, j, k);
        let ghost before = fields@;
        fields.push(f);
        assert(fields_view(fields@) =~= fields_view(before).push(f@));
        assert(want.take(k + 1) =~= want.take(k as int).push(want[k as int]));
        k = k + 1;
    }
    assert(want.take(k as int) =~= want);
    let r = RegisterLayout { name, address_offset, size, array: array_from(arr), fields };
    assert(r@.fields =~= want);
    r
}

/// Peripheral entry `i`, with its registers.
fn peripheral_from_svd(p: &ParsedSvd, i: usize) -> (r: PeripheralLayout)
    requires
        i < svd_peripheral_count_of(p.text()),
    ensures
        r@ == svd_peripheral_view(p.text(), i as int),
{
    let (name, base_address, derived_from, default_size, listed) = svd_peripheral_head(p, i);
    let arr = svd_peripheral_array(p, i);
    let registers = if listed {
        let n = svd_register_count(p, i);
        let ghost want = Seq::new(svd_register_count_of(p.text(), i as int), |j: int| svd_register_view(p.text(), i as int, j));
        let mut regs: Vec<RegisterLayout> = Vec::new();
        let mut j: usize = 0;
        while j < n
            invariant
                j <= n,
                n == svd_register_count_of(p.text(), i as int),
                i < svd_peripheral_count_of(p.text()),
                want == Seq::new(svd_register_count_of(p.text(), i as int), |j: int| svd_register_view(p.text(), i as int, j)),
                registers_view(regs@) == want.take(j as int),
            decreases n - j,
        {
            let r = register_from_svd(p, i, j);
            let ghost before = regs@;
            regs.push(r);
            assert(registers_view(regs@) =~= registers_view(before).push(r@));
            assert(want.take(j + 1) =~= want.take(j as int).push(want[j as int]));
            j = j + 1;
        }
        assert(want.take(j as int) =~= want);
        Some(regs)
    } else {
        None
    };
    PeripheralLayout { name, base_address, derived_from, registers, default_size, array: array_from(arr) }
}

/// The register layout of a device description in SVD (XML) text, entry by
/// entry; the `Parse` error with the parser's message when the text is not one.
pub fn layout_from_svd_text(xml: &str) -> (r: Result<DeviceLayout, SvdLoadError>)
    ensures
        r is Ok <==> svd_parses(xml@),
        r matches Ok(l) ==> l@ == svd_layout(xml@),
        r matches Err(e) ==> e is Parse,
{
    let p = match svd_parse(xml) {
        Ok(p) => p,
        Err(m) => return Err(SvdLoadError::Parse(m)),
    };
    let ghost t = xml@;
    let n = svd_peripheral_count(&p);
    let ghost want = svd_layout(t).peripherals;
    let mut peripherals: Vec<PeripheralLayout> = Vec::new();
    let mut i: usize = 0;
    while i < n
        invariant
            i <= n,
            n == svd_peripheral_count_of(t),
            p.text() == t,
            want == svd_layout(t).peripherals,
            peripherals_view(peripherals@) == want.take(i as int),
        decreases n - i,
    {
        let q = peripheral_from_svd(&p, i);
        let ghost before = peripherals@;
        peripherals.push(q);
        assert(peripherals_view(peripherals@) =~= peripherals_view(before).push(q@));
        assert(want.take(i + 1) =~= want.take(i as int).push(want[i as int]));
        i = i + 1;
    }
    assert(want.take(i as int) =~= want);
    let l = DeviceLayout { default_size: svd_default_size(&p), peripherals };
    assert(l@.peripherals =~= want);
    Ok(l)
}

impl SvdIndex {
    /// Build the index from SVD (XML) text: the `Parse` error when the text
    /// is not a device description, or when a register address of the
    /// description does not fit in 64 bits; otherwise the index of the
    /// description's layout.
    pub fn from_svd_text(xml: &str) -> (r: Result<SvdIndex, SvdLoadError>)
        ensures
            r is Ok <==> svd_parses(xml@) && layout_fits(svd_layout(xml@)),
            r matches Ok(idx) ==> idx.view_spans() == sort_by_start(
                layout_spans(svd_layout(xml@).default_size, svd_layout(xml@).peripherals),
            ) && idx.view_fields() == layout_field_spans(svd_layout(xml@).default_size, svd_layout(xml@).peripherals),
            r matches Err(e) ==> e is Parse,
    {
        let layout = match layout_from_svd_text(xml) {
            Ok(l) => l,
            Err(e) => return Err(e),
        };
        if !SvdIndex::layout_fits(&layout) {
            return Err(SvdLoadError::Parse(owned("register addresses do not fit in 64 bits")));
        }
        Ok(SvdIndex::from_layout(&layout))
    }
}

} // verus!
