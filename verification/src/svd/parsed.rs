//! A device description as `svd_parser` reads it, and the parts of it that
//! the register map is built from.
use vstd::prelude::*;

verus! {

/// `svd_parser::svd::Device`: a parsed device description.
#[verifier::external_type_specification]
#[verifier::external_body]
pub struct ExSvdDevice(svd_parser::svd::Device);

/// A device parsed from an SVD text, with the text it was parsed from. Only
/// [`svd_parse`] makes one, so the device is always the parse of the text.
pub struct ParsedSvd {
    device: svd_parser::svd::Device,
    text: Ghost<Seq<char>>,
}

impl ParsedSvd {
    /// The text the device was parsed from.
    pub closed spec fn text(&self) -> Seq<char> {
        self.text@
    }
}

/// Spec view of an optional array description: the increment and the
/// instance names.
pub open spec fn opt_array_view(a: Option<(u32, Vec<String>)>) -> Option<(u32, Seq<Seq<char>>)> {
    match a {
        Some(x) => Some((x.0, x.1@.map_values(|s: String| s@))),
        None => None,
    }
}

/// Whether `svd_parser::parse` accepts the text as a device description.
pub uninterp spec fn svd_parses(xml: Seq<char>) -> bool;

/// The device's default register width in bits.
pub uninterp spec fn svd_default_size_of(xml: Seq<char>) -> Option<u32>;

/// The number of peripheral entries (single or array) of the device.
pub uninterp spec fn svd_peripheral_count_of(xml: Seq<char>) -> nat;

/// Peripheral entry `i`: name, base address, the peripheral it derives
/// from, default register width, and whether it lists registers.
pub uninterp spec fn svd_peripheral_head_of(xml: Seq<char>, i: int) -> (Seq<char>, u64, Option<Seq<char>>, Option<u32>, bool);

/// For a peripheral array, entry `i`'s increment and instance names.
pub uninterp spec fn svd_peripheral_array_of(xml: Seq<char>, i: int) -> Option<(u32, Seq<Seq<char>>)>;

/// The number of registers of peripheral entry `i`, clusters flattened.
pub uninterp spec fn svd_register_count_of(xml: Seq<char>, i: int) -> nat;

/// Register `j` of peripheral entry `i`: name, address offset, width, and
/// for an array its increment and instance names.
pub uninterp spec fn svd_register_of(xml: Seq<char>, i: int, j: int) -> (Seq<char>, u32, Option<u32>, Option<(u32, Seq<Seq<char>>)>);

/// The number of fields of register `j` of peripheral entry `i`.
pub uninterp spec fn svd_field_count_of(xml: Seq<char>, i: int, j: int) -> nat;

/// Field `k` of that register: name, bit offset, bit width, and for an
/// array its increment and instance names.
pub uninterp spec fn svd_field_of(xml: Seq<char>, i: int, j: int, k: int) -> (Seq<char>, u32, u32, Option<(u32, Seq<Seq<char>>)>);

/// `svd_parser::parse`: the device that the XML text describes, or the
/// parser's message. It succeeds exactly on the texts it accepts, which
/// depends on the text alone; the message is not stated.
#[verifier::external_body]
pub(crate) fn svd_parse(xml: &str) -> (r: Result<ParsedSvd, String>)
    ensures
        r is Ok <==> svd_parses(xml@),
        r matches Ok(p) ==> p.text() == xml@,
{
    match svd_parser::parse(xml) {
        Ok(device) => Ok(ParsedSvd { device, text: Ghost(xml@) }),
        Err(e) => Err(e.to_string()),
    }
}

/// The device's default register width (a field of the parsed device).
#[verifier::external_body]
pub(crate) fn svd_default_size(p: &ParsedSvd) -> (r: Option<u32>)
    ensures
        r == svd_default_size_of(p.text()),
{
    p.device.default_register_properties.size
}

/// The number of peripheral entries (the length of the device's list).
#[verifier::external_body]
pub(crate) fn svd_peripheral_count(p: &ParsedSvd) -> (r: usize)
    ensures
        r == svd_peripheral_count_of(p.text()),
{
    p.device.peripherals.len()
}

/// Name, base address, `derivedFrom`, default register width and whether
/// registers are listed, of peripheral entry `i` (fields of the entry).
#[verifier::external_body]
pub(crate) fn svd_peripheral_head(p: &ParsedSvd, i: usize) -> (r: (String, u64, Option<String>, Option<u32>, bool))
    requires
        i < svd_peripheral_count_of(p.text()),
    ensures
        (r.0@, r.1, match r.2 {
            Some(s) => Some(s@),
            None => None,
        }, r.3, r.4) == svd_peripheral_head_of(p.text(), i as int),
{
    let q = &p.device.peripherals[i];
    (q.name.clone(), q.base_address, q.derived_from.clone(), q.default_register_properties.size, q.registers.is_some())
}

/// For a peripheral array, the increment (`dimIncrement`) and the instance
/// names that `svd_parser::svd::array::names` gives, of entry `i`.
#[verifier::external_body]
pub(crate) fn svd_peripheral_array(p: &ParsedSvd, i: usize) -> (r: Option<(u32, Vec<String>)>)
    requires
        i < svd_peripheral_count_of(p.text()),
    ensures
        opt_array_view(r) == svd_peripheral_array_of(p.text(), i as int),
{
    match &p.device.peripherals[i] {
        svd_parser::svd::MaybeArray::Single(_) => None,
        svd_parser::svd::MaybeArray::Array(q, dim) => Some((dim.dim_increment, svd_parser::svd::array::names(q, dim).collect())),
    }
}

/// `PeripheralInfo::all_registers` of entry `i`, counted.
#[verifier::external_body]
pub(crate) fn svd_register_count(p: &ParsedSvd, i: usize) -> (r: usize)
    requires
        i < svd_peripheral_count_of(p.text()),
    ensures
        r == svd_register_count_of(p.text(), i as int),
{
    p.device.peripherals[i].all_registers().count()
}

/// Register `j` of `all_registers` of entry `i`: name, address offset,
/// width, and for an array the increment and `array::names`.
#[verifier::external_body]
pub(crate) fn svd_register(p: &ParsedSvd, i: usize, j: usize) -> (r: (String, u32, Option<u32>, Option<(u32, Vec<String>)>))
    requires
        i < svd_peripheral_count_of(p.text()),
        j < svd_register_count_of(p.text(), i as int),
    ensures
        (r.0@, r.1, r.2, opt_array_view(r.3)) == svd_register_of(p.text(), i as int, j as int),
{
    match p.device.peripherals[i].all_registers().nth(j).unwrap() {
        svd_parser::svd::MaybeArray::Single(x) => (x.name.clone(), x.address_offset, x.properties.size, None),
        svd_parser::svd::MaybeArray::Array(x, dim) => {
            (x.name.clone(), x.address_offset, x.properties.size, Some((dim.dim_increment, svd_parser::svd::array::names(x, dim).collect())))
        },
    }
}

/// `RegisterInfo::fields` of register `j` of entry `i`, counted.
#[verifier::external_body]
pub(crate) fn svd_field_count(p: &ParsedSvd, i: usize, j: usize) -> (r: usize)
    requires
        i < svd_peripheral_count_of(p.text()),
        j < svd_register_count_of(p.text(), i as int),
    ensures
        r == svd_field_count_of(p.text(), i as int, j as int),
{
    p.device.peripherals[i].all_registers().nth(j).unwrap().fields().count()
}

/// Field `k` of that register: name, bit offset and width of its bit range,
/// and for an array the increment and `array::names`.
#[verifier::external_body]
pub(crate) fn svd_field(p: &ParsedSvd, i: usize, j: usize, k: usize) -> (r: (String, u32, u32, Option<(u32, Vec<String>)>))
    requires
        i < svd_peripheral_count_of(p.text()),
        j < svd_register_count_of(p.text(), i as int),
        k < svd_field_count_of(p.text(), i as int, j as int),
    ensures
        (r.0@, r.1, r.2, opt_array_view(r.3)) == svd_field_of(p.text(), i as int, j as int, k as int),
{
    match p.device.peripherals[i].all_registers().nth(j).unwrap().fields().nth(k).unwrap() {
        svd_parser::svd::MaybeArray::Single(x) => (x.name.clone(), x.bit_range.offset, x.bit_range.width, None),
        svd_parser::svd::MaybeArray::Array(x, dim) => {
            (x.name.clone(), x.bit_range.offset, x.bit_range.width, Some((dim.dim_increment, svd_parser::svd::array::names(x, dim).collect())))
        },
    }
}

} // verus!
