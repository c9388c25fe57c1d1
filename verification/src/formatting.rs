//! Raw event cells and their decoding into typed values.
//!
//! A cell is handed over as plain data: its type tag, the eight bytes of
//! its payload, the bytes that a pointer payload refers to, and whatever
//! the platform computed for it in advance. Decoding reads these through
//! bounds-checked accessors only.

use crate::text::{
    decimal, from_chars, hexadecimal, number_chars, parse_unsigned, push_all, read_unsigned,
    replace_all, replaced, same_text, to_chars, zero_fill,
};
use vstd::prelude::*;
use vstd::string::*;
use vstd::utf8::*;

verus! {

/// The tag of a cell without value.
pub const TYPE_NULL: u32 = 0;

/// The tag of a cell that points at a zero-terminated wide string.
pub const TYPE_STRING: u32 = 1;

/// The tag of a cell that points at a zero-terminated narrow string.
pub const TYPE_ANSI_STRING: u32 = 2;

/// The tag of a signed 8-bit number.
pub const TYPE_SBYTE: u32 = 3;

/// The tag of an unsigned 8-bit number.
pub const TYPE_BYTE: u32 = 4;

/// The tag of a signed 16-bit number.
pub const TYPE_INT16: u32 = 5;

/// The tag of an unsigned 16-bit number.
pub const TYPE_UINT16: u32 = 6;

/// The tag of a signed 32-bit number.
pub const TYPE_INT32: u32 = 7;

/// The tag of an unsigned 32-bit number.
pub const TYPE_UINT32: u32 = 8;

/// The tag of a signed 64-bit number.
pub const TYPE_INT64: u32 = 9;

/// The tag of an unsigned 64-bit number.
pub const TYPE_UINT64: u32 = 10;

/// The tag of a 32-bit floating-point number.
pub const TYPE_SINGLE: u32 = 11;

/// The tag of a 64-bit floating-point number.
pub const TYPE_DOUBLE: u32 = 12;

/// The tag of a truth value, held in four bytes.
pub const TYPE_BOOLEAN: u32 = 13;

/// The tag of a cell that points at bytes.
pub const TYPE_BINARY: u32 = 14;

/// The tag of a cell that points at a globally unique identifier.
pub const TYPE_GUID: u32 = 15;

/// The tag of a number of the width of a pointer.
pub const TYPE_SIZE_T: u32 = 16;

/// The tag of a time counted in intervals since 1601.
pub const TYPE_FILE_TIME: u32 = 17;

/// The tag of a cell that points at a calendar time.
pub const TYPE_SYS_TIME: u32 = 18;

/// The tag of a cell that points at a security identifier.
pub const TYPE_SID: u32 = 19;

/// The tag of a 32-bit number that is shown in hexadecimal.
pub const TYPE_HEX_INT32: u32 = 20;

/// The tag of a 64-bit number that is shown in hexadecimal.
pub const TYPE_HEX_INT64: u32 = 21;

/// The tag of a handle of the event log service.
pub const TYPE_HANDLE: u32 = 32;

/// Set in the type tag of a cell that holds an array of values.
pub const TYPE_ARRAY_FLAG: u32 = 128;

/// A calendar time in UTC with millisecond precision.
#[derive(Clone, Copy, Debug, PartialEq, Eq, Structural)]
pub struct SystemTime {
    pub year: u16,
    pub month: u16,
    pub day_of_week: u16,
    pub day: u16,
    pub hour: u16,
    pub minute: u16,
    pub second: u16,
    pub milliseconds: u16,
}

/// How a floating-point number is written. The library does no
/// floating-point arithmetic: whoever hands a number over hands over its
/// bits and both of its written forms.
#[derive(Debug, PartialEq, Eq)]
pub struct FloatText {
    /// The number as it stands in a line of text or in a message.
    pub plain: String,
    /// The number as a JSON value: a JSON number, or `null` for a number
    /// that JSON cannot hold.
    pub json: String,
}

/// The mathematical content of a [`FloatText`].
pub struct FloatTextView {
    pub plain: Seq<char>,
    pub json: Seq<char>,
}

impl View for FloatText {
    type V = FloatTextView;

    open spec fn view(&self) -> FloatTextView {
        FloatTextView { plain: self.plain@, json: self.json@ }
    }
}

impl Clone for FloatText {
    fn clone(&self) -> (r: Self)
        ensures
            r@ == self@,
    {
        FloatText { plain: self.plain.clone(), json: self.json.clone() }
    }
}

/// What the platform computed for a cell before it was handed over.
#[derive(Debug, PartialEq, Eq)]
pub enum PlatformValue {
    /// Nothing was computed.
    Absent,
    /// The platform call failed with this error code.
    Failed(u32),
    /// The canonical text of a security identifier, as UTF-16 units
    /// without terminator.
    WideText(Vec<u16>),
    /// The calendar form of a file time.
    Time(SystemTime),
    /// The written forms of a floating-point payload.
    Float(FloatText),
}

/// One tagged cell of an event's value buffer.
#[derive(Debug, PartialEq, Eq)]
pub struct RawCell {
    /// The cell's type tag, with the array flag if set.
    pub type_tag: u32,
    /// The element count of the cell.
    pub count: u32,
    /// The eight payload bytes, read as one little-endian number.
    pub payload: u64,
    /// The bytes that the payload points at, for cells whose payload is a
    /// pointer; as many as could be read.
    pub data: Vec<u8>,
    /// What the platform computed for this cell in advance.
    pub platform: PlatformValue,
}

/// A decoded, typed value.
#[derive(Debug, PartialEq, Eq)]
pub enum EvtVariant {
    Null,
    String(String),
    /// An opaque handle, never null.
    Handle(u64),
    UInt(u64),
    Int(i64),
    /// The bits of a 32-bit floating-point number, and its written forms.
    Single(u32, FloatText),
    /// The bits of a 64-bit floating-point number, and its written forms.
    Double(u64, FloatText),
    Boolean(bool),
    Binary(Vec<u8>),
    DateTime(SystemTime),
}

/// The mathematical content of an [`EvtVariant`].
pub enum VariantView {
    Null,
    Text(Seq<char>),
    Handle(u64),
    UInt(u64),
    Int(i64),
    Single(u32, FloatTextView),
    Double(u64, FloatTextView),
    Boolean(bool),
    Binary(Seq<u8>),
    DateTime(SystemTime),
}

impl View for EvtVariant {
    type V = VariantView;

    open spec fn view(&self) -> VariantView {
        match self {
            EvtVariant::Null => VariantView::Null,
            EvtVariant::String(s) => VariantView::Text(s@),
            EvtVariant::Handle(h) => VariantView::Handle(*h),
            EvtVariant::UInt(u) => VariantView::UInt(*u),
            EvtVariant::Int(i) => VariantView::Int(*i),
            EvtVariant::Single(b, t) => VariantView::Single(*b, t@),
            EvtVariant::Double(b, t) => VariantView::Double(*b, t@),
            EvtVariant::Boolean(b) => VariantView::Boolean(*b),
            EvtVariant::Binary(v) => VariantView::Binary(v@),
            EvtVariant::DateTime(t) => VariantView::DateTime(*t),
        }
    }
}

/// Why a cell could not be decoded.
#[derive(Clone, Copy, Debug, PartialEq, Eq, Structural)]
pub enum DecodeError {
    /// The type tag is none of the known ones.
    UnsupportedType(u32),
    /// The cell's bytes are not valid text in the encoding its type names.
    EncodingError,
    /// The platform conversion that the cell's type needs failed with this
    /// error code.
    ConversionError(u32),
    /// The platform value that the cell's type needs was not supplied.
    MissingConversion,
    /// The referenced data ends before the value does.
    Truncated,
    /// The cell holds a null handle.
    NullHandle,
}

/// What a run of UTF-16 units decodes to: the text, or nothing where the
/// units are not well-formed UTF-16.
pub uninterp spec fn utf16_text(units: Seq<u16>) -> Option<Seq<char>>;

/// `String::from_utf16` of the standard library. The result depends on
/// the units alone; it is absent exactly when they are not valid UTF-16.
#[verifier::external_body]
pub(crate) fn decode_utf16(units: &Vec<u16>) -> (r: Option<String>)
    ensures
        r is Some <==> utf16_text(units@) is Some,
        r matches Some(s) ==> utf16_text(units@) == Some(s@),
{
    match String::from_utf16(units) {
        Ok(s) => Some(s),
        Err(_) => None,
    }
}

/// `String::from_utf8` of the standard library: the text that the bytes
/// encode, absent exactly when the bytes are not valid UTF-8.
#[verifier::external_body]
fn decode_utf8_bytes(bytes: Vec<u8>) -> (r: Option<String>)
    ensures
        r is Some <==> valid_utf8(bytes@),
        r matches Some(s) ==> s@ == decode_utf8(bytes@),
{
    match String::from_utf8(bytes) {
        Ok(s) => Some(s),
        Err(_) => None,
    }
}

/// What a byte sequence decodes to as UTF-8, if it is valid.
pub open spec fn utf8_text(bytes: Seq<u8>) -> Option<Seq<char>> {
    if valid_utf8(bytes) {
        Some(decode_utf8(bytes))
    } else {
        None
    }
}

/// The little-endian 16-bit unit number `k` of a byte sequence.
pub open spec fn unit_at(data: Seq<u8>, k: int) -> u16
    recommends
        0 <= k,
        2 * k + 1 < data.len(),
{
    (data[2 * k] as int + 256 * (data[2 * k + 1] as int)) as u16
}

/// The index of the first zero unit at or after unit `k`, if the data
/// holds one.
pub open spec fn wide_end_from(data: Seq<u8>, k: int) -> Option<int>
    decreases data.len() - 2 * k,
{
    if k < 0 || 2 * k + 2 > data.len() {
        None
    } else if unit_at(data, k) == 0 {
        Some(k)
    } else {
        wide_end_from(data, k + 1)
    }
}

/// The units of a zero-terminated wide string, terminator excluded.
pub open spec fn wide_units(data: Seq<u8>) -> Option<Seq<u16>> {
    match wide_end_from(data, 0) {
        Some(n) => Some(Seq::new(n as nat, |i: int| unit_at(data, i))),
        None => None,
    }
}

/// The index of the first zero byte at or after `k`, if there is one.
pub open spec fn narrow_end_from(data: Seq<u8>, k: int) -> Option<int>
    decreases data.len() - k,
{
    if k < 0 || k >= data.len() {
        None
    } else if data[k] == 0 {
        Some(k)
    } else {
        narrow_end_from(data, k + 1)
    }
}

/// The bytes of a zero-terminated narrow string, terminator excluded.
pub open spec fn narrow_bytes(data: Seq<u8>) -> Option<Seq<u8>> {
    match narrow_end_from(data, 0) {
        Some(n) => Some(data.subrange(0, n)),
        None => None,
    }
}

/// Reads the units of a zero-terminated wide string.
pub fn read_wide_units(data: &Vec<u8>) -> (r: Option<Vec<u16>>)
    ensures
        r is Some <==> wide_units(data@) is Some,
        r matches Some(v) ==> wide_units(data@) == Some(v@),
{
    let mut units: Vec<u16> = Vec::new();
    let mut k: usize = 0;
    while data.len() >= 2 && k <= (data.len() - 2) / 2
        invariant
            units@.len() == k,
            2 * k <= data.len(),
            wide_end_from(data@, k as int) == wide_end_from(data@, 0),
            forall|i: int| 0 <= i < k ==> units@[i] == unit_at(data@, i),
        decreases data.len() - 2 * k,
    {
        let lo: u16 = data[2 * k] as u16;
        let hi: u16 = data[2 * k + 1] as u16;
        let unit: u16 = lo + 256 * hi;
        if unit == 0 {
            assert(units@ == Seq::new(k as nat, |i: int| unit_at(data@, i)));
            return Some(units);
        }
        units.push(unit);
        k += 1;
    }
    None
}

/// Reads the bytes of a zero-terminated narrow string.
pub fn read_narrow_bytes(data: &Vec<u8>) -> (r: Option<Vec<u8>>)
    ensures
        r is Some <==> narrow_bytes(data@) is Some,
        r matches Some(v) ==> narrow_bytes(data@) == Some(v@),
{
    let mut bytes: Vec<u8> = Vec::new();
    let mut k: usize = 0;
    while k < data.len()
        invariant
            bytes@.len() == k,
            k <= data.len(),
            narrow_end_from(data@, k as int) == narrow_end_from(data@, 0),
            bytes@ == data@.subrange(0, k as int),
        decreases data.len() - k,
    {
        if data[k] == 0 {
            return Some(bytes);
        }
        bytes.push(data[k]);
        k += 1;
    }
    None
}

/// The lower-case form of an ASCII capital; any other character itself.
pub open spec fn ascii_lower(c: char) -> char {
    if 'A' <= c && c <= 'Z' {
        ((c as u32) + 32) as char
    } else {
        c
    }
}

/// Executable form of [`ascii_lower`].
pub fn to_ascii_lower(c: char) -> (r: char)
    ensures
        r == ascii_lower(c),
{
    if 'A' <= c && c <= 'Z' {
        ((c as u8) + 32) as char
    } else {
        c
    }
}

/// A text with its ASCII capitals in lower case.
pub open spec fn lowered(s: Seq<char>) -> Seq<char> {
    Seq::new(s.len(), |i: int| ascii_lower(s[i]))
}

/// What is left of a hexadecimal number's text once it is lowered and its
/// spaces and `0x` markers are taken out.
pub open spec fn hex_digits_of(s: Seq<char>) -> Seq<char> {
    replaced(replaced(lowered(s), seq![' '], Seq::empty()), seq!['0', 'x'], Seq::empty())
}

/// The number that a hexadecimal text spells, if it spells one that fits
/// 64 bits: case, spaces and `0x` markers are ignored.
pub open spec fn hex_text_value(s: Seq<char>) -> Option<u64> {
    match parse_unsigned(hex_digits_of(s), true, u64::MAX as nat) {
        Some(n) => Some(n as u64),
        None => None,
    }
}

/// Reads a hexadecimal number, ignoring case, spaces and `0x` markers.
pub fn hexstring_to_uint(hex: &str) -> (r: Option<u64>)
    ensures
        r == hex_text_value(hex@),
{
    let chars = to_chars(hex);
    let mut lower: Vec<char> = Vec::new();
    let mut i: usize = 0;
    while i < chars.len()
        invariant
            i <= chars.len(),
            lower@.len() == i,
            forall|j: int| 0 <= j < i ==> lower@[j] == ascii_lower(chars@[j]),
        decreases chars.len() - i,
    {
        lower.push(to_ascii_lower(chars[i]));
        i += 1;
    }
    assert(lower@ == lowered(hex@));
    let mut space: Vec<char> = Vec::new();
    space.push(' ');
    assert(space@ == seq![' ']);
    let mut marker: Vec<char> = Vec::new();
    marker.push('0');
    marker.push('x');
    assert(marker@ == seq!['0', 'x']);
    let nothing: Vec<char> = Vec::new();
    assert(nothing@ == Seq::<char>::empty());
    let unspaced = replace_all(&lower, &space, &nothing);
    let bare = replace_all(&unspaced, &marker, &nothing);
    read_unsigned(&bare, true, u64::MAX)
}

/// Two lower-case hexadecimal digits for each byte, in order.
pub open spec fn hex_bytes(bytes: Seq<u8>) -> Seq<char>
    decreases bytes.len(),
{
    if bytes.len() == 0 {
        Seq::empty()
    } else {
        hex_bytes(bytes.drop_last()) + zero_fill(hexadecimal(bytes.last() as nat, false), 2)
    }
}

/// Renders bytes as lower-case hexadecimal, two digits each.
pub fn bytes_as_hexstring(bytes: &[u8]) -> (r: String)
    ensures
        r@ == hex_bytes(bytes@),
{
    let mut out: Vec<char> = Vec::new();
    let mut i: usize = 0;
    while i < bytes.len()
        invariant
            i <= bytes.len(),
            out@ == hex_bytes(bytes@.subrange(0, i as int)),
        decreases bytes.len() - i,
    {
        assert(bytes@.subrange(0, i + 1).drop_last() == bytes@.subrange(0, i as int));
        let two = number_chars(bytes[i] as u64, true, false, 2);
        push_all(&mut out, &two);
        i += 1;
    }
    assert(bytes@.subrange(0, bytes.len() as int) == bytes@);
    from_chars(&out)
}

/// `n` in upper-case hexadecimal, with zeros in front up to `width`.
pub open spec fn hex_upper(n: nat, width: nat) -> Seq<char> {
    zero_fill(hexadecimal(n, true), width)
}

/// The canonical text of the identifier stored in the first sixteen bytes
/// of `d`: five groups of upper-case hexadecimal digits joined by dashes,
/// the first three read as little-endian numbers.
pub open spec fn guid_text(d: Seq<u8>) -> Seq<char>
    recommends
        d.len() >= 16,
{
    hex_upper((d[0] + 256 * d[1] + 65536 * d[2] + 16777216 * d[3]) as nat, 8) + seq!['-']
        + hex_upper((d[4] + 256 * d[5]) as nat, 4) + seq!['-'] + hex_upper(
        (d[6] + 256 * d[7]) as nat,
        4,
    ) + seq!['-'] + hex_upper(d[8] as nat, 2) + hex_upper(d[9] as nat, 2) + seq!['-']
        + hex_upper(d[10] as nat, 2) + hex_upper(d[11] as nat, 2) + hex_upper(d[12] as nat, 2)
        + hex_upper(d[13] as nat, 2) + hex_upper(d[14] as nat, 2) + hex_upper(d[15] as nat, 2)
}

fn push_hex_upper(out: &mut Vec<char>, n: u64, width: usize)
    ensures
        final(out)@ == old(out)@ + hex_upper(n as nat, width as nat),
{
    let v = number_chars(n, true, true, width);
    push_all(out, &v);
}

fn guid_chars(d: &Vec<u8>) -> (out: Vec<char>)
    requires
        d@.len() >= 16,
    ensures
        out@ == guid_text(d@),
{
    let mut out: Vec<char> = Vec::new();
    let first: u64 = d[0] as u64 + 256 * (d[1] as u64) + 65536 * (d[2] as u64) + 16777216 * (
    d[3] as u64);
    push_hex_upper(&mut out, first, 8);
    out.push('-');
    push_hex_upper(&mut out, d[4] as u64 + 256 * (d[5] as u64), 4);
    out.push('-');
    push_hex_upper(&mut out, d[6] as u64 + 256 * (d[7] as u64), 4);
    out.push('-');
    push_hex_upper(&mut out, d[8] as u64, 2);
    push_hex_upper(&mut out, d[9] as u64, 2);
    out.push('-');
    push_hex_upper(&mut out, d[10] as u64, 2);
    push_hex_upper(&mut out, d[11] as u64, 2);
    push_hex_upper(&mut out, d[12] as u64, 2);
    push_hex_upper(&mut out, d[13] as u64, 2);
    push_hex_upper(&mut out, d[14] as u64, 2);
    push_hex_upper(&mut out, d[15] as u64, 2);
    out
}

/// The calendar time stored as eight little-endian 16-bit fields in the
/// first sixteen bytes of `d`.
pub open spec fn time_at(d: Seq<u8>) -> SystemTime
    recommends
        d.len() >= 16,
{
    SystemTime {
        year: unit_at(d, 0),
        month: unit_at(d, 1),
        day_of_week: unit_at(d, 2),
        day: unit_at(d, 3),
        hour: unit_at(d, 4),
        minute: unit_at(d, 5),
        second: unit_at(d, 6),
        milliseconds: unit_at(d, 7),
    }
}

fn read_unit(d: &Vec<u8>, k: usize) -> (u: u16)
    requires
        2 * k + 1 < d@.len(),
    ensures
        u == unit_at(d@, k as int),
{
    let n: usize = d.len();
    assert(2 * k + 1 < n);
    let lo: u16 = d[2 * k] as u16;
    let hi: u16 = d[2 * k + 1] as u16;
    lo + 256 * hi
}

/// The payload's low bits below `modulus`, read as a two's-complement
/// number of that width.
pub open spec fn signed_low(payload: u64, modulus: int) -> int {
    let low = payload as int % modulus;
    if 2 * low >= modulus {
        low - modulus
    } else {
        low
    }
}

/// The payload's low bits below `modulus`, read as an unsigned number.
pub open spec fn unsigned_low(payload: u64, modulus: int) -> int {
    payload as int % modulus
}

/// What a cell decodes to before any type hint is applied.
pub open spec fn decoded_plain(cell: &RawCell) -> Result<VariantView, DecodeError> {
    let tag = cell.type_tag;
    let payload = cell.payload;
    if (tag & TYPE_ARRAY_FLAG) == TYPE_ARRAY_FLAG {
        Ok(VariantView::Text("[array]"@))
    } else if tag == TYPE_NULL {
        Ok(VariantView::Null)
    } else if tag == TYPE_STRING {
        match wide_units(cell.data@) {
            None => Err(DecodeError::Truncated),
            Some(units) => text_value(utf16_text(units)),
        }
    } else if tag == TYPE_ANSI_STRING {
        match narrow_bytes(cell.data@) {
            None => Err(DecodeError::Truncated),
            Some(bytes) => text_value(utf8_text(bytes)),
        }
    } else if tag == TYPE_SBYTE {
        Ok(VariantView::Int(signed_low(payload, 0x100) as i64))
    } else if tag == TYPE_BYTE {
        Ok(VariantView::UInt(unsigned_low(payload, 0x100) as u64))
    } else if tag == TYPE_INT16 {
        Ok(VariantView::Int(signed_low(payload, 0x1_0000) as i64))
    } else if tag == TYPE_UINT16 {
        Ok(VariantView::UInt(unsigned_low(payload, 0x1_0000) as u64))
    } else if tag == TYPE_INT32 {
        Ok(VariantView::Int(signed_low(payload, 0x1_0000_0000) as i64))
    } else if tag == TYPE_UINT32 || tag == TYPE_HEX_INT32 {
        Ok(VariantView::UInt(unsigned_low(payload, 0x1_0000_0000) as u64))
    } else if tag == TYPE_INT64 {
        Ok(VariantView::Int(signed_low(payload, 0x1_0000_0000_0000_0000) as i64))
    } else if tag == TYPE_UINT64 || tag == TYPE_HEX_INT64 || tag == TYPE_SIZE_T {
        Ok(VariantView::UInt(payload))
    } else if tag == TYPE_SINGLE {
        match cell.platform {
            PlatformValue::Float(text) => Ok(
                VariantView::Single(unsigned_low(payload, 0x1_0000_0000) as u32, text@),
            ),
            _ => Err(DecodeError::MissingConversion),
        }
    } else if tag == TYPE_DOUBLE {
        match cell.platform {
            PlatformValue::Float(text) => Ok(VariantView::Double(payload, text@)),
            _ => Err(DecodeError::MissingConversion),
        }
    } else if tag == TYPE_BOOLEAN {
        Ok(VariantView::Boolean(unsigned_low(payload, 0x1_0000_0000) != 0))
    } else if tag == TYPE_BINARY {
        Ok(VariantView::Binary(cell.data@))
    } else if tag == TYPE_GUID {
        if cell.data@.len() < 16 {
            Err(DecodeError::Truncated)
        } else {
            Ok(VariantView::Text(guid_text(cell.data@)))
        }
    } else if tag == TYPE_SID {
        match cell.platform {
            PlatformValue::WideText(units) => text_value(utf16_text(units@)),
            PlatformValue::Failed(code) => Err(DecodeError::ConversionError(code)),
            _ => Err(DecodeError::MissingConversion),
        }
    } else if tag == TYPE_FILE_TIME {
        match cell.platform {
            PlatformValue::Time(t) => Ok(VariantView::DateTime(t)),
            PlatformValue::Failed(code) => Err(DecodeError::ConversionError(code)),
            _ => Err(DecodeError::MissingConversion),
        }
    } else if tag == TYPE_SYS_TIME {
        if cell.data@.len() < 16 {
            Err(DecodeError::Truncated)
        } else {
            Ok(VariantView::DateTime(time_at(cell.data@)))
        }
    } else if tag == TYPE_HANDLE {
        if payload == 0 {
            Err(DecodeError::NullHandle)
        } else {
            Ok(VariantView::Handle(payload))
        }
    } else {
        Err(DecodeError::UnsupportedType(tag))
    }
}

/// Whether a declared type names a hexadecimal integer.
pub open spec fn is_hex_hint(hint: Seq<char>) -> bool {
    hint == "win:HexInt64"@ || hint == "win:HexInt32"@ || hint == "win:HexInt16"@ || hint
        == "win:HexInt8"@
}

/// A decoded value corrected by the field's declared type: a text that
/// spells a hexadecimal number, under a hexadecimal hint, is that number;
/// everything else stays as decoded.
pub open spec fn reconciled(value: VariantView, hint: Option<Seq<char>>) -> VariantView {
    match (value, hint) {
        (VariantView::Text(s), Some(h)) => if is_hex_hint(h) {
            match hex_text_value(s) {
                Some(u) => VariantView::UInt(u),
                None => value,
            }
        } else {
            value
        },
        _ => value,
    }
}

/// What a cell decodes to under an optional type hint.
pub open spec fn decoded(cell: &RawCell, hint: Option<Seq<char>>) -> Result<
    VariantView,
    DecodeError,
> {
    match decoded_plain(cell) {
        Ok(v) => Ok(reconciled(v, hint)),
        Err(e) => Err(e),
    }
}

/// The view of an optional string slice.
pub open spec fn hint_view(hint: Option<&str>) -> Option<Seq<char>> {
    match hint {
        Some(h) => Some(h@),
        None => None,
    }
}

/// The value that decoded text makes, or the error of text that could not
/// be decoded.
pub open spec fn text_value(text: Option<Seq<char>>) -> Result<VariantView, DecodeError> {
    match text {
        Some(s) => Ok(VariantView::Text(s)),
        None => Err(DecodeError::EncodingError),
    }
}

/// Wraps decoded text into a value; text that could not be decoded is an
/// encoding error.
pub fn text_or_encoding_error(text: Option<String>) -> (r: Result<EvtVariant, DecodeError>)
    ensures
        r is Ok <==> text is Some,
        r matches Ok(v) ==> text matches Some(s) && v@ == VariantView::Text(s@),
        r matches Err(e) ==> e == DecodeError::EncodingError,
{
    match text {
        Some(s) => Ok(EvtVariant::String(s)),
        None => Err(DecodeError::EncodingError),
    }
}

/// A copy of a byte vector.
pub fn copy_bytes(bytes: &Vec<u8>) -> (r: Vec<u8>)
    ensures
        r@ == bytes@,
{
    let mut r: Vec<u8> = Vec::new();
    let mut i: usize = 0;
    while i < bytes.len()
        invariant
            i <= bytes.len(),
            r@ == bytes@.subrange(0, i as int),
        decreases bytes.len() - i,
    {
        r.push(bytes[i]);
        i += 1;
    }
    r
}

fn decode_plain(cell: &RawCell) -> (r: Result<EvtVariant, DecodeError>)
    ensures
        r is Ok <==> decoded_plain(cell) is Ok,
        r matches Ok(v) ==> decoded_plain(cell) == Ok::<VariantView, DecodeError>(v@),
        r matches Err(e) ==> decoded_plain(cell) == Err::<VariantView, DecodeError>(e),
{
    let tag: u32 = cell.type_tag;
    let payload: u64 = cell.payload;
    if (tag & TYPE_ARRAY_FLAG) == TYPE_ARRAY_FLAG {
        Ok(EvtVariant::String("[array]".to_owned()))
    } else if tag == TYPE_NULL {
        Ok(EvtVariant::Null)
    } else if tag == TYPE_STRING {
        match read_wide_units(&cell.data) {
            None => Err(DecodeError::Truncated),
            Some(units) => text_or_encoding_error(decode_utf16(&units)),
        }
    } else if tag == TYPE_ANSI_STRING {
        match read_narrow_bytes(&cell.data) {
            None => Err(DecodeError::Truncated),
            Some(bytes) => text_or_encoding_error(decode_utf8_bytes(bytes)),
        }
    } else if tag == TYPE_SBYTE {
        let low: u64 = payload % 0x100;
        Ok(EvtVariant::Int(if low >= 0x80 { low as i64 - 0x100 } else { low as i64 }))
    } else if tag == TYPE_BYTE {
        Ok(EvtVariant::UInt(payload % 0x100))
    } else if tag == TYPE_INT16 {
        let low: u64 = payload % 0x1_0000;
        Ok(EvtVariant::Int(if low >= 0x8000 { low as i64 - 0x1_0000 } else { low as i64 }))
    } else if tag == TYPE_UINT16 {
        Ok(EvtVariant::UInt(payload % 0x1_0000))
    } else if tag == TYPE_INT32 {
        let low: u64 = payload % 0x1_0000_0000;
        Ok(
            EvtVariant::Int(
                if low >= 0x8000_0000 { low as i64 - 0x1_0000_0000 } else { low as i64 },
            ),
        )
    } else if tag == TYPE_UINT32 || tag == TYPE_HEX_INT32 {
        Ok(EvtVariant::UInt(payload % 0x1_0000_0000))
    } else if tag == TYPE_INT64 {
        if payload >= 0x8000_0000_0000_0000 {
            let magnitude: u64 = payload - 0x8000_0000_0000_0000;
            Ok(EvtVariant::Int(i64::MIN + magnitude as i64))
        } else {
            Ok(EvtVariant::Int(payload as i64))
        }
    } else if tag == TYPE_UINT64 || tag == TYPE_HEX_INT64 || tag == TYPE_SIZE_T {
        Ok(EvtVariant::UInt(payload))
    } else if tag == TYPE_SINGLE {
        match &cell.platform {
            PlatformValue::Float(text) => Ok(
                EvtVariant::Single((payload % 0x1_0000_0000) as u32, text.clone()),
            ),
            _ => Err(DecodeError::MissingConversion),
        }
    } else if tag == TYPE_DOUBLE {
        match &cell.platform {
            PlatformValue::Float(text) => Ok(EvtVariant::Double(payload, text.clone())),
            _ => Err(DecodeError::MissingConversion),
        }
    } else if tag == TYPE_BOOLEAN {
        Ok(EvtVariant::Boolean(payload % 0x1_0000_0000 != 0))
    } else if tag == TYPE_BINARY {
        Ok(EvtVariant::Binary(copy_bytes(&cell.data)))
    } else if tag == TYPE_GUID {
        if cell.data.len() < 16 {
            Err(DecodeError::Truncated)
        } else {
            let out = guid_chars(&cell.data);
            Ok(EvtVariant::String(from_chars(&out)))
        }
    } else if tag == TYPE_SID {
        match &cell.platform {
            PlatformValue::WideText(units) => text_or_encoding_error(decode_utf16(units)),
            PlatformValue::Failed(code) => Err(DecodeError::ConversionError(*code)),
            _ => Err(DecodeError::MissingConversion),
        }
    } else if tag == TYPE_FILE_TIME {
        match &cell.platform {
            PlatformValue::Time(t) => Ok(EvtVariant::DateTime(*t)),
            PlatformValue::Failed(code) => Err(DecodeError::ConversionError(*code)),
            _ => Err(DecodeError::MissingConversion),
        }
    } else if tag == TYPE_SYS_TIME {
        if cell.data.len() < 16 {
            Err(DecodeError::Truncated)
        } else {
            let d = &cell.data;
            Ok(
                EvtVariant::DateTime(
                    SystemTime {
                        year: read_unit(d, 0),
                        month: read_unit(d, 1),
                        day_of_week: read_unit(d, 2),
                        day: read_unit(d, 3),
                        hour: read_unit(d, 4),
                        minute: read_unit(d, 5),
                        second: read_unit(d, 6),
                        milliseconds: read_unit(d, 7),
                    },
                ),
            )
        }
    } else if tag == TYPE_HANDLE {
        if payload == 0 {
            Err(DecodeError::NullHandle)
        } else {
            Ok(EvtVariant::Handle(payload))
        }
    } else {
        Err(DecodeError::UnsupportedType(tag))
    }
}

/// Whether a declared type names a hexadecimal integer.
pub fn hint_is_hex(hint: &str) -> (r: bool)
    ensures
        r == is_hex_hint(hint@),
{
    same_text(hint, "win:HexInt64") || same_text(hint, "win:HexInt32") || same_text(
        hint,
        "win:HexInt16",
    ) || same_text(hint, "win:HexInt8")
}

/// Corrects a decoded value by the field's declared type.
pub fn reconcile_with_hint(value: EvtVariant, type_hint: Option<&str>) -> (r: EvtVariant)
    ensures
        r@ == reconciled(value@, hint_view(type_hint)),
{
    match (value, type_hint) {
        (EvtVariant::String(s), Some(h)) => {
            if hint_is_hex(h) {
                match hexstring_to_uint(s.as_str()) {
                    Some(u) => EvtVariant::UInt(u),
                    None => EvtVariant::String(s),
                }
            } else {
                EvtVariant::String(s)
            }
        },
        (value, _) => value,
    }
}

/// Decodes one cell into a typed value, corrected by the declared type of
/// its field where one is given.
pub fn unwrap_variant_contents(cell: &RawCell, type_hint: Option<&str>) -> (r: Result<
    EvtVariant,
    DecodeError,
>)
    ensures
        r is Ok <==> decoded(cell, hint_view(type_hint)) is Ok,
        r matches Ok(v) ==> decoded(cell, hint_view(type_hint)) == Ok::<VariantView, DecodeError>(
            v@,
        ),
        r matches Err(e) ==> decoded(cell, hint_view(type_hint)) == Err::<
            VariantView,
            DecodeError,
        >(e),
{
    match decode_plain(cell) {
        Ok(v) => Ok(reconcile_with_hint(v, type_hint)),
        Err(e) => Err(e),
    }
}

/// `n` in decimal, with zeros in front up to `width`.
pub open spec fn padded(n: u16, width: nat) -> Seq<char> {
    zero_fill(decimal(n as nat), width)
}

/// A calendar time written after a format: `%Y`, `%m`, `%d`, `%H`, `%M`
/// and `%S` stand for the year (four digits) and for month, day, hour,
/// minute and second (two digits each), `%.3f` for a dot and the
/// milliseconds (three digits), `%z` for the offset `+0000`. The tokens
/// are replaced in this order; anything else stays as it is.
pub open spec fn time_text(t: SystemTime, format: Seq<char>) -> Seq<char> {
    let a = replaced(format, seq!['%', 'Y'], padded(t.year, 4));
    let b = replaced(a, seq!['%', 'm'], padded(t.month, 2));
    let c = replaced(b, seq!['%', 'd'], padded(t.day, 2));
    let d = replaced(c, seq!['%', 'H'], padded(t.hour, 2));
    let e = replaced(d, seq!['%', 'M'], padded(t.minute, 2));
    let f = replaced(e, seq!['%', 'S'], padded(t.second, 2));
    let g = replaced(f, seq!['%', '.', '3', 'f'], seq!['.'] + padded(t.milliseconds, 3));
    replaced(g, seq!['%', 'z'], seq!['+', '0', '0', '0', '0'])
}

fn replace_token(s: &Vec<char>, letter: char, n: u16, width: usize) -> (r: Vec<char>)
    ensures
        r@ == replaced(s@, seq!['%', letter], padded(n, width as nat)),
{
    let mut token: Vec<char> = Vec::new();
    token.push('%');
    token.push(letter);
    assert(token@ == seq!['%', letter]);
    let with = number_chars(n as u64, false, false, width);
    replace_all(s, &token, &with)
}

/// Writes a calendar time after a format.
pub fn time_chars(stime: &SystemTime, datefmt: &Vec<char>) -> (r: Vec<char>)
    ensures
        r@ == time_text(*stime, datefmt@),
{
    let a = replace_token(datefmt, 'Y', stime.year, 4);
    let b = replace_token(&a, 'm', stime.month, 2);
    let c = replace_token(&b, 'd', stime.day, 2);
    let d = replace_token(&c, 'H', stime.hour, 2);
    let e = replace_token(&d, 'M', stime.minute, 2);
    let f = replace_token(&e, 'S', stime.second, 2);
    let mut token: Vec<char> = Vec::new();
    token.push('%');
    token.push('.');
    token.push('3');
    token.push('f');
    assert(token@ == seq!['%', '.', '3', 'f']);
    let mut with: Vec<char> = Vec::new();
    with.push('.');
    let millis = number_chars(stime.milliseconds as u64, false, false, 3);
    push_all(&mut with, &millis);
    let g = replace_all(&f, &token, &with);
    let mut zone: Vec<char> = Vec::new();
    zone.push('%');
    zone.push('z');
    assert(zone@ == seq!['%', 'z']);
    let mut offset: Vec<char> = Vec::new();
    offset.push('+');
    offset.push('0');
    offset.push('0');
    offset.push('0');
    offset.push('0');
    assert(offset@ == seq!['+', '0', '0', '0', '0']);
    replace_all(&g, &zone, &offset)
}

/// Writes a calendar time in UTC after a format.
pub fn format_utc_systemtime(stime: &SystemTime, datefmt: &str) -> (r: String)
    ensures
        r@ == time_text(*stime, datefmt@),
{
    let format = to_chars(datefmt);
    let out = time_chars(stime, &format);
    from_chars(&out)
}

/// The index of the provider's name among an event's system values.
pub const SYSTEM_PROVIDER_NAME: usize = 0;

/// The index of the event's identifier among its system values.
pub const SYSTEM_EVENT_ID: usize = 2;

/// The index of the time of creation among an event's system values.
pub const SYSTEM_TIME_CREATED: usize = 8;

/// The index of the record's number among an event's system values.
pub const SYSTEM_EVENT_RECORD_ID: usize = 9;

/// The index of the computer's name among an event's system values.
pub const SYSTEM_COMPUTER: usize = 15;

/// The index of the event's version among its system values.
pub const SYSTEM_VERSION: usize = 17;

/// The number of system values of an event.
pub const SYSTEM_VALUE_COUNT: usize = 18;

/// What every event carries, whatever its provider.
#[derive(Debug, PartialEq, Eq)]
pub struct CommonEventProperties {
    pub timestamp: SystemTime,
    pub hostname: String,
    pub recordid: u64,
    pub provider: String,
    pub eventid: u64,
    pub version: u64,
}

/// The mathematical content of [`CommonEventProperties`].
pub struct CommonView {
    pub timestamp: SystemTime,
    pub hostname: Seq<char>,
    pub recordid: u64,
    pub provider: Seq<char>,
    pub eventid: u64,
    pub version: u64,
}

impl View for CommonEventProperties {
    type V = CommonView;

    open spec fn view(&self) -> CommonView {
        CommonView {
            timestamp: self.timestamp,
            hostname: self.hostname@,
            recordid: self.recordid,
            provider: self.provider@,
            eventid: self.eventid,
            version: self.version,
        }
    }
}

/// Why the system values of an event could not be read.
#[derive(Clone, Copy, Debug, PartialEq, Eq, Structural)]
pub enum PropertyError {
    /// There are fewer system values than an event has.
    Incomplete,
    /// The system value at this index could not be decoded.
    Decode(usize, DecodeError),
    /// The system value at this index has another type than it must have.
    UnexpectedType(usize),
}

/// The system value at `index`, decoded without a type hint.
pub open spec fn system_value(cells: Seq<RawCell>, index: int) -> Result<VariantView, DecodeError>
    recommends
        0 <= index < cells.len(),
{
    decoded(&cells[index], None)
}

/// What the system values of an event say of it. The values are read in
/// the order time, computer, record number, provider, identifier,
/// version, and the first one that fails decides the error. A record
/// without a number is a bookmark and no event: the result is `None`.
/// An event without a version has version zero.
pub open spec fn common_properties(cells: Seq<RawCell>) -> Result<
    Option<CommonView>,
    PropertyError,
> {
    if cells.len() < SYSTEM_VALUE_COUNT {
        Err(PropertyError::Incomplete)
    } else {
        match system_value(cells, SYSTEM_TIME_CREATED as int) {
            Err(e) => Err(PropertyError::Decode(SYSTEM_TIME_CREATED, e)),
            Ok(VariantView::DateTime(timestamp)) => match system_value(
                cells,
                SYSTEM_COMPUTER as int,
            ) {
                Err(e) => Err(PropertyError::Decode(SYSTEM_COMPUTER, e)),
                Ok(VariantView::Text(hostname)) => match system_value(
                    cells,
                    SYSTEM_EVENT_RECORD_ID as int,
                ) {
                    Err(e) => Err(PropertyError::Decode(SYSTEM_EVENT_RECORD_ID, e)),
                    Ok(VariantView::Null) => Ok(None),
                    Ok(VariantView::UInt(recordid)) => match system_value(
                        cells,
                        SYSTEM_PROVIDER_NAME as int,
                    ) {
                        Err(e) => Err(PropertyError::Decode(SYSTEM_PROVIDER_NAME, e)),
                        Ok(VariantView::Text(provider)) => match system_value(
                            cells,
                            SYSTEM_EVENT_ID as int,
                        ) {
                            Err(e) => Err(PropertyError::Decode(SYSTEM_EVENT_ID, e)),
                            Ok(VariantView::UInt(eventid)) => match system_value(
                                cells,
                                SYSTEM_VERSION as int,
                            ) {
                                Err(e) => Err(PropertyError::Decode(SYSTEM_VERSION, e)),
                                Ok(VariantView::UInt(version)) => Ok(
                                    Some(
                                        CommonView {
                                            timestamp,
                                            hostname,
                                            recordid,
                                            provider,
                                            eventid,
                                            version,
                                        },
                                    ),
                                ),
                                Ok(VariantView::Null) => Ok(
                                    Some(
                                        CommonView {
                                            timestamp,
                                            hostname,
                                            recordid,
                                            provider,
                                            eventid,
                                            version: 0,
                                        },
                                    ),
                                ),
                                Ok(_) => Err(PropertyError::UnexpectedType(SYSTEM_VERSION)),
                            },
                            Ok(_) => Err(PropertyError::UnexpectedType(SYSTEM_EVENT_ID)),
                        },
                        Ok(_) => Err(PropertyError::UnexpectedType(SYSTEM_PROVIDER_NAME)),
                    },
                    Ok(_) => Err(PropertyError::UnexpectedType(SYSTEM_EVENT_RECORD_ID)),
                },
                Ok(_) => Err(PropertyError::UnexpectedType(SYSTEM_COMPUTER)),
            },
            Ok(_) => Err(PropertyError::UnexpectedType(SYSTEM_TIME_CREATED)),
        }
    }
}

/// The view of an optional set of common properties.
pub open spec fn opt_common(o: Option<CommonEventProperties>) -> Option<CommonView> {
    match o {
        Some(p) => Some(p@),
        None => None,
    }
}

/// Reads what every event carries from the event's system values.
pub fn get_event_common_properties(cells: &Vec<RawCell>) -> (r: Result<
    Option<CommonEventProperties>,
    PropertyError,
>)
    ensures
        r is Ok <==> common_properties(cells@) is Ok,
        r matches Ok(p) ==> common_properties(cells@) == Ok::<Option<CommonView>, PropertyError>(
            opt_common(p),
        ),
        r matches Err(e) ==> common_properties(cells@) == Err::<
            Option<CommonView>,
            PropertyError,
        >(e),
{
    if cells.len() < SYSTEM_VALUE_COUNT {
        return Err(PropertyError::Incomplete);
    }
    let timestamp = match unwrap_variant_contents(&cells[SYSTEM_TIME_CREATED], None) {
        Err(e) => {
            return Err(PropertyError::Decode(SYSTEM_TIME_CREATED, e));
        },
        Ok(EvtVariant::DateTime(t)) => t,
        Ok(_) => {
            return Err(PropertyError::UnexpectedType(SYSTEM_TIME_CREATED));
        },
    };
    let hostname = match unwrap_variant_contents(&cells[SYSTEM_COMPUTER], None) {
        Err(e) => {
            return Err(PropertyError::Decode(SYSTEM_COMPUTER, e));
        },
        Ok(EvtVariant::String(s)) => s,
        Ok(_) => {
            return Err(PropertyError::UnexpectedType(SYSTEM_COMPUTER));
        },
    };
    let recordid = match unwrap_variant_contents(&cells[SYSTEM_EVENT_RECORD_ID], None) {
        Err(e) => {
            return Err(PropertyError::Decode(SYSTEM_EVENT_RECORD_ID, e));
        },
        Ok(EvtVariant::UInt(u)) => u,
        Ok(EvtVariant::Null) => {
            return Ok(None);
        },
        Ok(_) => {
            return Err(PropertyError::UnexpectedType(SYSTEM_EVENT_RECORD_ID));
        },
    };
    let provider = match unwrap_variant_contents(&cells[SYSTEM_PROVIDER_NAME], None) {
        Err(e) => {
            return Err(PropertyError::Decode(SYSTEM_PROVIDER_NAME, e));
        },
        Ok(EvtVariant::String(s)) => s,
        Ok(_) => {
            return Err(PropertyError::UnexpectedType(SYSTEM_PROVIDER_NAME));
        },
    };
    let eventid = match unwrap_variant_contents(&cells[SYSTEM_EVENT_ID], None) {
        Err(e) => {
            return Err(PropertyError::Decode(SYSTEM_EVENT_ID, e));
        },
        Ok(EvtVariant::UInt(u)) => u,
        Ok(_) => {
            return Err(PropertyError::UnexpectedType(SYSTEM_EVENT_ID));
        },
    };
    let version = match unwrap_variant_contents(&cells[SYSTEM_VERSION], None) {
        Err(e) => {
            return Err(PropertyError::Decode(SYSTEM_VERSION, e));
        },
        Ok(EvtVariant::UInt(u)) => u,
        Ok(EvtVariant::Null) => 0,
        Ok(_) => {
            return Err(PropertyError::UnexpectedType(SYSTEM_VERSION));
        },
    };
    Ok(Some(CommonEventProperties { timestamp, hostname, recordid, provider, eventid, version }))
}

/// The kinds of decoded values.
#[derive(Clone, Copy, Debug, PartialEq, Eq, Structural)]
pub enum ValueKind {
    Null,
    Text,
    Handle,
    Unsigned,
    Signed,
    Single,
    Double,
    Boolean,
    Binary,
    Time,
}

/// The kind of a decoded value.
pub open spec fn kind_of(value: VariantView) -> ValueKind {
    match value {
        VariantView::Null => ValueKind::Null,
        VariantView::Text(_) => ValueKind::Text,
        VariantView::Handle(_) => ValueKind::Handle,
        VariantView::UInt(_) => ValueKind::Unsigned,
        VariantView::Int(_) => ValueKind::Signed,
        VariantView::Single(_, _) => ValueKind::Single,
        VariantView::Double(_, _) => ValueKind::Double,
        VariantView::Boolean(_) => ValueKind::Boolean,
        VariantView::Binary(_) => ValueKind::Binary,
        VariantView::DateTime(_) => ValueKind::Time,
    }
}

/// The kind of value that a scalar type tag declares: signed and
/// unsigned integers of every width, floating-point numbers of both
/// widths, truth values, and the absent value. Other tags declare none.
pub open spec fn scalar_kind(tag: u32) -> Option<ValueKind> {
    if tag == TYPE_NULL {
        Some(ValueKind::Null)
    } else if tag == TYPE_SBYTE || tag == TYPE_INT16 || tag == TYPE_INT32 || tag == TYPE_INT64 {
        Some(ValueKind::Signed)
    } else if tag == TYPE_BYTE || tag == TYPE_UINT16 || tag == TYPE_UINT32 || tag == TYPE_UINT64
        || tag == TYPE_SIZE_T || tag == TYPE_HEX_INT32 || tag == TYPE_HEX_INT64 {
        Some(ValueKind::Unsigned)
    } else if tag == TYPE_SINGLE {
        Some(ValueKind::Single)
    } else if tag == TYPE_DOUBLE {
        Some(ValueKind::Double)
    } else if tag == TYPE_BOOLEAN {
        Some(ValueKind::Boolean)
    } else {
        None
    }
}

/// A cell with a scalar type tag decodes to a value of the kind that the
/// tag declares, whatever the type hint. A floating-point cell has to
/// come with its written forms.
pub proof fn lemma_scalar_decodes_to_its_kind(cell: &RawCell, hint: Option<Seq<char>>)
    requires
        scalar_kind(cell.type_tag) is Some,
        cell.type_tag == TYPE_SINGLE || cell.type_tag == TYPE_DOUBLE ==> cell.platform
            is Float,
    ensures
        decoded(cell, hint) is Ok,
        kind_of(decoded(cell, hint)->Ok_0) == scalar_kind(cell.type_tag)->0,
{
    let tag = cell.type_tag;
    assert((tag & 128u32) != 128u32) by (bit_vector)
        requires
            tag < 128u32,
    ;
}

/// The kind of value that a type tag declares, for every tag that the
/// decoder knows: that of [`scalar_kind`] for scalars, text for strings
/// and identifiers, a time for both kinds of time, and bytes and handles
/// for themselves. Other tags declare none.
pub open spec fn declared_kind(tag: u32) -> Option<ValueKind> {
    if scalar_kind(tag) is Some {
        scalar_kind(tag)
    } else if tag == TYPE_STRING || tag == TYPE_ANSI_STRING || tag == TYPE_GUID || tag
        == TYPE_SID {
        Some(ValueKind::Text)
    } else if tag == TYPE_BINARY {
        Some(ValueKind::Binary)
    } else if tag == TYPE_FILE_TIME || tag == TYPE_SYS_TIME {
        Some(ValueKind::Time)
    } else if tag == TYPE_HANDLE {
        Some(ValueKind::Handle)
    } else {
        None
    }
}

/// Whatever a cell without type hint decodes to is of the kind that its
/// tag declares. A cell that points at bytes always decodes, to those
/// bytes.
pub proof fn lemma_decoded_kind_is_declared(cell: &RawCell)
    requires
        declared_kind(cell.type_tag) is Some,
    ensures
        decoded(cell, None) matches Ok(v) ==> kind_of(v) == declared_kind(cell.type_tag)->0,
        cell.type_tag == TYPE_BINARY ==> decoded(cell, None) == Ok::<VariantView, DecodeError>(
            VariantView::Binary(cell.data@),
        ),
{
    let tag = cell.type_tag;
    assert((tag & 128u32) != 128u32) by (bit_vector)
        requires
            tag < 128u32,
    ;
}

/// What a platform value holds.
pub enum PlatformView {
    Absent,
    Failed(u32),
    WideText(Seq<u16>),
    Time(SystemTime),
    Float(FloatTextView),
}

impl View for PlatformValue {
    type V = PlatformView;

    open spec fn view(&self) -> PlatformView {
        match self {
            PlatformValue::Absent => PlatformView::Absent,
            PlatformValue::Failed(code) => PlatformView::Failed(*code),
            PlatformValue::WideText(units) => PlatformView::WideText(units@),
            PlatformValue::Time(t) => PlatformView::Time(*t),
            PlatformValue::Float(text) => PlatformView::Float(text@),
        }
    }
}

/// Whether two cells hold the same tag, payload, data and platform
/// value.
pub open spec fn same_cell(a: &RawCell, b: &RawCell) -> bool {
    &&& a.type_tag == b.type_tag
    &&& a.payload == b.payload
    &&& a.data@ == b.data@
    &&& a.platform@ == b.platform@
}

/// Decoding is deterministic: cells that hold the same decode to the
/// same, be it a value or an error.
pub proof fn lemma_decoding_is_deterministic(a: &RawCell, b: &RawCell, hint: Option<Seq<char>>)
    requires
        same_cell(a, b),
    ensures
        decoded(a, hint) == decoded(b, hint),
{
}

/// Whether a type tag is one that the decoder knows.
pub open spec fn is_known_tag(tag: u32) -> bool {
    (tag & TYPE_ARRAY_FLAG) == TYPE_ARRAY_FLAG || tag == TYPE_NULL || tag == TYPE_STRING || tag
        == TYPE_ANSI_STRING || tag == TYPE_SBYTE || tag == TYPE_BYTE || tag == TYPE_INT16 || tag
        == TYPE_UINT16 || tag == TYPE_INT32 || tag == TYPE_UINT32 || tag == TYPE_INT64 || tag
        == TYPE_UINT64 || tag == TYPE_SINGLE || tag == TYPE_DOUBLE || tag == TYPE_BOOLEAN || tag
        == TYPE_BINARY || tag == TYPE_GUID || tag == TYPE_SIZE_T || tag == TYPE_FILE_TIME || tag
        == TYPE_SYS_TIME || tag == TYPE_SID || tag == TYPE_HEX_INT32 || tag == TYPE_HEX_INT64
        || tag == TYPE_HANDLE
}

/// A cell with an unknown type tag never decodes: the error names the
/// tag, whatever else the cell holds.
pub proof fn lemma_unknown_tag_is_unsupported(cell: &RawCell, hint: Option<Seq<char>>)
    requires
        !is_known_tag(cell.type_tag),
    ensures
        decoded(cell, hint) == Err::<VariantView, DecodeError>(
            DecodeError::UnsupportedType(cell.type_tag),
        ),
{
}

} // verus!
