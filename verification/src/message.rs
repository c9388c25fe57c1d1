//! Expansion of message templates.
//!
//! A template is literal text with placeholders `%1`, `%2`, ... that stand
//! for the event's values. A placeholder may be followed by a format
//! specification between two `!`, which is skipped: a value is always
//! written in the form that its type gives it.

use crate::formatting::{
    decoded, unwrap_variant_contents, DecodeError, EvtVariant, RawCell, SystemTime, VariantView,
};
use crate::metadata::{fields_of, EventDefinition, FieldView};
use crate::text::{
    all_digits, char_to_digit, decimal, digit_value, digits_number, from_chars, push_all,
    push_decimal, push_range, push_signed_decimal, push_str, read_unsigned, signed_decimal,
    to_chars, unsigned_body,
};
use vstd::prelude::*;
use vstd::string::*;

verus! {

/// Why a template could not be expanded.
#[derive(Clone, Copy, Debug, PartialEq, Eq, Structural)]
pub enum FormatError {
    /// The event has no message template.
    NoTemplate,
    /// A placeholder's number is zero or exceeds the number of values.
    /// The error names the placeholder's number, or the largest 64-bit
    /// number where it is larger than that, and the number of values.
    OutOfRange(u64, usize),
    /// The template ends inside a placeholder or a format specification.
    MalformedTemplate,
    /// The value at this index, counted from zero, could not be decoded.
    Decode(usize, DecodeError),
}

/// Where the reader of a template stands.
#[derive(Clone, Copy, Debug, PartialEq, Eq, Structural)]
pub enum FormatterState {
    /// In literal text that began at the given position.
    InLiteral(usize),
    /// After a `%` in literal text that began at the given position.
    AfterPercentInLiteral(usize),
    /// In a placeholder's number, whose first digit is at the given
    /// position.
    InPlaceholderNumber(usize),
    /// In a format specification, before its closing `!`.
    InFormatSpec,
}

/// The bytes of a list in the form `[1, 2, 3]`.
pub open spec fn byte_list_items(bytes: Seq<u8>) -> Seq<char>
    decreases bytes.len(),
{
    if bytes.len() == 0 {
        Seq::empty()
    } else if bytes.len() == 1 {
        decimal(bytes[0] as nat)
    } else {
        byte_list_items(bytes.drop_last()) + seq![',', ' '] + decimal(bytes.last() as nat)
    }
}

/// A calendar time as `year-month-day hour:minute:second.milliseconds`,
/// each number without padding.
pub open spec fn plain_time(t: SystemTime) -> Seq<char> {
    decimal(t.year as nat) + seq!['-'] + decimal(t.month as nat) + seq!['-'] + decimal(
        t.day as nat,
    ) + seq![' '] + decimal(t.hour as nat) + seq![':'] + decimal(t.minute as nat) + seq![':']
        + decimal(t.second as nat) + seq!['.'] + decimal(t.milliseconds as nat)
}

/// The text that stands for a value inside a message.
pub open spec fn message_text(value: VariantView) -> Seq<char> {
    match value {
        VariantView::Null => "null"@,
        VariantView::Handle(_) => "<handle>"@,
        VariantView::Text(s) => s,
        VariantView::UInt(u) => decimal(u as nat),
        VariantView::Int(i) => signed_decimal(i as int),
        VariantView::Single(_, text) => text.plain,
        VariantView::Double(_, text) => text.plain,
        VariantView::Boolean(b) => if b {
            "true"@
        } else {
            "false"@
        },
        VariantView::Binary(v) => seq!['['] + byte_list_items(v) + seq![']'],
        VariantView::DateTime(t) => plain_time(t),
    }
}

/// Renders a value as it stands inside a message.
pub fn render_for_message(value: &EvtVariant) -> (out: Vec<char>)
    ensures
        out@ == message_text(value@),
{
    let mut out: Vec<char> = Vec::new();
    match value {
        EvtVariant::Null => {
            push_str(&mut out, "null");
        },
        EvtVariant::Handle(_) => {
            push_str(&mut out, "<handle>");
        },
        EvtVariant::String(s) => {
            push_str(&mut out, s.as_str());
        },
        EvtVariant::UInt(u) => {
            push_decimal(&mut out, *u);
        },
        EvtVariant::Int(i) => {
            push_signed_decimal(&mut out, *i);
        },
        EvtVariant::Single(_, text) => {
            push_str(&mut out, text.plain.as_str());
        },
        EvtVariant::Double(_, text) => {
            push_str(&mut out, text.plain.as_str());
        },
        EvtVariant::Boolean(b) => {
            if *b {
                push_str(&mut out, "true");
            } else {
                push_str(&mut out, "false");
            }
        },
        EvtVariant::Binary(v) => {
            out.push('[');
            let mut i: usize = 0;
            while i < v.len()
                invariant
                    i <= v.len(),
                    out@ == seq!['['] + byte_list_items(v@.subrange(0, i as int)),
                decreases v.len() - i,
            {
                assert(v@.subrange(0, i + 1).drop_last() == v@.subrange(0, i as int));
                if i > 0 {
                    out.push(',');
                    out.push(' ');
                }
                push_decimal(&mut out, v[i] as u64);
                i += 1;
            }
            assert(v@.subrange(0, v.len() as int) == v@);
            out.push(']');
        },
        EvtVariant::DateTime(t) => {
            push_decimal(&mut out, t.year as u64);
            out.push('-');
            push_decimal(&mut out, t.month as u64);
            out.push('-');
            push_decimal(&mut out, t.day as u64);
            out.push(' ');
            push_decimal(&mut out, t.hour as u64);
            out.push(':');
            push_decimal(&mut out, t.minute as u64);
            out.push(':');
            push_decimal(&mut out, t.second as u64);
            out.push('.');
            push_decimal(&mut out, t.milliseconds as u64);
        },
    }
    out
}

/// The declared type of field `index`, where the definition has one.
pub open spec fn hint_at(fields: Seq<FieldView>, index: int) -> Option<Seq<char>> {
    if 0 <= index < fields.len() {
        Some(fields[index].out_type)
    } else {
        None
    }
}

/// The text of value `index` inside a message: the value decoded under
/// its declared type, then rendered.
pub open spec fn field_text(cells: Seq<RawCell>, fields: Seq<FieldView>, index: int) -> Result<
    Seq<char>,
    FormatError,
>
    recommends
        0 <= index < cells.len(),
{
    match decoded(&cells[index], hint_at(fields, index)) {
        Ok(v) => Ok(message_text(v)),
        Err(e) => Err(FormatError::Decode(index as usize, e)),
    }
}

/// A number as a 64-bit number: itself, or the largest 64-bit number
/// where it is larger than that.
pub open spec fn capped(number: nat) -> u64 {
    if number > u64::MAX {
        u64::MAX
    } else {
        number as u64
    }
}

/// The state of an expansion: where the reader stands, and the text
/// written so far.
pub struct Expansion {
    pub state: FormatterState,
    pub out: Seq<char>,
}

/// The expansion after the character at `pos` has been read.
///
/// A `%` in literal text may start a placeholder; a second `%` takes that
/// back. The first digit after it ends the literal text, which is written
/// without its last character, and starts the number. The first
/// character that is no digit ends the number: the value is written, and
/// the character opens a format specification if it is `!`, and literal
/// text otherwise. A `!` ends a format specification. Any other
/// character leaves the state as it is.
pub open spec fn after_char(
    template: Seq<char>,
    cells: Seq<RawCell>,
    fields: Seq<FieldView>,
    e: Expansion,
    pos: int,
) -> Result<Expansion, FormatError>
    recommends
        0 <= pos < template.len(),
{
    let c = template[pos];
    match e.state {
        FormatterState::InLiteral(start) => if c == '%' {
            Ok(Expansion { state: FormatterState::AfterPercentInLiteral(start), out: e.out })
        } else {
            Ok(e)
        },
        FormatterState::AfterPercentInLiteral(start) => if c == '%' {
            Ok(Expansion { state: FormatterState::InLiteral(start), out: e.out })
        } else if digit_value(c, false) is Some {
            Ok(
                Expansion {
                    state: FormatterState::InPlaceholderNumber(pos as usize),
                    out: e.out + template.subrange(start as int, pos - 1),
                },
            )
        } else {
            Ok(e)
        },
        FormatterState::InPlaceholderNumber(start) => if digit_value(c, false) is Some {
            Ok(e)
        } else {
            let number = digits_number(template.subrange(start as int, pos), false);
            if number == 0 || number > cells.len() {
                Err(FormatError::OutOfRange(capped(number), cells.len() as usize))
            } else {
                match field_text(cells, fields, number - 1) {
                    Err(err) => Err(err),
                    Ok(text) => Ok(
                        Expansion {
                            state: if c == '!' {
                                FormatterState::InFormatSpec
                            } else {
                                FormatterState::InLiteral(pos as usize)
                            },
                            out: e.out + text,
                        },
                    ),
                }
            }
        },
        FormatterState::InFormatSpec => if c == '!' {
            Ok(Expansion { state: FormatterState::InLiteral((pos + 1) as usize), out: e.out })
        } else {
            Ok(e)
        },
    }
}

/// The expansion after the first `n` characters, or the first error met.
pub open spec fn after_chars(
    template: Seq<char>,
    cells: Seq<RawCell>,
    fields: Seq<FieldView>,
    n: int,
) -> Result<Expansion, FormatError>
    decreases n,
{
    if n <= 0 {
        Ok(Expansion { state: FormatterState::InLiteral(0), out: Seq::empty() })
    } else {
        match after_chars(template, cells, fields, n - 1) {
            Err(e) => Err(e),
            Ok(e) => after_char(template, cells, fields, e, n - 1),
        }
    }
}

/// The message that a template expands to. The template has to end in
/// literal text: ending inside a placeholder's number or a format
/// specification, or right after a `%`, is an error.
pub open spec fn expanded(template: Seq<char>, cells: Seq<RawCell>, fields: Seq<FieldView>)
    -> Result<Seq<char>, FormatError> {
    match after_chars(template, cells, fields, template.len() as int) {
        Err(e) => Err(e),
        Ok(e) => match e.state {
            FormatterState::InLiteral(start) => Ok(
                e.out + template.subrange(start as int, template.len() as int),
            ),
            _ => Err(FormatError::MalformedTemplate),
        },
    }
}

/// The message of an event: its template expanded, if it has one.
pub open spec fn formatted_message(
    message: Option<Seq<char>>,
    cells: Seq<RawCell>,
    fields: Seq<FieldView>,
) -> Result<Seq<char>, FormatError> {
    match message {
        None => Err(FormatError::NoTemplate),
        Some(template) => expanded(template, cells, fields),
    }
}

/// Once an expansion has failed, reading further fails the same way.
pub proof fn lemma_expansion_stays_failed(
    template: Seq<char>,
    cells: Seq<RawCell>,
    fields: Seq<FieldView>,
    n: int,
    m: int,
)
    requires
        n <= m,
        after_chars(template, cells, fields, n) is Err,
    ensures
        after_chars(template, cells, fields, m) == after_chars(template, cells, fields, n),
    decreases m - n,
{
    if n < m {
        lemma_expansion_stays_failed(template, cells, fields, n, m - 1);
    }
}

/// Whether the reader's positions lie inside the part of the template
/// read so far.
pub open spec fn state_fits(template: Seq<char>, state: FormatterState, pos: int) -> bool {
    match state {
        FormatterState::InLiteral(start) => start <= pos,
        FormatterState::AfterPercentInLiteral(start) => start < pos,
        FormatterState::InPlaceholderNumber(start) => start < pos && all_digits(
            template.subrange(start as int, pos),
            false,
        ),
        FormatterState::InFormatSpec => true,
    }
}

/// Expands the message template of an event with the event's values.
///
/// A value is decoded when a placeholder first refers to it, under the
/// declared type of its field, and its text is kept for later
/// placeholders.
pub fn format_event_message(event_def: &EventDefinition, cells: &Vec<RawCell>) -> (r: Result<
    String,
    FormatError,
>)
    ensures
        r is Ok <==> formatted_message(event_def@.message, cells@, event_def@.fields) is Ok,
        r matches Ok(s) ==> formatted_message(event_def@.message, cells@, event_def@.fields)
            == Ok::<Seq<char>, FormatError>(s@),
        r matches Err(e) ==> formatted_message(event_def@.message, cells@, event_def@.fields)
            == Err::<Seq<char>, FormatError>(e),
{
    let template = match &event_def.message {
        Some(t) => to_chars(t.as_str()),
        None => {
            return Err(FormatError::NoTemplate);
        },
    };
    let ghost fields = event_def@.fields;
    let mut cache: Vec<Option<Vec<char>>> = Vec::new();
    let mut k: usize = 0;
    while k < cells.len()
        invariant
            k <= cells.len(),
            cache@.len() == k,
            forall|j: int| 0 <= j < k ==> cache@[j] is None,
        decreases cells.len() - k,
    {
        cache.push(None);
        k += 1;
    }
    let mut out: Vec<char> = Vec::new();
    let mut state = FormatterState::InLiteral(0);
    let mut pos: usize = 0;
    while pos < template.len()
        invariant
            pos <= template.len(),
            event_def@.message == Some(template@),
            fields == event_def@.fields,
            fields == fields_of(event_def.fields@),
            cache@.len() == cells@.len(),
            forall|j: int|
                0 <= j < cache@.len() ==> (#[trigger] cache@[j] matches Some(text) ==> field_text(
                    cells@,
                    fields,
                    j,
                ) == Ok::<Seq<char>, FormatError>(text@)),
            state_fits(template@, state, pos as int),
            after_chars(template@, cells@, fields, pos as int) == Ok::<Expansion, FormatError>(
                Expansion { state, out: out@ },
            ),
        decreases template.len() - pos,
    {
        let c = template[pos];
        let ghost before = Expansion { state, out: out@ };
        assert(after_chars(template@, cells@, fields, pos + 1) == after_char(
            template@,
            cells@,
            fields,
            before,
            pos as int,
        ));
        let digit = char_to_digit(c, false).is_some();
        match state {
            FormatterState::InLiteral(start) => {
                if c == '%' {
                    state = FormatterState::AfterPercentInLiteral(start);
                }
            },
            FormatterState::AfterPercentInLiteral(start) => {
                if c == '%' {
                    state = FormatterState::InLiteral(start);
                } else if digit {
                    push_range(&mut out, &template, start, pos - 1);
                    state = FormatterState::InPlaceholderNumber(pos);
                    assert(template@.subrange(pos as int, pos + 1) == seq![c]);
                }
            },
            FormatterState::InPlaceholderNumber(start) => {
                if digit {
                    assert forall|j: int| 0 <= j < pos + 1 - start implies (
                    #[trigger] digit_value(template@.subrange(start as int, pos + 1)[j], false))
                        is Some by {
                        if j < pos - start {
                            assert(template@.subrange(start as int, pos as int)[j]
                                == template@.subrange(start as int, pos + 1)[j]);
                        }
                    }
                } else {
                    let mut number: Vec<char> = Vec::new();
                    push_range(&mut number, &template, start, pos);
                    assert(number@ == template@.subrange(start as int, pos as int));
                    assert(digit_value(number@[0], false) is Some);
                    let ghost value = digits_number(number@, false);
                    let read = read_unsigned(&number, false, u64::MAX);
                    let placeholder: u64 = match read {
                        None => u64::MAX,
                        Some(n) => n,
                    };
                    assert(unsigned_body(number@) == number@);
                    assert(read is None ==> value > u64::MAX);
                    assert(placeholder == capped(value));
                    assert(cells.len() <= u64::MAX);
                    if read.is_none() || placeholder == 0 || placeholder > cells.len() as u64 {
                        proof {
                            lemma_expansion_stays_failed(
                                template@,
                                cells@,
                                fields,
                                pos + 1,
                                template.len() as int,
                            );
                        }
                        return Err(FormatError::OutOfRange(placeholder, cells.len()));
                    }
                    assert(placeholder == value);
                    let index: usize = (placeholder - 1) as usize;
                    if cache[index].is_none() {
                        let rendered = if index < event_def.fields.len() {
                            let hint = event_def.fields[index].out_type.as_str();
                            assert(fields[index as int] == event_def.fields@[index as int]@);
                            unwrap_variant_contents(&cells[index], Some(hint))
                        } else {
                            unwrap_variant_contents(&cells[index], None)
                        };
                        match rendered {
                            Err(e) => {
                                proof {
                                    lemma_expansion_stays_failed(
                                        template@,
                                        cells@,
                                        fields,
                                        pos + 1,
                                        template.len() as int,
                                    );
                                }
                                return Err(FormatError::Decode(index, e));
                            },
                            Ok(value) => {
                                let text = render_for_message(&value);
                                cache.set(index, Some(text));
                            },
                        }
                    }
                    match &cache[index] {
                        Some(text) => {
                            push_all(&mut out, text);
                        },
                        None => {},
                    }
                    if c == '!' {
                        state = FormatterState::InFormatSpec;
                    } else {
                        state = FormatterState::InLiteral(pos);
                    }
                }
            },
            FormatterState::InFormatSpec => {
                if c == '!' {
                    state = FormatterState::InLiteral(pos + 1);
                }
            },
        }
        pos += 1;
    }
    match state {
        FormatterState::InLiteral(start) => {
            push_range(&mut out, &template, start, template.len());
            Ok(from_chars(&out))
        },
        _ => Err(FormatError::MalformedTemplate),
    }
}

} // verus!
