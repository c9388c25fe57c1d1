//! Events as lines of separated values.
//!
//! A line holds one value per column, with the separator between two
//! values and a line feed at the end. Nothing is quoted: where a value
//! holds the separator, a space stands in its place.

use crate::formatting::{
    bytes_as_hexstring, decoded, hex_bytes, time_chars, time_text, unwrap_variant_contents,
    CommonEventProperties, CommonView, EvtVariant, RawCell, VariantView,
};
use crate::message::{format_event_message, formatted_message};
use crate::metadata::{opt_text, texts_of, DefinitionView, EventDefinition};
use crate::output_cols::OutputColumn;
use crate::rendering::{RenderError, RenderingConfig};
use crate::text::{
    decimal, from_chars, joined, lemma_joined_separators, lemma_replaced_char_is_gone,
    occurrences, push_all, push_decimal, push_signed_decimal, push_str, replace_all, replaced,
    signed_decimal, to_chars,
};
use vstd::prelude::*;
use vstd::string::*;

verus! {

/// The text of a value in a line of separated values.
pub open spec fn csv_value_text(value: VariantView, datefmt: Seq<char>) -> Seq<char> {
    match value {
        VariantView::Null => Seq::empty(),
        VariantView::Handle(_) => "<handle>"@,
        VariantView::Text(s) => s,
        VariantView::UInt(u) => decimal(u as nat),
        VariantView::Int(i) => signed_decimal(i as int),
        VariantView::Single(_, text) => text.plain,
        VariantView::Double(_, text) => text.plain,
        VariantView::Boolean(b) => if b {
            "true"@
        } else {
            "false"@
        },
        VariantView::Binary(v) => hex_bytes(v),
        VariantView::DateTime(t) => time_text(t, datefmt),
    }
}

/// Renders a value for a line of separated values.
pub fn render_for_csv(value: &EvtVariant, datefmt: &Vec<char>) -> (out: Vec<char>)
    ensures
        out@ == csv_value_text(value@, datefmt@),
{
    let mut out: Vec<char> = Vec::new();
    match value {
        EvtVariant::Null => {},
        EvtVariant::Handle(_) => {
            push_str(&mut out, "<handle>");
        },
        EvtVariant::String(s) => {
            push_str(&mut out, s.as_str());
        },
        EvtVariant::UInt(u) => {
            push_decimal(&mut out, *u);
        },
        EvtVariant::Int(i) => {
            push_signed_decimal(&mut out, *i);
        },
        EvtVariant::Single(_, text) => {
            push_str(&mut out, text.plain.as_str());
        },
        EvtVariant::Double(_, text) => {
            push_str(&mut out, text.plain.as_str());
        },
        EvtVariant::Boolean(b) => {
            if *b {
                push_str(&mut out, "true");
            } else {
                push_str(&mut out, "false");
            }
        },
        EvtVariant::Binary(v) => {
            let hex = bytes_as_hexstring(v.as_slice());
            push_str(&mut out, hex.as_str());
        },
        EvtVariant::DateTime(t) => {
            let text = time_chars(t, datefmt);
            push_all(&mut out, &text);
        },
    }
    out
}

/// What one column contributes to an output record.
pub enum ColumnText {
    /// The column's value, as text.
    Value(Seq<char>),
    /// The column is left out: the event has nothing for it.
    Omitted,
    /// The column refers to a field that the event does not have: the
    /// record ends before it.
    Truncated,
    /// The column's value cannot be had.
    Failed(RenderError),
}

/// The text of an optional value, or its omission.
pub open spec fn optional_column(value: Option<Seq<char>>) -> ColumnText {
    match value {
        Some(text) => ColumnText::Value(text),
        None => ColumnText::Omitted,
    }
}

/// What a column contributes to a line of separated values, before the
/// separator is taken out of it.
///
/// Columns of names and messages are left out where the definition has
/// none. A message that cannot be expanded stands as its template. A
/// field is referred to by its number, counted from one, and decoded
/// without a type hint.
pub open spec fn csv_column(
    column: OutputColumn,
    common: CommonView,
    cells: Seq<RawCell>,
    def: DefinitionView,
    datefmt: Seq<char>,
) -> ColumnText {
    match column {
        OutputColumn::Hostname => ColumnText::Value(common.hostname),
        OutputColumn::RecordID => ColumnText::Value(decimal(common.recordid as nat)),
        OutputColumn::Timestamp => ColumnText::Value(time_text(common.timestamp, datefmt)),
        OutputColumn::Provider => ColumnText::Value(common.provider),
        OutputColumn::EventID => ColumnText::Value(decimal(common.eventid as nat)),
        OutputColumn::Version => ColumnText::Value(decimal(common.version as nat)),
        OutputColumn::Level => ColumnText::Value(decimal(def.level as nat)),
        OutputColumn::LevelName => optional_column(def.level_name),
        OutputColumn::Task => ColumnText::Value(decimal(def.task as nat)),
        OutputColumn::TaskName => optional_column(def.task_name),
        OutputColumn::Opcode => ColumnText::Value(decimal(def.opcode as nat)),
        OutputColumn::OpcodeName => optional_column(def.opcode_name),
        OutputColumn::Keywords => ColumnText::Value(decimal(def.keywords as nat)),
        OutputColumn::KeywordNames => ColumnText::Value(joined(def.keyword_names, seq![','])),
        OutputColumn::UnformattedMessage => optional_column(def.message),
        OutputColumn::FormattedMessage => match def.message {
            None => ColumnText::Omitted,
            Some(template) => match formatted_message(def.message, cells, def.fields) {
                Ok(text) => ColumnText::Value(text),
                Err(_) => ColumnText::Value(template),
            },
        },
        OutputColumn::EventSpecific(number) => if number == 0 || number > cells.len() {
            ColumnText::Truncated
        } else {
            match decoded(&cells[number - 1], None) {
                Ok(value) => ColumnText::Value(csv_value_text(value, datefmt)),
                Err(e) => ColumnText::Failed(RenderError::Decode((number - 1) as usize, e)),
            }
        },
    }
}

/// A text with a space in place of each separator.
pub open spec fn without_separator(text: Seq<char>, separator: char) -> Seq<char> {
    replaced(text, seq![separator], seq![' '])
}

/// The values of a line read so far, and whether the line has ended.
pub struct LineSoFar {
    pub values: Seq<Seq<char>>,
    pub ended: bool,
}

/// The line after one more column.
pub open spec fn csv_after_column(
    line: LineSoFar,
    contribution: ColumnText,
    separator: char,
) -> Result<LineSoFar, RenderError> {
    if line.ended {
        Ok(line)
    } else {
        match contribution {
            ColumnText::Value(text) => Ok(
                LineSoFar {
                    values: line.values.push(without_separator(text, separator)),
                    ended: false,
                },
            ),
            ColumnText::Omitted => Ok(line),
            ColumnText::Truncated => Ok(LineSoFar { values: line.values, ended: true }),
            ColumnText::Failed(e) => Err(e),
        }
    }
}

/// The line after the first `n` columns, or the first error met.
pub open spec fn csv_after_columns(
    columns: Seq<OutputColumn>,
    n: int,
    common: CommonView,
    cells: Seq<RawCell>,
    def: DefinitionView,
    datefmt: Seq<char>,
    separator: char,
) -> Result<LineSoFar, RenderError>
    decreases n,
{
    if n <= 0 {
        Ok(LineSoFar { values: Seq::empty(), ended: false })
    } else {
        match csv_after_columns(columns, n - 1, common, cells, def, datefmt, separator) {
            Err(e) => Err(e),
            Ok(line) => csv_after_column(
                line,
                csv_column(columns[n - 1], common, cells, def, datefmt),
                separator,
            ),
        }
    }
}

/// The values of the line that an event is rendered to: one for each
/// column that is not left out, up to the first column that refers to a
/// field which the event does not have.
pub open spec fn csv_values(
    columns: Seq<OutputColumn>,
    common: CommonView,
    cells: Seq<RawCell>,
    def: DefinitionView,
    datefmt: Seq<char>,
    separator: char,
) -> Result<Seq<Seq<char>>, RenderError> {
    match csv_after_columns(columns, columns.len() as int, common, cells, def, datefmt, separator) {
        Err(e) => Err(e),
        Ok(line) => Ok(line.values),
    }
}

/// The line that an event is rendered to: its values with the separator
/// between them, and a line feed.
pub open spec fn csv_line(
    columns: Seq<OutputColumn>,
    common: CommonView,
    cells: Seq<RawCell>,
    def: DefinitionView,
    datefmt: Seq<char>,
    separator: char,
) -> Result<Seq<char>, RenderError> {
    match csv_values(columns, common, cells, def, datefmt, separator) {
        Err(e) => Err(e),
        Ok(values) => Ok(joined(values, seq![separator]) + seq!['\n']),
    }
}

/// Once rendering has failed, further columns do not change the error.
pub proof fn lemma_csv_stays_failed(
    columns: Seq<OutputColumn>,
    n: int,
    m: int,
    common: CommonView,
    cells: Seq<RawCell>,
    def: DefinitionView,
    datefmt: Seq<char>,
    separator: char,
)
    requires
        n <= m,
        csv_after_columns(columns, n, common, cells, def, datefmt, separator) is Err,
    ensures
        csv_after_columns(columns, m, common, cells, def, datefmt, separator) == csv_after_columns(
            columns,
            n,
            common,
            cells,
            def,
            datefmt,
            separator,
        ),
    decreases m - n,
{
    if n < m {
        lemma_csv_stays_failed(columns, n, m - 1, common, cells, def, datefmt, separator);
    }
}

/// Once a line has ended, further columns do not change it.
pub proof fn lemma_csv_stays_ended(
    columns: Seq<OutputColumn>,
    n: int,
    m: int,
    common: CommonView,
    cells: Seq<RawCell>,
    def: DefinitionView,
    datefmt: Seq<char>,
    separator: char,
)
    requires
        n <= m,
        csv_after_columns(columns, n, common, cells, def, datefmt, separator) matches Ok(line)
            && line.ended,
    ensures
        csv_after_columns(columns, m, common, cells, def, datefmt, separator) == csv_after_columns(
            columns,
            n,
            common,
            cells,
            def,
            datefmt,
            separator,
        ),
    decreases m - n,
{
    if n < m {
        lemma_csv_stays_ended(columns, n, m - 1, common, cells, def, datefmt, separator);
    }
}

fn optional_text(value: &Option<String>) -> (r: Option<Vec<char>>)
    ensures
        r is Some <==> value is Some,
        r matches Some(v) ==> opt_text(*value) == Some(v@),
{
    match value {
        Some(s) => Some(to_chars(s.as_str())),
        None => None,
    }
}

fn joined_names(names: &Vec<String>) -> (out: Vec<char>)
    ensures
        out@ == joined(texts_of(names@), seq![',']),
{
    let mut out: Vec<char> = Vec::new();
    let mut i: usize = 0;
    let ghost all = texts_of(names@);
    while i < names.len()
        invariant
            i <= names.len(),
            all == texts_of(names@),
            out@ == joined(all.subrange(0, i as int), seq![',']),
        decreases names.len() - i,
    {
        assert(all.subrange(0, i + 1).drop_last() == all.subrange(0, i as int));
        assert(all.subrange(0, i + 1).last() == names@[i as int]@);
        if i > 0 {
            out.push(',');
            assert(seq![','] == Seq::<char>::empty().push(','));
        }
        push_str(&mut out, names[i].as_str());
        i += 1;
    }
    assert(all.subrange(0, names.len() as int) == all);
    out
}

/// Renders an event as one line of separated values, with the given
/// definition of the event.
pub fn render_csv_line(
    common_props: &CommonEventProperties,
    cells: &Vec<RawCell>,
    columns: &Vec<OutputColumn>,
    event_def: &EventDefinition,
    datefmt: &str,
    field_separator: char,
) -> (r: Result<String, RenderError>)
    ensures
        r is Ok <==> csv_line(
            columns@,
            common_props@,
            cells@,
            event_def@,
            datefmt@,
            field_separator,
        ) is Ok,
        r matches Ok(s) ==> csv_line(
            columns@,
            common_props@,
            cells@,
            event_def@,
            datefmt@,
            field_separator,
        ) == Ok::<Seq<char>, RenderError>(s@),
        r matches Err(e) ==> csv_line(
            columns@,
            common_props@,
            cells@,
            event_def@,
            datefmt@,
            field_separator,
        ) == Err::<Seq<char>, RenderError>(e),
{
    let format = to_chars(datefmt);
    let mut separator: Vec<char> = Vec::new();
    separator.push(field_separator);
    let mut space: Vec<char> = Vec::new();
    space.push(' ');
    assert(separator@ == seq![field_separator]);
    assert(space@ == seq![' ']);
    let mut line: Vec<char> = Vec::new();
    let ghost mut values: Seq<Seq<char>> = Seq::empty();
    let mut first: bool = true;
    let mut ended: bool = false;
    let mut i: usize = 0;
    while i < columns.len() && !ended
        invariant
            i <= columns.len(),
            format@ == datefmt@,
            separator@ == seq![field_separator],
            space@ == seq![' '],
            first == (values.len() == 0),
            line@ == joined(values, seq![field_separator]),
            csv_after_columns(
                columns@,
                if ended {
                    columns@.len() as int
                } else {
                    i as int
                },
                common_props@,
                cells@,
                event_def@,
                datefmt@,
                field_separator,
            ) == Ok::<LineSoFar, RenderError>(LineSoFar { values, ended }),
        decreases columns.len() - i,
    {
        let ghost contribution = csv_column(
            columns@[i as int],
            common_props@,
            cells@,
            event_def@,
            datefmt@,
        );
        let mut text: Vec<char> = Vec::new();
        let mut present: bool = true;
        match columns[i] {
            OutputColumn::Hostname => {
                push_str(&mut text, common_props.hostname.as_str());
            },
            OutputColumn::RecordID => {
                push_decimal(&mut text, common_props.recordid);
            },
            OutputColumn::Timestamp => {
                text = time_chars(&common_props.timestamp, &format);
            },
            OutputColumn::Provider => {
                push_str(&mut text, common_props.provider.as_str());
            },
            OutputColumn::EventID => {
                push_decimal(&mut text, common_props.eventid);
            },
            OutputColumn::Version => {
                push_decimal(&mut text, common_props.version);
            },
            OutputColumn::Level => {
                push_decimal(&mut text, event_def.level as u64);
            },
            OutputColumn::LevelName => {
                match optional_text(&event_def.level_name) {
                    Some(t) => {
                        text = t;
                    },
                    None => {
                        present = false;
                    },
                }
            },
            OutputColumn::Task => {
                push_decimal(&mut text, event_def.task as u64);
            },
            OutputColumn::TaskName => {
                match optional_text(&event_def.task_name) {
                    Some(t) => {
                        text = t;
                    },
                    None => {
                        present = false;
                    },
                }
            },
            OutputColumn::Opcode => {
                push_decimal(&mut text, event_def.opcode as u64);
            },
            OutputColumn::OpcodeName => {
                match optional_text(&event_def.opcode_name) {
                    Some(t) => {
                        text = t;
                    },
                    None => {
                        present = false;
                    },
                }
            },
            OutputColumn::Keywords => {
                push_decimal(&mut text, event_def.keywords);
            },
            OutputColumn::KeywordNames => {
                text = joined_names(&event_def.keyword_names);
            },
            OutputColumn::UnformattedMessage => {
                match optional_text(&event_def.message) {
                    Some(t) => {
                        text = t;
                    },
                    None => {
                        present = false;
                    },
                }
            },
            OutputColumn::FormattedMessage => {
                match optional_text(&event_def.message) {
                    None => {
                        present = false;
                    },
                    Some(template) => {
                        match format_event_message(event_def, cells) {
                            Ok(message) => {
                                push_str(&mut text, message.as_str());
                            },
                            Err(_) => {
                                text = template;
                            },
                        }
                    },
                }
            },
            OutputColumn::EventSpecific(number) => {
                if number == 0 || number as usize > cells.len() {
                    proof {
                        lemma_csv_stays_ended(
                            columns@,
                            i + 1,
                            columns.len() as int,
                            common_props@,
                            cells@,
                            event_def@,
                            datefmt@,
                            field_separator,
                        );
                    }
                    ended = true;
                    present = false;
                } else {
                let index: usize = (number - 1) as usize;
                match unwrap_variant_contents(&cells[index], None) {
                    Err(e) => {
                        proof {
                            lemma_csv_stays_failed(
                                columns@,
                                i + 1,
                                columns.len() as int,
                                common_props@,
                                cells@,
                                event_def@,
                                datefmt@,
                                field_separator,
                            );
                        }
                        return Err(RenderError::Decode(index, e));
                    },
                    Ok(value) => {
                        text = render_for_csv(&value, &format);
                    },
                }
                }
            },
        }
        if present {
            assert(contribution == ColumnText::Value(text@));
            let clean = replace_all(&text, &separator, &space);
            if !first {
                line.push(field_separator);
            }
            push_all(&mut line, &clean);
            proof {
                let before = values;
                values = values.push(clean@);
                assert(values.drop_last() == before);
                if before.len() > 0 {
                    assert(joined(before, seq![field_separator]) + seq![field_separator]
                        == joined(before, seq![field_separator]).push(field_separator));
                }
            }
            first = false;
        }
        i += 1;
    }
    line.push('\n');
    assert(line@ == joined(values, seq![field_separator]) + seq!['\n']);
    Ok(from_chars(&line))
}

/// Renders an event as one line of separated values, with the definition
/// that the configuration's catalog has for the event.
pub fn render_event_csv(
    common_props: &CommonEventProperties,
    cells: &Vec<RawCell>,
    render_cfg: &RenderingConfig,
) -> (r: Result<String, RenderError>)
    ensures
        ({
            let def = crate::metadata::resolved(
                render_cfg.metadata@,
                common_props@.provider,
                common_props@.eventid,
                common_props@.version,
            );
            let line = csv_line(
                render_cfg.columns@,
                common_props@,
                cells@,
                def,
                render_cfg.datefmt@,
                render_cfg.field_separator,
            );
            &&& r is Ok <==> line is Ok
            &&& r matches Ok(s) ==> line == Ok::<Seq<char>, RenderError>(s@)
            &&& r matches Err(e) ==> line == Err::<Seq<char>, RenderError>(e)
        }),
{
    let event_def = render_cfg.metadata.resolve(
        common_props.provider.as_str(),
        common_props.eventid,
        common_props.version,
    );
    render_csv_line(
        common_props,
        cells,
        &render_cfg.columns,
        &event_def,
        render_cfg.datefmt.as_str(),
        render_cfg.field_separator,
    )
}

/// A column that refers to a field which the event does not have ends
/// the line without error: the line holds what the columns before it
/// gave, and nothing of the columns after it.
pub proof fn lemma_csv_line_is_truncated(
    columns: Seq<OutputColumn>,
    at: int,
    common: CommonView,
    cells: Seq<RawCell>,
    def: DefinitionView,
    datefmt: Seq<char>,
    separator: char,
)
    requires
        0 <= at < columns.len(),
        columns[at] matches OutputColumn::EventSpecific(number) && (number == 0 || number
            > cells.len()),
        csv_after_columns(columns, at, common, cells, def, datefmt, separator) is Ok,
    ensures
        csv_line(columns, common, cells, def, datefmt, separator) == Ok::<Seq<char>, RenderError>(
            joined(
                csv_after_columns(columns, at, common, cells, def, datefmt, separator)->Ok_0.values,
                seq![separator],
            ) + seq!['\n'],
        ),
{
    lemma_csv_stays_ended(
        columns,
        at + 1,
        columns.len() as int,
        common,
        cells,
        def,
        datefmt,
        separator,
    );
}

/// No value of a line holds the separator, where the separator is not
/// the space that takes its place; and a line has at most one value for
/// each column.
pub proof fn lemma_csv_values_are_clean(
    columns: Seq<OutputColumn>,
    n: int,
    common: CommonView,
    cells: Seq<RawCell>,
    def: DefinitionView,
    datefmt: Seq<char>,
    separator: char,
)
    requires
        separator != ' ',
        0 <= n,
        csv_after_columns(columns, n, common, cells, def, datefmt, separator) is Ok,
    ensures
        ({
            let values = csv_after_columns(
                columns,
                n,
                common,
                cells,
                def,
                datefmt,
                separator,
            )->Ok_0.values;
            &&& values.len() <= n
            &&& forall|i: int| 0 <= i < values.len() ==> !(#[trigger] values[i]).contains(separator)
        }),
    decreases n,
{
    if n > 0 {
        lemma_csv_values_are_clean(columns, n - 1, common, cells, def, datefmt, separator);
        let before = csv_after_columns(columns, n - 1, common, cells, def, datefmt, separator)->Ok_0;
        let contribution = csv_column(columns[n - 1], common, cells, def, datefmt);
        if !before.ended {
            if let ColumnText::Value(text) = contribution {
                lemma_replaced_char_is_gone(text, separator, ' ');
            }
        }
    }
}

/// A value that holds the separator never makes an extra column: where
/// the separator is not the space that takes its place, the line before
/// its line feed holds the separator exactly once between each two of
/// its values, of which there are no more than columns.
pub proof fn lemma_csv_has_no_extra_column(
    columns: Seq<OutputColumn>,
    common: CommonView,
    cells: Seq<RawCell>,
    def: DefinitionView,
    datefmt: Seq<char>,
    separator: char,
)
    requires
        separator != ' ',
        csv_values(columns, common, cells, def, datefmt, separator) is Ok,
    ensures
        ({
            let values = csv_values(columns, common, cells, def, datefmt, separator)->Ok_0;
            &&& values.len() <= columns.len()
            &&& csv_line(columns, common, cells, def, datefmt, separator) == Ok::<
                Seq<char>,
                RenderError,
            >(joined(values, seq![separator]) + seq!['\n'])
            &&& occurrences(joined(values, seq![separator]), separator) == if values.len() == 0 {
                0
            } else {
                values.len() - 1
            }
        }),
{
    lemma_csv_values_are_clean(
        columns,
        columns.len() as int,
        common,
        cells,
        def,
        datefmt,
        separator,
    );
    let values = csv_values(columns, common, cells, def, datefmt, separator)->Ok_0;
    lemma_joined_separators(values, separator);
}

} // verus!
