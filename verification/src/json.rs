//! Events as JSON.
//!
//! An event is first rendered to a record: a list of keys and values in
//! the order of the columns. The record then becomes a JSON object, in
//! which the last value of a key counts, and `serde_json` writes the
//! object as one line of text.

use crate::formatting::{
    bytes_as_hexstring, decoded, hex_bytes, time_chars, time_text, unwrap_variant_contents,
    CommonEventProperties, CommonView, EvtVariant, RawCell, VariantView,
};
use crate::message::{format_event_message, formatted_message};
use crate::metadata::{
    clone_texts, opt_text, resolved, texts_of, DefinitionView, EventDefinition, FieldView,
};
use crate::output_cols::OutputColumn;
use crate::rendering::{RenderError, RenderingConfig};
use crate::assoc::pairs_map;
use crate::text::{decimal, from_chars, push_decimal, to_chars};
use vstd::prelude::*;
use vstd::string::*;

verus! {

/// A value of a record.
#[derive(Debug, PartialEq, Eq)]
pub enum JsonValue {
    Null,
    Text(String),
    UInt(u64),
    Int(i64),
    /// The bits of a 32-bit floating-point number, and the number as a
    /// JSON value.
    Single(u32, String),
    /// The bits of a 64-bit floating-point number, and the number as a
    /// JSON value.
    Double(u64, String),
    Boolean(bool),
    List(Vec<String>),
}

/// The mathematical content of a [`JsonValue`].
pub enum JsonValueView {
    Null,
    Text(Seq<char>),
    UInt(u64),
    Int(i64),
    Single(u32, Seq<char>),
    Double(u64, Seq<char>),
    Boolean(bool),
    List(Seq<Seq<char>>),
}

impl View for JsonValue {
    type V = JsonValueView;

    open spec fn view(&self) -> JsonValueView {
        match self {
            JsonValue::Null => JsonValueView::Null,
            JsonValue::Text(s) => JsonValueView::Text(s@),
            JsonValue::UInt(u) => JsonValueView::UInt(*u),
            JsonValue::Int(i) => JsonValueView::Int(*i),
            JsonValue::Single(b, json) => JsonValueView::Single(*b, json@),
            JsonValue::Double(b, json) => JsonValueView::Double(*b, json@),
            JsonValue::Boolean(b) => JsonValueView::Boolean(*b),
            JsonValue::List(v) => JsonValueView::List(texts_of(v@)),
        }
    }
}

/// A key of a record with its value.
#[derive(Debug, PartialEq, Eq)]
pub struct JsonField {
    pub key: String,
    pub value: JsonValue,
}

/// Keys and values, as pairs.
pub open spec fn record_pairs(s: Seq<JsonField>) -> Seq<(Seq<char>, JsonValueView)> {
    Seq::new(s.len(), |i: int| (s[i].key@, s[i].value@))
}

/// The value of a record that stands for a decoded value. Numbers and
/// truth values stay what they are; bytes are written in hexadecimal and
/// calendar times after the format. A floating-point number keeps its
/// bits and its JSON form.
pub open spec fn json_value_of(value: VariantView, datefmt: Seq<char>) -> JsonValueView {
    match value {
        VariantView::Null => JsonValueView::Null,
        VariantView::Handle(_) => JsonValueView::Text("<handle>"@),
        VariantView::Text(s) => JsonValueView::Text(s),
        VariantView::UInt(u) => JsonValueView::UInt(u),
        VariantView::Int(i) => JsonValueView::Int(i),
        VariantView::Single(bits, text) => JsonValueView::Single(bits, text.json),
        VariantView::Double(bits, text) => JsonValueView::Double(bits, text.json),
        VariantView::Boolean(b) => JsonValueView::Boolean(b),
        VariantView::Binary(v) => JsonValueView::Text(hex_bytes(v)),
        VariantView::DateTime(t) => JsonValueView::Text(time_text(t, datefmt)),
    }
}

/// Turns a decoded value into a value of a record.
pub fn value_for_json(value: EvtVariant, datefmt: &Vec<char>) -> (r: JsonValue)
    ensures
        r@ == json_value_of(value@, datefmt@),
{
    match value {
        EvtVariant::Null => JsonValue::Null,
        EvtVariant::Handle(_) => JsonValue::Text("<handle>".to_owned()),
        EvtVariant::String(s) => JsonValue::Text(s),
        EvtVariant::UInt(u) => JsonValue::UInt(u),
        EvtVariant::Int(i) => JsonValue::Int(i),
        EvtVariant::Single(bits, text) => JsonValue::Single(bits, text.json),
        EvtVariant::Double(bits, text) => JsonValue::Double(bits, text.json),
        EvtVariant::Boolean(b) => JsonValue::Boolean(b),
        EvtVariant::Binary(v) => JsonValue::Text(bytes_as_hexstring(v.as_slice())),
        EvtVariant::DateTime(t) => JsonValue::Text(from_chars(&time_chars(&t, datefmt))),
    }
}

/// What one column contributes to a record.
pub enum ColumnField {
    /// A key and its value.
    Field(Seq<char>, JsonValueView),
    /// The column is left out: the event has nothing for it.
    Omitted,
    /// The column refers to a field that the event does not have: the
    /// record ends before it.
    Truncated,
    /// The column's value cannot be had.
    Failed(RenderError),
}

/// A key with an optional text, or the omission of the column.
pub open spec fn optional_field(key: Seq<char>, value: Option<Seq<char>>) -> ColumnField {
    match value {
        Some(text) => ColumnField::Field(key, JsonValueView::Text(text)),
        None => ColumnField::Omitted,
    }
}

/// The name of the field with the given number, counted from one: the
/// name that the definition gives it, or `field` and the number.
pub open spec fn field_name(fields: Seq<FieldView>, number: u32) -> Seq<char> {
    if 0 < number <= fields.len() {
        fields[number - 1].name
    } else {
        "field"@ + decimal(number as nat)
    }
}

/// The declared type of the field with the given number, counted from
/// one: the type that the definition gives it, or that of a text.
pub open spec fn field_type(fields: Seq<FieldView>, number: u32) -> Seq<char> {
    if 0 < number <= fields.len() {
        fields[number - 1].out_type
    } else {
        "xs:string"@
    }
}

/// What a column contributes to a record.
///
/// Columns of names and messages are left out where the definition has
/// none; both message columns go under the key `message`. A message that
/// cannot be expanded stands as its template. A field is referred to by
/// its number, counted from one, decoded under its declared type, and
/// stands under its name.
pub open spec fn json_column(
    column: OutputColumn,
    common: CommonView,
    cells: Seq<RawCell>,
    def: DefinitionView,
    datefmt: Seq<char>,
) -> ColumnField {
    match column {
        OutputColumn::Hostname => ColumnField::Field(
            "hostname"@,
            JsonValueView::Text(common.hostname),
        ),
        OutputColumn::RecordID => ColumnField::Field(
            "recordid"@,
            JsonValueView::UInt(common.recordid),
        ),
        OutputColumn::Timestamp => ColumnField::Field(
            "timestamp"@,
            JsonValueView::Text(time_text(common.timestamp, datefmt)),
        ),
        OutputColumn::Provider => ColumnField::Field(
            "provider"@,
            JsonValueView::Text(common.provider),
        ),
        OutputColumn::EventID => ColumnField::Field("eventid"@, JsonValueView::UInt(common.eventid)),
        OutputColumn::Version => ColumnField::Field("version"@, JsonValueView::UInt(common.version)),
        OutputColumn::Level => ColumnField::Field("level"@, JsonValueView::UInt(def.level as u64)),
        OutputColumn::LevelName => optional_field("level_name"@, def.level_name),
        OutputColumn::Task => ColumnField::Field("task"@, JsonValueView::UInt(def.task as u64)),
        OutputColumn::TaskName => optional_field("task_name"@, def.task_name),
        OutputColumn::Opcode => ColumnField::Field("opcode"@, JsonValueView::UInt(def.opcode as u64)),
        OutputColumn::OpcodeName => optional_field("opcode_name"@, def.opcode_name),
        OutputColumn::Keywords => ColumnField::Field("keywords"@, JsonValueView::UInt(def.keywords)),
        OutputColumn::KeywordNames => ColumnField::Field(
            "keyword_names"@,
            JsonValueView::List(def.keyword_names),
        ),
        OutputColumn::UnformattedMessage => optional_field("message"@, def.message),
        OutputColumn::FormattedMessage => match def.message {
            None => ColumnField::Omitted,
            Some(template) => match formatted_message(def.message, cells, def.fields) {
                Ok(text) => ColumnField::Field("message"@, JsonValueView::Text(text)),
                Err(_) => ColumnField::Field("message"@, JsonValueView::Text(template)),
            },
        },
        OutputColumn::EventSpecific(number) => if number == 0 || number > cells.len() {
            ColumnField::Truncated
        } else {
            match decoded(&cells[number - 1], Some(field_type(def.fields, number))) {
                Ok(value) => ColumnField::Field(
                    field_name(def.fields, number),
                    json_value_of(value, datefmt),
                ),
                Err(e) => ColumnField::Failed(RenderError::Decode((number - 1) as usize, e)),
            }
        },
    }
}

/// The fields of a record read so far, and whether the record has ended.
pub struct RecordSoFar {
    pub fields: Seq<(Seq<char>, JsonValueView)>,
    pub ended: bool,
}

/// The record after one more column.
pub open spec fn json_after_column(record: RecordSoFar, contribution: ColumnField) -> Result<
    RecordSoFar,
    RenderError,
> {
    if record.ended {
        Ok(record)
    } else {
        match contribution {
            ColumnField::Field(key, value) => Ok(
                RecordSoFar { fields: record.fields.push((key, value)), ended: false },
            ),
            ColumnField::Omitted => Ok(record),
            ColumnField::Truncated => Ok(RecordSoFar { fields: record.fields, ended: true }),
            ColumnField::Failed(e) => Err(e),
        }
    }
}

/// The record after the first `n` columns, or the first error met.
pub open spec fn json_after_columns(
    columns: Seq<OutputColumn>,
    n: int,
    common: CommonView,
    cells: Seq<RawCell>,
    def: DefinitionView,
    datefmt: Seq<char>,
) -> Result<RecordSoFar, RenderError>
    decreases n,
{
    if n <= 0 {
        Ok(RecordSoFar { fields: Seq::empty(), ended: false })
    } else {
        match json_after_columns(columns, n - 1, common, cells, def, datefmt) {
            Err(e) => Err(e),
            Ok(record) => json_after_column(
                record,
                json_column(columns[n - 1], common, cells, def, datefmt),
            ),
        }
    }
}

/// The record that an event is rendered to: one field for each column
/// that is not left out, up to the first column that refers to a field
/// which the event does not have.
pub open spec fn json_record(
    columns: Seq<OutputColumn>,
    common: CommonView,
    cells: Seq<RawCell>,
    def: DefinitionView,
    datefmt: Seq<char>,
) -> Result<Seq<(Seq<char>, JsonValueView)>, RenderError> {
    match json_after_columns(columns, columns.len() as int, common, cells, def, datefmt) {
        Err(e) => Err(e),
        Ok(record) => Ok(record.fields),
    }
}

/// Once rendering has failed, further columns do not change the error.
pub proof fn lemma_json_stays_failed(
    columns: Seq<OutputColumn>,
    n: int,
    m: int,
    common: CommonView,
    cells: Seq<RawCell>,
    def: DefinitionView,
    datefmt: Seq<char>,
)
    requires
        n <= m,
        json_after_columns(columns, n, common, cells, def, datefmt) is Err,
    ensures
        json_after_columns(columns, m, common, cells, def, datefmt) == json_after_columns(
            columns,
            n,
            common,
            cells,
            def,
            datefmt,
        ),
    decreases m - n,
{
    if n < m {
        lemma_json_stays_failed(columns, n, m - 1, common, cells, def, datefmt);
    }
}

/// Once a record has ended, further columns do not change it.
pub proof fn lemma_json_stays_ended(
    columns: Seq<OutputColumn>,
    n: int,
    m: int,
    common: CommonView,
    cells: Seq<RawCell>,
    def: DefinitionView,
    datefmt: Seq<char>,
)
    requires
        n <= m,
        json_after_columns(columns, n, common, cells, def, datefmt) matches Ok(record)
            && record.ended,
    ensures
        json_after_columns(columns, m, common, cells, def, datefmt) == json_after_columns(
            columns,
            n,
            common,
            cells,
            def,
            datefmt,
        ),
    decreases m - n,
{
    if n < m {
        lemma_json_stays_ended(columns, n, m - 1, common, cells, def, datefmt);
    }
}

fn text_field(key: &str, text: &Option<String>) -> (r: Option<JsonField>)
    ensures
        match r {
            Some(f) => optional_field(key@, opt_text(*text)) == ColumnField::Field(f.key@, f.value@),
            None => optional_field(key@, opt_text(*text)) == ColumnField::Omitted,
        },
{
    match text {
        Some(s) => Some(JsonField { key: key.to_owned(), value: JsonValue::Text(s.clone()) }),
        None => None,
    }
}

fn number_field(key: &str, n: u64) -> (f: JsonField)
    ensures
        f.key@ == key@,
        f.value@ == JsonValueView::UInt(n),
{
    JsonField { key: key.to_owned(), value: JsonValue::UInt(n) }
}

/// Renders an event as a record, with the given definition of the event.
pub fn render_json_record(
    common_props: &CommonEventProperties,
    cells: &Vec<RawCell>,
    columns: &Vec<OutputColumn>,
    event_def: &EventDefinition,
    datefmt: &str,
) -> (r: Result<Vec<JsonField>, RenderError>)
    ensures
        r is Ok <==> json_record(columns@, common_props@, cells@, event_def@, datefmt@) is Ok,
        r matches Ok(v) ==> json_record(columns@, common_props@, cells@, event_def@, datefmt@)
            == Ok::<Seq<(Seq<char>, JsonValueView)>, RenderError>(record_pairs(v@)),
        r matches Err(e) ==> json_record(columns@, common_props@, cells@, event_def@, datefmt@)
            == Err::<Seq<(Seq<char>, JsonValueView)>, RenderError>(e),
{
    let format = to_chars(datefmt);
    let mut record: Vec<JsonField> = Vec::new();
    let mut ended: bool = false;
    let mut i: usize = 0;
    assert(record_pairs(record@) == Seq::<(Seq<char>, JsonValueView)>::empty());
    while i < columns.len() && !ended
        invariant
            i <= columns.len(),
            format@ == datefmt@,
            json_after_columns(
                columns@,
                if ended {
                    columns@.len() as int
                } else {
                    i as int
                },
                common_props@,
                cells@,
                event_def@,
                datefmt@,
            ) == Ok::<RecordSoFar, RenderError>(
                RecordSoFar { fields: record_pairs(record@), ended },
            ),
        decreases columns.len() - i,
    {
        let ghost before = record_pairs(record@);
        let ghost contribution = json_column(
            columns@[i as int],
            common_props@,
            cells@,
            event_def@,
            datefmt@,
        );
        let mut field: Option<JsonField> = None;
        match columns[i] {
            OutputColumn::Hostname => {
                field = Some(
                    JsonField {
                        key: "hostname".to_owned(),
                        value: JsonValue::Text(common_props.hostname.clone()),
                    },
                );
            },
            OutputColumn::RecordID => {
                field = Some(number_field("recordid", common_props.recordid));
            },
            OutputColumn::Timestamp => {
                field = Some(
                    JsonField {
                        key: "timestamp".to_owned(),
                        value: JsonValue::Text(
                            from_chars(&time_chars(&common_props.timestamp, &format)),
                        ),
                    },
                );
            },
            OutputColumn::Provider => {
                field = Some(
                    JsonField {
                        key: "provider".to_owned(),
                        value: JsonValue::Text(common_props.provider.clone()),
                    },
                );
            },
            OutputColumn::EventID => {
                field = Some(number_field("eventid", common_props.eventid));
            },
            OutputColumn::Version => {
                field = Some(number_field("version", common_props.version));
            },
            OutputColumn::Level => {
                field = Some(number_field("level", event_def.level as u64));
            },
            OutputColumn::LevelName => {
                field = text_field("level_name", &event_def.level_name);
            },
            OutputColumn::Task => {
                field = Some(number_field("task", event_def.task as u64));
            },
            OutputColumn::TaskName => {
                field = text_field("task_name", &event_def.task_name);
            },
            OutputColumn::Opcode => {
                field = Some(number_field("opcode", event_def.opcode as u64));
            },
            OutputColumn::OpcodeName => {
                field = text_field("opcode_name", &event_def.opcode_name);
            },
            OutputColumn::Keywords => {
                field = Some(number_field("keywords", event_def.keywords));
            },
            OutputColumn::KeywordNames => {
                field = Some(
                    JsonField {
                        key: "keyword_names".to_owned(),
                        value: JsonValue::List(clone_texts(&event_def.keyword_names)),
                    },
                );
            },
            OutputColumn::UnformattedMessage => {
                field = text_field("message", &event_def.message);
            },
            OutputColumn::FormattedMessage => {
                match &event_def.message {
                    None => {},
                    Some(template) => {
                        let text = match format_event_message(event_def, cells) {
                            Ok(message) => message,
                            Err(_) => template.clone(),
                        };
                        field = Some(
                            JsonField { key: "message".to_owned(), value: JsonValue::Text(text) },
                        );
                    },
                }
            },
            OutputColumn::EventSpecific(number) => {
                if number == 0 || number as usize > cells.len() {
                    proof {
                        lemma_json_stays_ended(
                            columns@,
                            i + 1,
                            columns.len() as int,
                            common_props@,
                            cells@,
                            event_def@,
                            datefmt@,
                        );
                    }
                    ended = true;
                } else {
                    let index: usize = (number - 1) as usize;
                    let known = index < event_def.fields.len();
                    let decoded_value = if known {
                        assert(event_def@.fields[index as int] == event_def.fields@[index as int]@);
                        unwrap_variant_contents(
                            &cells[index],
                            Some(event_def.fields[index].out_type.as_str()),
                        )
                    } else {
                        unwrap_variant_contents(&cells[index], Some("xs:string"))
                    };
                    match decoded_value {
                        Err(e) => {
                            proof {
                                lemma_json_stays_failed(
                                    columns@,
                                    i + 1,
                                    columns.len() as int,
                                    common_props@,
                                    cells@,
                                    event_def@,
                                    datefmt@,
                                );
                            }
                            return Err(RenderError::Decode(index, e));
                        },
                        Ok(value) => {
                            let key = if known {
                                event_def.fields[index].name.clone()
                            } else {
                                let mut name = to_chars("field");
                                push_decimal(&mut name, number as u64);
                                from_chars(&name)
                            };
                            field = Some(JsonField { key, value: value_for_json(value, &format) });
                        },
                    }
                }
            },
        }
        match field {
            Some(f) => {
                assert(contribution == ColumnField::Field(f.key@, f.value@));
                record.push(f);
                assert(record_pairs(record@) == before.push((f.key@, f.value@)));
            },
            None => {},
        }
        i += 1;
    }
    Ok(record)
}

/// The value that a JSON text stands for.
pub enum JsonModel {
    Null,
    Bool(bool),
    /// A whole number that is not negative.
    Unsigned(u64),
    /// A whole number below zero.
    Negative(i64),
    /// The bits of a number with a fraction or an exponent.
    Float(u64),
    Text(Seq<char>),
    List(Seq<JsonModel>),
    Object(Map<Seq<char>, JsonModel>),
}

/// `serde_json::Value`, a JSON value; nothing of its inside is assumed.
#[verifier::external_type_specification]
#[verifier::external_body]
pub struct ExJsonValue(serde_json::Value);

/// `serde_json::Map`, the members of a JSON object by key; nothing of
/// its inside is assumed.
#[verifier::external_type_specification]
#[verifier::external_body]
#[verifier::reject_recursive_types(K)]
#[verifier::reject_recursive_types(V)]
pub struct ExJsonMap<K, V>(serde_json::Map<K, V>);

/// A JSON object as `serde_json` holds it.
pub type JsonObject = serde_json::Map<String, serde_json::Value>;

/// What a `serde_json::Value` holds.
pub uninterp spec fn json_model(value: serde_json::Value) -> JsonModel;

/// The members that a `serde_json::Map` holds, by key.
pub uninterp spec fn json_members(object: JsonObject) -> Map<
    Seq<char>,
    JsonModel,
>;

/// What a text parses to as one JSON value, or nothing where it is not
/// JSON.
pub uninterp spec fn json_parsed(text: Seq<char>) -> Option<JsonModel>;

/// The compact JSON text of an object with the given members.
pub uninterp spec fn json_text(members: Map<Seq<char>, JsonModel>) -> Seq<char>;

/// The JSON text of an object with the given members, spread over
/// several lines.
pub uninterp spec fn json_text_pretty(members: Map<Seq<char>, JsonModel>) -> Seq<char>;

/// The members of an object that has none.
pub open spec fn no_members() -> Map<Seq<char>, JsonModel> {
    Map::empty()
}

/// The JSON number that a signed number becomes.
pub open spec fn signed_model(n: i64) -> JsonModel {
    if n < 0 {
        JsonModel::Negative(n)
    } else {
        JsonModel::Unsigned(n as u64)
    }
}

/// The variant `serde_json::Value::Null`.
#[verifier::external_body]
fn value_null() -> (v: serde_json::Value)
    ensures
        json_model(v) == JsonModel::Null,
{
    serde_json::Value::Null
}

/// `serde_json::Value::from` on a `String`: the JSON string of that
/// text.
#[verifier::external_body]
fn value_text(text: String) -> (v: serde_json::Value)
    ensures
        json_model(v) == JsonModel::Text(text@),
{
    serde_json::Value::from(text)
}

/// `serde_json::Value::from` on a `u64`: the JSON number of that value.
#[verifier::external_body]
fn value_unsigned(n: u64) -> (v: serde_json::Value)
    ensures
        json_model(v) == JsonModel::Unsigned(n),
{
    serde_json::Value::from(n)
}

/// `serde_json::Value::from` on an `i64`: the JSON number of that
/// value, held as an unsigned number unless it is negative.
#[verifier::external_body]
fn value_signed(n: i64) -> (v: serde_json::Value)
    ensures
        json_model(v) == signed_model(n),
{
    serde_json::Value::from(n)
}

/// `serde_json::Value::from` on a `bool`.
#[verifier::external_body]
fn value_bool(b: bool) -> (v: serde_json::Value)
    ensures
        json_model(v) == JsonModel::Bool(b),
{
    serde_json::Value::from(b)
}

/// `serde_json::Value::from` on a `Vec<String>`: the JSON array of the
/// strings, in order.
#[verifier::external_body]
fn value_list(items: Vec<String>) -> (v: serde_json::Value)
    ensures
        json_model(v) == JsonModel::List(
            Seq::new(items@.len(), |i: int| JsonModel::Text(items@[i]@)),
        ),
{
    serde_json::Value::from(items)
}

/// `serde_json::from_str` for a `serde_json::Value`. The result depends
/// on the text alone, and is absent exactly when the text is refused.
#[verifier::external_body]
fn parse_value(text: &str) -> (r: Option<serde_json::Value>)
    ensures
        r is Some <==> json_parsed(text@) is Some,
        r matches Some(v) ==> json_parsed(text@) == Some(json_model(v)),
{
    match serde_json::from_str(text) {
        Ok(v) => Some(v),
        Err(_) => None,
    }
}

/// `serde_json::Map::new`: an object without members.
#[verifier::external_body]
fn object_new() -> (object: JsonObject)
    ensures
        json_members(object) == no_members(),
{
    serde_json::Map::new()
}

/// `serde_json::Map::insert`: the value stands under the key, in place
/// of what stood there; the other members stay.
#[verifier::external_body]
fn object_insert(
    object: &mut JsonObject,
    key: String,
    value: serde_json::Value,
)
    ensures
        json_members(*final(object)) == json_members(*old(object)).insert(key@, json_model(value)),
{
    object.insert(key, value);
}

/// `serde_json::to_string` on a `serde_json::Map`. It always gives a
/// text, for it writes into memory, the keys are strings and the numbers
/// are finite; the text depends on the members alone.
#[verifier::external_body]
fn object_text(object: &JsonObject) -> (r: Option<String>)
    ensures
        r is Some,
        r matches Some(s) ==> s@ == json_text(json_members(*object)),
{
    match serde_json::to_string(object) {
        Ok(s) => Some(s),
        Err(_) => None,
    }
}

/// `serde_json::to_string_pretty` on a `serde_json::Map`. It always
/// gives a text, for it writes into memory, the keys are strings and the
/// numbers are finite; the text depends on the members alone.
#[verifier::external_body]
fn object_text_pretty(object: &JsonObject) -> (r: Option<String>)
    ensures
        r is Some,
        r matches Some(s) ==> s@ == json_text_pretty(json_members(*object)),
{
    match serde_json::to_string_pretty(object) {
        Ok(s) => Some(s),
        Err(_) => None,
    }
}

/// The JSON value that a value of a record becomes. A floating-point
/// number becomes what its JSON form parses to, and `null` where that
/// form is no JSON.
pub open spec fn model_of(value: JsonValueView) -> JsonModel {
    match value {
        JsonValueView::Null => JsonModel::Null,
        JsonValueView::Text(s) => JsonModel::Text(s),
        JsonValueView::UInt(u) => JsonModel::Unsigned(u),
        JsonValueView::Int(i) => signed_model(i),
        JsonValueView::Single(_, json) => match json_parsed(json) {
            Some(m) => m,
            None => JsonModel::Null,
        },
        JsonValueView::Double(_, json) => match json_parsed(json) {
            Some(m) => m,
            None => JsonModel::Null,
        },
        JsonValueView::Boolean(b) => JsonModel::Bool(b),
        JsonValueView::List(items) => JsonModel::List(
            Seq::new(items.len(), |i: int| JsonModel::Text(items[i])),
        ),
    }
}

/// The keys of a record with the JSON values of their values.
pub open spec fn member_pairs(record: Seq<(Seq<char>, JsonValueView)>) -> Seq<
    (Seq<char>, JsonModel),
> {
    Seq::new(record.len(), |i: int| (record[i].0, model_of(record[i].1)))
}

/// The members of the JSON object that a record makes: where a key
/// occurs more than once, its last value counts.
pub open spec fn record_members(record: Seq<(Seq<char>, JsonValueView)>) -> Map<
    Seq<char>,
    JsonModel,
> {
    pairs_map(member_pairs(record))
}

/// The JSON value that the JSON form of a number stands for: what the
/// form was parsed to, or `null` where it could not be parsed.
pub fn number_or_null(parsed: Option<serde_json::Value>) -> (v: serde_json::Value)
    ensures
        json_model(v) == match parsed {
            Some(p) => json_model(p),
            None => JsonModel::Null,
        },
{
    match parsed {
        Some(p) => p,
        None => value_null(),
    }
}

fn parsed_or_null(json: &str) -> (v: serde_json::Value)
    ensures
        json_model(v) == match json_parsed(json@) {
            Some(m) => m,
            None => JsonModel::Null,
        },
{
    number_or_null(parse_value(json))
}

/// Turns a value of a record into a JSON value.
pub fn json_value(value: &JsonValue) -> (v: serde_json::Value)
    ensures
        json_model(v) == model_of(value@),
{
    match value {
        JsonValue::Null => value_null(),
        JsonValue::Text(s) => value_text(s.clone()),
        JsonValue::UInt(u) => value_unsigned(*u),
        JsonValue::Int(i) => value_signed(*i),
        JsonValue::Single(_, json) => parsed_or_null(json.as_str()),
        JsonValue::Double(_, json) => parsed_or_null(json.as_str()),
        JsonValue::Boolean(b) => value_bool(*b),
        JsonValue::List(items) => {
            let copy = clone_texts(items);
            assert(Seq::new(copy@.len(), |i: int| JsonModel::Text(copy@[i]@)) == Seq::new(
                texts_of(items@).len(),
                |i: int| JsonModel::Text(texts_of(items@)[i]),
            )) by {
                assert(texts_of(copy@).len() == copy@.len());
                assert forall|i: int| 0 <= i < copy@.len() implies copy@[i]@ == texts_of(
                    items@,
                )[i] by {
                    assert(texts_of(copy@)[i] == copy@[i]@);
                }
            }
            value_list(copy)
        },
    }
}

/// Builds the JSON object of a record.
pub fn json_object(record: &Vec<JsonField>) -> (object: JsonObject)
    ensures
        json_members(object) == record_members(record_pairs(record@)),
{
    let mut object = object_new();
    let ghost all = member_pairs(record_pairs(record@));
    let mut i: usize = 0;
    while i < record.len()
        invariant
            i <= record.len(),
            all == member_pairs(record_pairs(record@)),
            json_members(object) == pairs_map(all.subrange(0, i as int)),
        decreases record.len() - i,
    {
        let value = json_value(&record[i].value);
        proof {
            let next = all.subrange(0, i + 1);
            assert(next.drop_last() == all.subrange(0, i as int));
            assert(next.last() == (record@[i as int].key@, model_of(record@[i as int].value@)));
        }
        object_insert(&mut object, record[i].key.clone(), value);
        i += 1;
    }
    assert(all.subrange(0, record.len() as int) == all);
    object
}

/// The line that the text of an object makes: the text and a line feed,
/// or an error where there is no text.
pub open spec fn line_of(text: Option<Seq<char>>) -> Result<Seq<char>, RenderError> {
    match text {
        Some(s) => Ok(s + seq!['\n']),
        None => Err(RenderError::Serialization),
    }
}

/// Ends the text of an object with a line feed.
pub fn json_line(text: Option<String>) -> (r: Result<String, RenderError>)
    ensures
        r is Ok <==> text is Some,
        r matches Ok(s) ==> line_of(opt_text(text)) == Ok::<Seq<char>, RenderError>(s@),
        r matches Err(e) ==> line_of(opt_text(text)) == Err::<Seq<char>, RenderError>(e),
{
    match text {
        Some(s) => {
            let mut line = to_chars(s.as_str());
            line.push('\n');
            assert(line@ == s@ + seq!['\n']);
            Ok(from_chars(&line))
        },
        None => Err(RenderError::Serialization),
    }
}

/// The text of the object with the given members, compact or spread over
/// several lines.
pub open spec fn object_text_of(members: Map<Seq<char>, JsonModel>, pretty: bool) -> Seq<char> {
    if pretty {
        json_text_pretty(members)
    } else {
        json_text(members)
    }
}

/// Writes a record as one line of JSON: the text of the record's object
/// and a line feed. This always succeeds.
pub fn record_to_json(record: &Vec<JsonField>, pretty: bool) -> (r: Result<String, RenderError>)
    ensures
        r is Ok,
        r matches Ok(s) ==> s@ == object_text_of(record_members(record_pairs(record@)), pretty)
            + seq!['\n'],
{
    let object = json_object(record);
    let text = if pretty {
        object_text_pretty(&object)
    } else {
        object_text(&object)
    };
    json_line(text)
}

/// The line of JSON that an event is rendered to: the text of the
/// object of its record, and a line feed.
pub open spec fn json_event_line(
    columns: Seq<OutputColumn>,
    common: CommonView,
    cells: Seq<RawCell>,
    def: DefinitionView,
    datefmt: Seq<char>,
    pretty: bool,
) -> Result<Seq<char>, RenderError> {
    match json_record(columns, common, cells, def, datefmt) {
        Err(e) => Err(e),
        Ok(fields) => Ok(object_text_of(record_members(fields), pretty) + seq!['\n']),
    }
}

/// Renders an event as one line of JSON, with the definition that the
/// configuration's catalog has for the event. This fails only where the
/// event cannot be rendered as a record, and with the record's error.
pub fn render_event_json(
    common_props: &CommonEventProperties,
    cells: &Vec<RawCell>,
    render_cfg: &RenderingConfig,
) -> (r: Result<String, RenderError>)
    ensures
        ({
            let def = resolved(
                render_cfg.metadata@,
                common_props@.provider,
                common_props@.eventid,
                common_props@.version,
            );
            let line = json_event_line(
                render_cfg.columns@,
                common_props@,
                cells@,
                def,
                render_cfg.datefmt@,
                render_cfg.json_pretty,
            );
            &&& r is Ok <==> line is Ok
            &&& r matches Ok(s) ==> line == Ok::<Seq<char>, RenderError>(s@)
            &&& r matches Err(e) ==> line == Err::<Seq<char>, RenderError>(e)
        }),
{
    let event_def = render_cfg.metadata.resolve(
        common_props.provider.as_str(),
        common_props.eventid,
        common_props.version,
    );
    match render_json_record(
        common_props,
        cells,
        &render_cfg.columns,
        &event_def,
        render_cfg.datefmt.as_str(),
    ) {
        Err(e) => Err(e),
        Ok(record) => record_to_json(&record, render_cfg.json_pretty),
    }
}

/// A column that refers to a field which the event does not have ends
/// the record without error: the record holds what the columns before it
/// gave, and nothing of the columns after it.
pub proof fn lemma_json_record_is_truncated(
    columns: Seq<OutputColumn>,
    at: int,
    common: CommonView,
    cells: Seq<RawCell>,
    def: DefinitionView,
    datefmt: Seq<char>,
)
    requires
        0 <= at < columns.len(),
        columns[at] matches OutputColumn::EventSpecific(number) && (number == 0 || number
            > cells.len()),
        json_after_columns(columns, at, common, cells, def, datefmt) is Ok,
    ensures
        json_record(columns, common, cells, def, datefmt) == Ok::<
            Seq<(Seq<char>, JsonValueView)>,
            RenderError,
        >(json_after_columns(columns, at, common, cells, def, datefmt)->Ok_0.fields),
{
    lemma_json_stays_ended(columns, at + 1, columns.len() as int, common, cells, def, datefmt);
}

/// Whether the column refers to a field that the event has and that
/// decodes under its declared type.
pub open spec fn is_decodable_field(
    column: OutputColumn,
    cells: Seq<RawCell>,
    def: DefinitionView,
) -> bool {
    column matches OutputColumn::EventSpecific(number) && 0 < number <= cells.len() && decoded(
        &cells[number - 1],
        Some(field_type(def.fields, number)),
    ) is Ok
}

/// Columns that refer to decodable fields of the event always render:
/// after `n` of them the record has `n` fields, each under the name of
/// its field. For an event that the catalog does not know these are the
/// names `field1`, `field2` and so on, and the values are decoded as
/// texts.
pub proof fn lemma_json_record_of_fields(
    columns: Seq<OutputColumn>,
    n: int,
    common: CommonView,
    cells: Seq<RawCell>,
    def: DefinitionView,
    datefmt: Seq<char>,
)
    requires
        0 <= n <= columns.len(),
        forall|i: int| 0 <= i < n ==> is_decodable_field(#[trigger] columns[i], cells, def),
    ensures
        json_after_columns(columns, n, common, cells, def, datefmt) matches Ok(record)
            && !record.ended && record.fields.len() == n && forall|i: int|
            0 <= i < n ==> (#[trigger] record.fields[i]).0 == field_name(
                def.fields,
                columns[i]->EventSpecific_0,
            ),
        def.fields.len() == 0 ==> forall|i: int|
            0 <= i < n ==> field_name(def.fields, (#[trigger] columns[i])->EventSpecific_0)
                == "field"@ + decimal(columns[i]->EventSpecific_0 as nat) && field_type(
                def.fields,
                columns[i]->EventSpecific_0,
            ) == "xs:string"@,
    decreases n,
{
    if n > 0 {
        lemma_json_record_of_fields(columns, n - 1, common, cells, def, datefmt);
        assert(is_decodable_field(columns[n - 1], cells, def));
    }
}

/// Where every column refers to a decodable field of the event, the
/// event renders to a line of JSON.
pub proof fn lemma_json_line_of_fields(
    columns: Seq<OutputColumn>,
    common: CommonView,
    cells: Seq<RawCell>,
    def: DefinitionView,
    datefmt: Seq<char>,
    pretty: bool,
)
    requires
        forall|i: int|
            0 <= i < columns.len() ==> is_decodable_field(#[trigger] columns[i], cells, def),
    ensures
        json_event_line(columns, common, cells, def, datefmt, pretty) is Ok,
{
    lemma_json_record_of_fields(columns, columns.len() as int, common, cells, def, datefmt);
}

} // verus!
