use evtq::formatting::{
    DecodeError, FloatText, PlatformValue, RawCell, SystemTime, TYPE_BOOLEAN, TYPE_DOUBLE, TYPE_FILE_TIME,
    TYPE_GUID, TYPE_HANDLE, TYPE_INT32, TYPE_NULL, TYPE_STRING, TYPE_UINT32,
};
use evtq::message::{format_event_message, render_for_message, FormatError};
use evtq::formatting::EvtVariant;
use evtq::metadata::{EventDefinition, EventFieldDefinition};

fn wide_cell(text: &str) -> RawCell {
    let mut data: Vec<u8> = Vec::new();
    for unit in text.encode_utf16() {
        data.push((unit & 0xff) as u8);
        data.push((unit >> 8) as u8);
    }
    data.push(0);
    data.push(0);
    RawCell { type_tag: TYPE_STRING, count: 1, payload: 0x1000, data, platform: PlatformValue::Absent }
}

fn cell(type_tag: u32, payload: u64) -> RawCell {
    RawCell { type_tag, count: 1, payload, data: Vec::new(), platform: PlatformValue::Absent }
}

fn number_cell(value: u32) -> RawCell {
    cell(TYPE_UINT32, value as u64)
}

fn definition(template: &str, types: &[&str]) -> EventDefinition {
    let mut def = EventDefinition::unknown();
    def.message = Some(template.to_string());
    for (i, t) in types.iter().enumerate() {
        def.fields.push(EventFieldDefinition {
            name: format!("f{}", i + 1),
            out_type: t.to_string(),
        });
    }
    def
}

fn expand(template: &str, cells: &Vec<RawCell>) -> Result<String, FormatError> {
    format_event_message(&definition(template, &[]), cells)
}

#[test]
fn two_placeholders_followed_by_text() {
    let def = definition("Process %1 started by %2.", &["xs:string", "xs:string"]);
    let cells = vec![wide_cell("notepad.exe"), wide_cell("alice")];
    assert_eq!(
        format_event_message(&def, &cells),
        Ok("Process notepad.exe started by alice.".to_string())
    );
}

#[test]
fn placeholder_at_the_very_end_is_unterminated() {
    let def = definition("Process %1 started by %2", &["xs:string", "xs:string"]);
    let cells = vec![wide_cell("notepad.exe"), wide_cell("alice")];
    assert_eq!(format_event_message(&def, &cells), Err(FormatError::MalformedTemplate));
}

#[test]
fn format_spec_is_skipped() {
    let def = definition("Value: %1!s! done", &["xs:string"]);
    let cells = vec![number_cell(42)];
    assert_eq!(format_event_message(&def, &cells), Ok("Value: 42 done".to_string()));
}

#[test]
fn two_format_specs_in_a_row() {
    let cells = vec![wide_cell("a"), wide_cell("b")];
    assert_eq!(expand("%1!s!%2!5.5d! end", &cells), Ok("ab end".to_string()));
}

#[test]
fn placeholder_beyond_the_values_is_out_of_range() {
    let cells = vec![number_cell(1), number_cell(2)];
    assert_eq!(expand("abc %3 def", &cells), Err(FormatError::OutOfRange(3, 2)));
    assert_eq!(
        expand("abc %99999999999999999999999 def", &cells),
        Err(FormatError::OutOfRange(u64::MAX, 2))
    );
    assert_eq!(
        expand("abc %18446744073709551615 def", &cells),
        Err(FormatError::OutOfRange(u64::MAX, 2))
    );
    assert_eq!(expand("abc %1 def", &Vec::new()), Err(FormatError::OutOfRange(1, 0)));
}

#[test]
fn placeholder_zero_is_out_of_range() {
    let cells = vec![number_cell(1)];
    assert_eq!(expand("abc %0 def", &cells), Err(FormatError::OutOfRange(0, 1)));
    assert_eq!(expand("abc %000 def", &cells), Err(FormatError::OutOfRange(0, 1)));
}

#[test]
fn unterminated_placeholder_is_malformed() {
    let cells = vec![number_cell(1)];
    assert_eq!(expand("abc %1", &cells), Err(FormatError::MalformedTemplate));
    assert_eq!(expand("abc %", &cells), Err(FormatError::MalformedTemplate));
}

#[test]
fn unterminated_format_spec_is_malformed() {
    let cells = vec![number_cell(1)];
    assert_eq!(expand("abc %1!s", &cells), Err(FormatError::MalformedTemplate));
    assert_eq!(expand("abc %1!", &cells), Err(FormatError::MalformedTemplate));
}

#[test]
fn event_without_template_cannot_be_formatted() {
    let def = EventDefinition::unknown();
    assert_eq!(format_event_message(&def, &vec![number_cell(1)]), Err(FormatError::NoTemplate));
}

#[test]
fn template_without_placeholder_is_copied() {
    assert_eq!(expand("", &Vec::new()), Ok(String::new()));
    assert_eq!(expand("plain text!", &Vec::new()), Ok("plain text!".to_string()));
    assert_eq!(expand("caf\u{e9} \u{1F600}", &Vec::new()), Ok("caf\u{e9} \u{1F600}".to_string()));
}

#[test]
fn doubled_percent_stays_in_the_text() {
    assert_eq!(expand("abc %% def", &Vec::new()), Ok("abc %% def".to_string()));
    let cells = vec![number_cell(5)];
    assert_eq!(expand("%% %1 %%", &cells), Ok("%% 5 %%".to_string()));
}

#[test]
fn placeholder_ended_by_percent_leaves_the_percent_as_text() {
    let cells = vec![wide_cell("a"), wide_cell("b")];
    assert_eq!(expand("%1%2", &cells), Ok("a%2".to_string()));
}

#[test]
fn percent_waits_for_a_digit() {
    let cells: Vec<RawCell> = (1..=7).map(number_cell).collect();
    assert_eq!(expand("50% of 7 items", &cells), Ok("50% of7 items".to_string()));
    assert_eq!(expand("100% sure %1 ok", &cells), Ok("100% sure %1 ok".to_string()));
}

#[test]
fn multi_digit_placeholder() {
    let cells: Vec<RawCell> = (1..=12).map(|n| number_cell(n * 10)).collect();
    assert_eq!(expand("[%12] [%1] [%10]", &cells), Ok("[120] [10] [100]".to_string()));
    assert_eq!(expand("[%13] ", &cells), Err(FormatError::OutOfRange(13, 12)));
    assert_eq!(expand("[%012] ", &cells), Ok("[120] ".to_string()));
}

#[test]
fn repeated_placeholder_repeats_the_value() {
    let cells = vec![wide_cell("x")];
    assert_eq!(expand("%1-%1-%1.", &cells), Ok("x-x-x.".to_string()));
}

#[test]
fn only_referenced_values_are_decoded() {
    let cells = vec![cell(99, 0), wide_cell("fine")];
    assert_eq!(expand("%2 only.", &cells), Ok("fine only.".to_string()));
}

#[test]
fn value_that_cannot_be_decoded_fails_the_message() {
    let cells = vec![wide_cell("fine"), cell(99, 0)];
    assert_eq!(
        expand("%1 and %2.", &cells),
        Err(FormatError::Decode(1, DecodeError::UnsupportedType(99)))
    );
}

#[test]
fn declared_type_of_the_field_is_the_hint() {
    let def = definition("mask %1 name %2.", &["win:HexInt32", "xs:string"]);
    let cells = vec![wide_cell("0x10"), wide_cell("0x10")];
    assert_eq!(format_event_message(&def, &cells), Ok("mask 16 name 0x10.".to_string()));
}

#[test]
fn values_without_definition_have_no_hint() {
    let def = definition("%1 %2.", &["win:HexInt32"]);
    let cells = vec![wide_cell("0x10"), wide_cell("0x10")];
    assert_eq!(format_event_message(&def, &cells), Ok("16 0x10.".to_string()));
}

#[test]
fn each_kind_of_value_has_its_text() {
    let time = SystemTime {
        year: 2019,
        month: 10,
        day_of_week: 6,
        day: 19,
        hour: 17,
        minute: 7,
        second: 45,
        milliseconds: 416,
    };
    let cells = vec![
        cell(TYPE_NULL, 0),
        cell(TYPE_BOOLEAN, 1),
        cell(TYPE_BOOLEAN, 0),
        cell(TYPE_INT32, 0xFFFF_FFFB),
        cell(TYPE_HANDLE, 5),
        RawCell {
            type_tag: TYPE_FILE_TIME,
            count: 1,
            payload: 1,
            data: Vec::new(),
            platform: PlatformValue::Time(time),
        },
        RawCell {
            type_tag: TYPE_DOUBLE,
            count: 1,
            payload: 0x3FF8_0000_0000_0000,
            data: Vec::new(),
            platform: PlatformValue::Float(FloatText {
                plain: "1.5".to_string(),
                json: "1.5e0".to_string(),
            }),
        },
        RawCell {
            type_tag: TYPE_GUID,
            count: 1,
            payload: 0x1000,
            data: vec![0x11; 16],
            platform: PlatformValue::Absent,
        },
    ];
    assert_eq!(
        expand("%1|%2|%3|%4|%5|%6|%7|%8|", &cells),
        Ok("null|true|false|-5|<handle>|2019-10-19 17:7:45.416|1.5|11111111-1111-1111-1111-111111111111|"
            .to_string())
    );
}

#[test]
fn bytes_are_written_as_a_list() {
    let text: String = render_for_message(&EvtVariant::Binary(vec![1, 20, 255])).into_iter().collect();
    assert_eq!(text, "[1, 20, 255]");
    let empty: String = render_for_message(&EvtVariant::Binary(Vec::new())).into_iter().collect();
    assert_eq!(empty, "[]");
    let one: String = render_for_message(&EvtVariant::Binary(vec![0])).into_iter().collect();
    assert_eq!(one, "[0]");
}

#[test]
fn numbers_are_written_in_decimal() {
    let text: String = render_for_message(&EvtVariant::UInt(u64::MAX)).into_iter().collect();
    assert_eq!(text, "18446744073709551615");
    let text: String = render_for_message(&EvtVariant::Int(i64::MIN)).into_iter().collect();
    assert_eq!(text, "-9223372036854775808");
    let text: String = render_for_message(&EvtVariant::UInt(0)).into_iter().collect();
    assert_eq!(text, "0");
    let text: String = render_for_message(&EvtVariant::Int(1000)).into_iter().collect();
    assert_eq!(text, "1000");
}

#[test]
fn out_of_range_error_names_placeholder_and_count() {
    let cells = vec![wide_cell("x"), wide_cell("y")];
    assert_eq!(expand("a %3 b", &cells), Err(FormatError::OutOfRange(3, 2)));
    let unreadable = vec![wide_cell("x"), cell(99, 0)];
    assert_eq!(expand("a %3 b %2 ", &unreadable), Err(FormatError::OutOfRange(3, 2)));
}
