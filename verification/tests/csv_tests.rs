use evtq::csv::{render_csv_line, render_event_csv, render_for_csv};
use evtq::formatting::{
    CommonEventProperties, DecodeError, EvtVariant, FloatText, PlatformValue, RawCell, SystemTime,
    TYPE_BOOLEAN, TYPE_DOUBLE, TYPE_HANDLE, TYPE_INT32, TYPE_NULL, TYPE_STRING, TYPE_UINT32,
};
use evtq::metadata::{
    EventDefinition, EventEntry, EventFieldDefinition, Metadata, ProviderMetadata, VersionEntry,
};
use evtq::output_cols::{parse_column_names, OutputColumn};
use evtq::rendering::{RenderError, RenderingConfig};

fn wide_cell(text: &str) -> RawCell {
    let mut data: Vec<u8> = Vec::new();
    for unit in text.encode_utf16() {
        data.push((unit & 0xff) as u8);
        data.push((unit >> 8) as u8);
    }
    data.push(0);
    data.push(0);
    RawCell { type_tag: TYPE_STRING, count: 1, payload: 0x1000, data, platform: PlatformValue::Absent }
}

fn cell(type_tag: u32, payload: u64) -> RawCell {
    RawCell { type_tag, count: 1, payload, data: Vec::new(), platform: PlatformValue::Absent }
}

fn common() -> CommonEventProperties {
    CommonEventProperties {
        timestamp: SystemTime {
            year: 2020,
            month: 2,
            day_of_week: 6,
            day: 29,
            hour: 1,
            minute: 2,
            second: 3,
            milliseconds: 4,
        },
        hostname: "HOST,1".to_string(),
        recordid: 77,
        provider: "Prov".to_string(),
        eventid: 4624,
        version: 2,
    }
}

fn definition() -> EventDefinition {
    EventDefinition {
        channel: Some("Security".to_string()),
        message: Some("User %1, logon %2!d!.".to_string()),
        level: 4,
        level_name: Some("win:Informational".to_string()),
        opcode: 1,
        opcode_name: None,
        task: 12544,
        task_name: Some("Logon, interactive".to_string()),
        keywords: 0x8020000000000000,
        keyword_names: vec!["Audit Success".to_string(), "0x20".to_string()],
        fields: vec![
            EventFieldDefinition { name: "user".to_string(), out_type: "xs:string".to_string() },
            EventFieldDefinition { name: "type".to_string(), out_type: "win:HexInt32".to_string() },
        ],
    }
}

fn cells() -> Vec<RawCell> {
    vec![wide_cell("alice,bob"), wide_cell("0x10"), cell(TYPE_INT32, 0xFFFF_FFFF)]
}

fn line(columns: &str, separator: char) -> Result<String, RenderError> {
    render_csv_line(
        &common(),
        &cells(),
        &parse_column_names(columns).unwrap(),
        &definition(),
        "%Y-%m-%dT%H:%M:%S%.3f%z",
        separator,
    )
}

#[test]
fn generic_columns_come_from_the_common_properties() {
    assert_eq!(
        line("hostname,recordid,timestamp,provider,eventid,version", ';'),
        Ok("HOST,1;77;2020-02-29T01:02:03.004+0000;Prov;4624;2\n".to_string())
    );
}

#[test]
fn metadata_columns_come_from_the_definition() {
    assert_eq!(
        line("level,level_name,task,task_name,opcode,keywords,keyword_names", ';'),
        Ok("4;win:Informational;12544;Logon, interactive;1;9232379236109516800;Audit Success,0x20\n"
            .to_string())
    );
}

#[test]
fn separator_inside_a_value_becomes_a_space() {
    assert_eq!(
        line("hostname,task_name,keyword_names,variant1", ','),
        Ok("HOST 1,Logon  interactive,Audit Success 0x20,alice bob\n".to_string())
    );
}

#[test]
fn separator_inside_a_value_makes_no_extra_column() {
    let rendered = line("hostname,provider,variant1,unformatted_message,formatted_message", ',').unwrap();
    assert_eq!(rendered.trim_end_matches('\n').split(',').count(), 5);
    assert_eq!(
        rendered,
        "HOST 1,Prov,alice bob,User %1  logon %2!d!.,User alice bob  logon 16.\n"
    );
    let tabbed = render_csv_line(
        &common(),
        &vec![wide_cell("a\tb\t\tc")],
        &vec![OutputColumn::EventSpecific(1), OutputColumn::EventID],
        &definition(),
        "",
        '\t',
    )
    .unwrap();
    assert_eq!(tabbed, "a b  c\t4624\n");
}

#[test]
fn absent_names_and_messages_are_left_out() {
    assert_eq!(line("eventid,opcode_name,version", ';'), Ok("4624;2\n".to_string()));
    let bare = EventDefinition::unknown();
    let rendered = render_csv_line(
        &common(),
        &cells(),
        &parse_column_names(
            "level_name,eventid,task_name,opcode_name,unformatted_message,formatted_message,level,keyword_names,version",
        )
        .unwrap(),
        &bare,
        "",
        ';',
    );
    assert_eq!(rendered, Ok("4624;0;;2\n".to_string()));
}

#[test]
fn field_beyond_the_values_truncates_the_line() {
    assert_eq!(
        line("eventid,variant1,variant4,variant2,hostname", ';'),
        Ok("4624;alice,bob\n".to_string())
    );
    assert_eq!(line("variant9,eventid", ';'), Ok("\n".to_string()));
    assert_eq!(line("eventid,variant0,hostname", ';'), Ok("4624\n".to_string()));
    assert_eq!(
        line("variant1,...,variant15", ';'),
        Ok("alice,bob;0x10;-1\n".to_string())
    );
}

#[test]
fn last_existing_field_does_not_truncate() {
    assert_eq!(line("variant3,eventid", ';'), Ok("-1;4624\n".to_string()));
}

#[test]
fn fields_are_decoded_without_hint() {
    assert_eq!(line("variant2", ';'), Ok("0x10\n".to_string()));
}

#[test]
fn message_that_cannot_be_formatted_stands_as_its_template() {
    let mut def = definition();
    def.message = Some("needs %7 and more".to_string());
    let rendered = render_csv_line(
        &common(),
        &cells(),
        &vec![OutputColumn::EventID, OutputColumn::FormattedMessage],
        &def,
        "",
        ';',
    );
    assert_eq!(rendered, Ok("4624;needs %7 and more\n".to_string()));
}

#[test]
fn value_that_cannot_be_decoded_fails_the_line() {
    let rendered = render_csv_line(
        &common(),
        &vec![wide_cell("ok"), cell(99, 0)],
        &vec![OutputColumn::EventSpecific(1), OutputColumn::EventSpecific(2)],
        &definition(),
        "",
        ';',
    );
    assert_eq!(rendered, Err(RenderError::Decode(1, DecodeError::UnsupportedType(99))));
}

#[test]
fn columns_after_the_end_of_the_line_are_not_decoded() {
    let rendered = render_csv_line(
        &common(),
        &vec![cell(99, 0)],
        &vec![OutputColumn::EventSpecific(2), OutputColumn::EventSpecific(1)],
        &definition(),
        "",
        ';',
    );
    assert_eq!(rendered, Ok("\n".to_string()));
}

#[test]
fn no_column_gives_an_empty_line() {
    assert_eq!(
        render_csv_line(&common(), &cells(), &Vec::new(), &definition(), "", ','),
        Ok("\n".to_string())
    );
}

#[test]
fn each_kind_of_value_has_its_csv_text() {
    let format: Vec<char> = "%H:%M".chars().collect();
    let text = |value: EvtVariant| -> String { render_for_csv(&value, &format).into_iter().collect() };
    assert_eq!(text(EvtVariant::Null), "");
    assert_eq!(text(EvtVariant::Handle(4)), "<handle>");
    assert_eq!(text(EvtVariant::String("s".to_string())), "s");
    assert_eq!(text(EvtVariant::UInt(10)), "10");
    assert_eq!(text(EvtVariant::Int(-10)), "-10");
    let written = |plain: &str| FloatText { plain: plain.to_string(), json: "0.0".to_string() };
    assert_eq!(text(EvtVariant::Single(0x3FC0_0000, written("1.5"))), "1.5");
    assert_eq!(text(EvtVariant::Double(0, written("0"))), "0");
    assert_eq!(text(EvtVariant::Boolean(true)), "true");
    assert_eq!(text(EvtVariant::Boolean(false)), "false");
    assert_eq!(text(EvtVariant::Binary(vec![0xDE, 0xAD, 0x01])), "dead01");
    assert_eq!(text(EvtVariant::DateTime(common().timestamp)), "01:02");
}

#[test]
fn null_value_is_an_empty_column() {
    let rendered = render_csv_line(
        &common(),
        &vec![cell(TYPE_NULL, 0), cell(TYPE_BOOLEAN, 1), cell(TYPE_HANDLE, 9), cell(TYPE_UINT32, 5)],
        &parse_column_names("variant1,...,variant4").unwrap(),
        &definition(),
        "",
        ',',
    );
    assert_eq!(rendered, Ok(",true,<handle>,5\n".to_string()));
}

#[test]
fn floating_point_value_is_written_as_rendered() {
    let cells = vec![RawCell {
        type_tag: TYPE_DOUBLE,
        count: 1,
        payload: 0x400921FB54442D18,
        data: Vec::new(),
        platform: PlatformValue::Float(FloatText {
            plain: "3.141592653589793".to_string(),
            json: "unused".to_string(),
        }),
    }];
    let rendered =
        render_csv_line(&common(), &cells, &vec![OutputColumn::EventSpecific(1)], &definition(), "", ',');
    assert_eq!(rendered, Ok("3.141592653589793\n".to_string()));
}

#[test]
fn definition_is_looked_up_in_the_catalog() {
    let mut metadata = Metadata::new();
    metadata.insert(
        "Prov".to_string(),
        ProviderMetadata {
            guid: None,
            resource_file_path: None,
            parameter_file_path: None,
            message_file_path: None,
            message: None,
            events: vec![EventEntry {
                event_id: 4624,
                versions: vec![VersionEntry { version: 2, definition: definition() }],
            }],
        },
    );
    let mut config = RenderingConfig {
        datefmt: "%Y".to_string(),
        metadata,
        field_separator: '\t',
        json_pretty: false,
        columns: parse_column_names("timestamp,level_name,formatted_message").unwrap(),
    };
    assert_eq!(
        render_event_csv(&common(), &cells(), &config),
        Ok("2020\twin:Informational\tUser alice,bob, logon 16.\n".to_string())
    );
    config.metadata = Metadata::new();
    assert_eq!(render_event_csv(&common(), &cells(), &config), Ok("2020\n".to_string()));
}

#[test]
fn binary_field_is_written_in_hexadecimal() {
    let cells = vec![RawCell {
        type_tag: evtq::formatting::TYPE_BINARY,
        count: 3,
        payload: 0x1000,
        data: vec![0xDE, 0xAD, 0x01],
        platform: PlatformValue::Absent,
    }];
    let rendered = render_csv_line(
        &common(),
        &cells,
        &vec![OutputColumn::EventSpecific(1), OutputColumn::EventID],
        &definition(),
        "",
        ',',
    );
    assert_eq!(rendered, Ok("dead01,4624\n".to_string()));
}
