use evtq::formatting::EvtVariant;
use evtq::metadata::{
    import_metadata_from_system, provider_message_id, provider_metadata, provider_text_property,
    EventDefinition, EventFieldDefinition, ProviderRecord,
};
use evtq::windows::{
    add_definition, can_channel_be_subscribed, event_definition, evt_get_channel_type,
    fields_from_template, find_name, get_evt_prov_metadata_mapping, get_evt_provider_events,
    get_system_standard_val, keyword_names, read_event_fields, read_event_header, resolve_name,
    DescribedEvent, EventHeader, EventMetadataValues, EventProperty, MappingItem, NameEntry,
    NameTables, StandardTable, XmlAttribute, XmlNode, XmlTemplate,
};

fn name(code: u64, name: &str) -> NameEntry {
    NameEntry { code, name: name.to_string() }
}

fn field(name: &str, out_type: &str) -> EventFieldDefinition {
    EventFieldDefinition { name: name.to_string(), out_type: out_type.to_string() }
}

fn no_tables() -> NameTables {
    NameTables {
        levels: Vec::new(),
        opcodes: Vec::new(),
        tasks: Vec::new(),
        keywords: Vec::new(),
        channels: Vec::new(),
    }
}

fn header(event_id: u64, version: u64, template: &str) -> EventHeader {
    EventHeader {
        event_id,
        version,
        template: template.to_string(),
        message_id: 5,
        level: 4,
        opcode: 1,
        task: 0,
        keywords: 0x8000000000000005,
        channel: 10,
    }
}

fn text(s: &str) -> EvtVariant {
    EvtVariant::String(s.to_string())
}

#[test]
fn standard_levels_have_names() {
    assert_eq!(get_system_standard_val(StandardTable::Levels, 0), Some(("win:LogAlways", "Log Always")));
    assert_eq!(
        get_system_standard_val(StandardTable::Levels, 4),
        Some(("win:Informational", "All informational content, including win:Warning"))
    );
    assert_eq!(
        get_system_standard_val(StandardTable::Levels, 5).map(|p| p.0),
        Some("win:Verbose")
    );
    assert_eq!(get_system_standard_val(StandardTable::Levels, 6), None);
}

#[test]
fn standard_channels_have_names() {
    let names: Vec<Option<&str>> = (0..14)
        .map(|id| get_system_standard_val(StandardTable::Channels, id).map(|p| p.0))
        .collect();
    assert_eq!(
        names,
        vec![
            Some("TraceClassic"),
            None,
            None,
            None,
            None,
            None,
            None,
            None,
            Some("System"),
            Some("Application"),
            Some("Security"),
            Some("TraceLogging"),
            Some("ProviderMetadata"),
            None,
        ]
    );
}

#[test]
fn standard_tasks_and_opcodes_have_names() {
    assert_eq!(get_system_standard_val(StandardTable::Tasks, 0), Some(("win:None", "undefined task")));
    assert_eq!(get_system_standard_val(StandardTable::Tasks, 1), None);
    let names: Vec<Option<&str>> = (0..11)
        .map(|id| get_system_standard_val(StandardTable::Opcodes, id).map(|p| p.0))
        .collect();
    assert_eq!(
        names,
        vec![
            Some("win:None"),
            Some("win:Start"),
            Some("win:Stop"),
            Some("win:DC_Start"),
            Some("win:DC_Stop"),
            Some("win:Extension"),
            Some("win:Reply"),
            Some("win:Resume"),
            Some("win:Suspend"),
            Some("win:Send"),
            None,
        ]
    );
    assert_eq!(get_system_standard_val(StandardTable::Opcodes, u32::MAX), None);
}

#[test]
fn name_of_the_provider_comes_before_the_standard_one() {
    let names = vec![name(4, "Info"), name(100, "Custom")];
    assert_eq!(resolve_name(&names, StandardTable::Levels, 4), Some("Info".to_string()));
    assert_eq!(resolve_name(&names, StandardTable::Levels, 100), Some("Custom".to_string()));
    assert_eq!(resolve_name(&names, StandardTable::Levels, 2), Some("win:Error".to_string()));
    assert_eq!(resolve_name(&names, StandardTable::Levels, 50), None);
    assert_eq!(resolve_name(&Vec::new(), StandardTable::Tasks, 0), Some("win:None".to_string()));
    assert_eq!(resolve_name(&Vec::new(), StandardTable::Tasks, 3), None);
}

#[test]
fn last_name_of_a_code_counts() {
    let names = vec![name(1, "first"), name(2, "two"), name(1, "last")];
    assert_eq!(find_name(&names, 1), Some(2));
    assert_eq!(find_name(&names, 2), Some(1));
    assert_eq!(find_name(&names, 3), None);
    assert_eq!(resolve_name(&names, StandardTable::Opcodes, 1), Some("last".to_string()));
}

#[test]
fn keyword_bits_resolve_to_names_or_hexadecimal() {
    let names = vec![name(1, "one"), name(0x10, "sixteen"), name(3, "unused")];
    assert_eq!(
        keyword_names(&names, 0x1 | 0x4 | 0x10 | 0xA00),
        vec!["one".to_string(), "0x4".to_string(), "sixteen".to_string(), "0x200".to_string(), "0x800".to_string()]
    );
    assert_eq!(keyword_names(&names, 0), Vec::<String>::new());
}

#[test]
fn reserved_keyword_bits_have_no_names() {
    let names = vec![name(1 << 56, "reserved"), name(1 << 55, "top")];
    assert_eq!(keyword_names(&names, 0xFF00_0000_0000_0000), Vec::<String>::new());
    assert_eq!(keyword_names(&names, 0xFF80_0000_0000_0000), vec!["top".to_string()]);
    assert_eq!(
        keyword_names(&Vec::new(), (1 << 55) | (1 << 40)),
        vec!["0x10000000000".to_string(), "0x80000000000000".to_string()]
    );
    assert_eq!(keyword_names(&Vec::new(), u64::MAX).len(), 56);
}

#[test]
fn mapping_stops_at_the_first_unusable_item() {
    let items = vec![
        MappingItem { key: Some(EvtVariant::UInt(1)), value: Some(text("one")) },
        MappingItem { key: Some(EvtVariant::UInt(2)), value: Some(text("two")) },
        MappingItem { key: Some(EvtVariant::Int(3)), value: Some(text("three")) },
        MappingItem { key: Some(EvtVariant::UInt(4)), value: Some(text("four")) },
    ];
    assert_eq!(get_evt_prov_metadata_mapping(&items), vec![name(1, "one"), name(2, "two")]);
    let items = vec![
        MappingItem { key: Some(EvtVariant::UInt(1)), value: Some(EvtVariant::Null) },
        MappingItem { key: Some(EvtVariant::UInt(2)), value: Some(text("two")) },
    ];
    assert_eq!(get_evt_prov_metadata_mapping(&items), Vec::new());
    let items = vec![
        MappingItem { key: Some(EvtVariant::UInt(1)), value: Some(text("one")) },
        MappingItem { key: None, value: Some(text("two")) },
    ];
    assert_eq!(get_evt_prov_metadata_mapping(&items), vec![name(1, "one")]);
    let items = vec![MappingItem { key: Some(EvtVariant::UInt(1)), value: None }];
    assert_eq!(get_evt_prov_metadata_mapping(&items), Vec::new());
    assert_eq!(get_evt_prov_metadata_mapping(&Vec::new()), Vec::new());
}

#[test]
fn mapping_keeps_every_usable_item() {
    let items = vec![
        MappingItem { key: Some(EvtVariant::UInt(9)), value: Some(text("nine")) },
        MappingItem { key: Some(EvtVariant::UInt(9)), value: Some(text("neuf")) },
    ];
    let mapping = get_evt_prov_metadata_mapping(&items);
    assert_eq!(mapping, vec![name(9, "nine"), name(9, "neuf")]);
    assert_eq!(resolve_name(&mapping, StandardTable::Levels, 9), Some("neuf".to_string()));
}

#[test]
fn template_declares_the_fields() {
    let template = "<template xmlns=\"http://schemas.microsoft.com/win/2004/08/events\">\n  <data name=\"SubjectUserSid\" inType=\"win:SID\" outType=\"xs:string\"/>\n  <!-- a comment -->\n  <data name=\"LogonType\" inType=\"win:UInt32\" outType=\"win:HexInt32\"/>\n</template>";
    assert_eq!(
        read_event_fields(template),
        Some(vec![field("SubjectUserSid", "xs:string"), field("LogonType", "win:HexInt32")])
    );
}

#[test]
fn empty_template_declares_no_field() {
    assert_eq!(read_event_fields(""), Some(Vec::new()));
    assert_eq!(read_event_fields("<template/>"), Some(Vec::new()));
    assert_eq!(read_event_fields("<template>  </template>"), Some(Vec::new()));
}

#[test]
fn template_that_is_no_xml_declares_nothing() {
    assert_eq!(read_event_fields("<template>"), None);
    assert_eq!(read_event_fields("not xml"), None);
    assert_eq!(read_event_fields(" "), None);
    assert_eq!(read_event_fields("<template><data name='a' outType='b'></template>"), None);
}

#[test]
fn template_needs_its_root() {
    assert_eq!(read_event_fields("<other><data name='a' outType='b'/></other>"), None);
    assert_eq!(read_event_fields("<Template><data name='a' outType='b'/></Template>"), None);
    assert_eq!(
        read_event_fields("<e:template xmlns:e='urn:x'><e:data name='a' outType='b'/></e:template>"),
        Some(vec![field("a", "b")])
    );
}

#[test]
fn struct_nodes_are_passed_over() {
    assert_eq!(
        read_event_fields(
            "<template><data name='a' outType='t'/><struct name='s'><data name='inner' outType='t'/></struct><data name='b' outType='t'/></template>"
        ),
        Some(vec![field("a", "t"), field("b", "t")])
    );
}

#[test]
fn unexpected_node_ends_the_fields() {
    assert_eq!(
        read_event_fields(
            "<template><data name='a' outType='t'/><binary name='x'/><data name='b' outType='t'/></template>"
        ),
        Some(vec![field("a", "t")])
    );
}

#[test]
fn incomplete_data_node_ends_the_fields() {
    assert_eq!(
        read_event_fields(
            "<template><data name='a' outType='t'/><data name='x'/><data name='b' outType='t'/></template>"
        ),
        Some(vec![field("a", "t")])
    );
    assert_eq!(
        read_event_fields("<template><data outType='t'/><data name='b' outType='t'/></template>"),
        Some(Vec::new())
    );
}

#[test]
fn fields_are_read_from_a_tree() {
    let attribute = |name: &str, value: &str| XmlAttribute { name: name.to_string(), value: value.to_string() };
    let tree = XmlTemplate {
        root_name: "template".to_string(),
        children: vec![
            XmlNode { is_element: false, name: String::new(), attributes: Vec::new() },
            XmlNode {
                is_element: true,
                name: "data".to_string(),
                attributes: vec![
                    attribute("outType", "first"),
                    attribute("name", "n"),
                    attribute("outType", "second"),
                ],
            },
            XmlNode {
                is_element: false,
                name: "bogus".to_string(),
                attributes: Vec::new(),
            },
            XmlNode {
                is_element: true,
                name: "data".to_string(),
                attributes: vec![attribute("name", "m"), attribute("outtype", "x")],
            },
            XmlNode {
                is_element: true,
                name: "data".to_string(),
                attributes: vec![attribute("name", "late"), attribute("outType", "x")],
            },
        ],
    };
    assert_eq!(fields_from_template(&Some(tree)), Some(vec![field("n", "first")]));
    assert_eq!(fields_from_template(&None), None);
}

fn event_values() -> EventMetadataValues {
    EventMetadataValues {
        event_id: EvtVariant::UInt(4624),
        version: EvtVariant::UInt(2),
        template: text("<template/>"),
        message_id: EvtVariant::UInt(0xFFFF_FFFF),
        level: EvtVariant::UInt(0),
        opcode: EvtVariant::UInt(1),
        task: EvtVariant::UInt(12544),
        keywords: EvtVariant::UInt(u64::MAX),
        channel: EvtVariant::UInt(10),
    }
}

#[test]
fn event_properties_of_the_right_types_make_a_header() {
    assert_eq!(
        read_event_header(&event_values()),
        Ok(EventHeader {
            event_id: 4624,
            version: 2,
            template: "<template/>".to_string(),
            message_id: 0xFFFF_FFFF,
            level: 0,
            opcode: 1,
            task: 12544,
            keywords: u64::MAX,
            channel: 10,
        })
    );
}

#[test]
fn event_property_of_the_wrong_type_is_named() {
    let mut values = event_values();
    values.channel = EvtVariant::UInt(0x1_0000_0000);
    assert_eq!(read_event_header(&values), Err(EventProperty::Channel));
    values.keywords = EvtVariant::Int(1);
    assert_eq!(read_event_header(&values), Err(EventProperty::Keyword));
    values.task = EvtVariant::Null;
    assert_eq!(read_event_header(&values), Err(EventProperty::Task));
    values.opcode = text("1");
    assert_eq!(read_event_header(&values), Err(EventProperty::Opcode));
    values.level = EvtVariant::UInt(u64::MAX);
    assert_eq!(read_event_header(&values), Err(EventProperty::Level));
    values.message_id = EvtVariant::UInt(0x1_0000_0000);
    assert_eq!(read_event_header(&values), Err(EventProperty::MessageID));
    values.template = EvtVariant::Null;
    assert_eq!(read_event_header(&values), Err(EventProperty::Template));
    values.version = EvtVariant::Boolean(true);
    assert_eq!(read_event_header(&values), Err(EventProperty::Version));
    values.event_id = EvtVariant::Int(4624);
    assert_eq!(read_event_header(&values), Err(EventProperty::EventID));
}

#[test]
fn definition_is_built_from_header_and_names() {
    let tables = NameTables {
        levels: vec![name(4, "Information")],
        opcodes: Vec::new(),
        tasks: vec![name(0, "None")],
        keywords: vec![name(4, "Four")],
        channels: vec![name(16, "Prov/Operational")],
    };
    let event = DescribedEvent {
        header: header(1, 0, "<template><data name='a' outType='xs:string'/></template>"),
        message: Some("Hello %1".to_string()),
    };
    assert_eq!(
        event_definition(&event, &tables),
        Some(EventDefinition {
            channel: Some("Security".to_string()),
            message: Some("Hello %1".to_string()),
            level: 4,
            level_name: Some("Information".to_string()),
            opcode: 1,
            opcode_name: Some("win:Start".to_string()),
            task: 0,
            task_name: Some("None".to_string()),
            keywords: 0x8000000000000005,
            keyword_names: vec!["0x1".to_string(), "Four".to_string()],
            fields: vec![field("a", "xs:string")],
        })
    );
}

#[test]
fn definition_without_message_identifier_has_no_message() {
    let mut event = DescribedEvent { header: header(1, 0, ""), message: Some("ignored".to_string()) };
    event.header.message_id = 0xFFFF_FFFF;
    event.header.channel = 99;
    event.header.level = 77;
    let def = event_definition(&event, &no_tables()).unwrap();
    assert_eq!(def.message, None);
    assert_eq!(def.channel, None);
    assert_eq!(def.level_name, None);
    assert_eq!(def.fields, Vec::new());
    event.header.message_id = 0xFFFF_FFFE;
    assert_eq!(event_definition(&event, &no_tables()).unwrap().message, Some("ignored".to_string()));
    event.message = None;
    assert_eq!(event_definition(&event, &no_tables()).unwrap().message, None);
}

#[test]
fn event_with_unreadable_template_has_no_definition() {
    let event = DescribedEvent { header: header(1, 0, "<broken"), message: None };
    assert_eq!(event_definition(&event, &no_tables()), None);
    let event = DescribedEvent { header: header(1, 0, "<root/>"), message: None };
    assert_eq!(event_definition(&event, &no_tables()), None);
}

#[test]
fn provider_events_stand_under_identifier_and_version() {
    let events = vec![
        DescribedEvent { header: header(1, 0, ""), message: Some("one".to_string()) },
        DescribedEvent { header: header(2, 0, "<broken"), message: Some("skipped".to_string()) },
        DescribedEvent { header: header(1, 1, ""), message: Some("one v1".to_string()) },
        DescribedEvent { header: header(3, 0, ""), message: Some("three".to_string()) },
        DescribedEvent { header: header(1, 0, ""), message: Some("one again".to_string()) },
    ];
    let result = get_evt_provider_events(&no_tables(), &events);
    assert_eq!(result.len(), 2);
    assert_eq!(result[0].event_id, 1);
    assert_eq!(result[0].versions.len(), 2);
    assert_eq!(result[0].versions[0].version, 0);
    assert_eq!(result[0].versions[0].definition.message, Some("one again".to_string()));
    assert_eq!(result[0].versions[1].version, 1);
    assert_eq!(result[0].versions[1].definition.message, Some("one v1".to_string()));
    assert_eq!(result[1].event_id, 3);
    assert_eq!(get_evt_provider_events(&no_tables(), &Vec::new()), Vec::new());
}

#[test]
fn definition_is_put_under_its_event() {
    let mut events = Vec::new();
    let mut def = EventDefinition::unknown();
    def.level = 1;
    add_definition(&mut events, 5, 0, def.clone());
    def.level = 2;
    add_definition(&mut events, 5, 1, def.clone());
    def.level = 3;
    add_definition(&mut events, 6, 0, def.clone());
    def.level = 4;
    add_definition(&mut events, 5, 0, def.clone());
    assert_eq!(events.len(), 2);
    assert_eq!(events[0].versions.len(), 2);
    assert_eq!(events[0].versions[0].definition.level, 4);
    assert_eq!(events[0].versions[1].definition.level, 2);
    assert_eq!(events[1].versions[0].definition.level, 3);
}

#[test]
fn provider_properties_are_texts_or_absent() {
    assert_eq!(provider_text_property(&Some(text("{guid}"))), Some("{guid}".to_string()));
    assert_eq!(provider_text_property(&Some(EvtVariant::Null)), None);
    assert_eq!(provider_text_property(&Some(EvtVariant::UInt(1))), None);
    assert_eq!(provider_text_property(&None), None);
}

#[test]
fn provider_message_identifier_must_name_a_message() {
    assert_eq!(provider_message_id(&Some(EvtVariant::UInt(0))), Some(0));
    assert_eq!(provider_message_id(&Some(EvtVariant::UInt(0xFFFF_FFFE))), Some(0xFFFF_FFFE));
    assert_eq!(provider_message_id(&Some(EvtVariant::UInt(0xFFFF_FFFF))), None);
    assert_eq!(provider_message_id(&Some(EvtVariant::UInt(0x1_0000_0000))), None);
    assert_eq!(provider_message_id(&Some(EvtVariant::Int(5))), None);
    assert_eq!(provider_message_id(&None), None);
}

fn provider_record(provider: &str, guid: &str, message_id: u64) -> ProviderRecord {
    ProviderRecord {
        name: provider.to_string(),
        guid: Some(text(guid)),
        resource_file_path: Some(EvtVariant::Null),
        parameter_file_path: None,
        message_file_path: Some(text("m.dll")),
        message_id: Some(EvtVariant::UInt(message_id)),
        message: Some("about".to_string()),
        tables: no_tables(),
        events: vec![DescribedEvent { header: header(1, 0, ""), message: Some(guid.to_string()) }],
    }
}

#[test]
fn provider_record_becomes_a_catalog_entry() {
    let entry = provider_metadata(&provider_record("P", "{g}", 17));
    assert_eq!(entry.guid, Some("{g}".to_string()));
    assert_eq!(entry.resource_file_path, None);
    assert_eq!(entry.parameter_file_path, None);
    assert_eq!(entry.message_file_path, Some("m.dll".to_string()));
    assert_eq!(entry.message, Some("about".to_string()));
    assert_eq!(entry.events.len(), 1);
    assert_eq!(provider_metadata(&provider_record("P", "{g}", 0xFFFF_FFFF)).message, None);
}

#[test]
fn system_catalog_holds_each_provider_once() {
    let records = vec![
        provider_record("A", "{a1}", 1),
        provider_record("B", "{b}", 1),
        provider_record("A", "{a2}", 1),
    ];
    let catalog = import_metadata_from_system(&records);
    assert_eq!(catalog.len(), 2);
    assert_eq!(catalog.get("A").unwrap().guid, Some("{a2}".to_string()));
    assert_eq!(catalog.get("B").unwrap().guid, Some("{b}".to_string()));
    assert_eq!(catalog.resolve("A", 1, 0).message, Some("{a2}".to_string()));
    assert_eq!(catalog.resolve("A", 1, 0).opcode_name, Some("win:Start".to_string()));
    assert_eq!(import_metadata_from_system(&Vec::new()).len(), 0);
}

#[test]
fn channel_kind_is_a_number_of_thirty_two_bits() {
    assert_eq!(evt_get_channel_type(&EvtVariant::UInt(1)), Some(1));
    assert_eq!(evt_get_channel_type(&EvtVariant::UInt(0xFFFF_FFFF)), Some(0xFFFF_FFFF));
    assert_eq!(evt_get_channel_type(&EvtVariant::UInt(0x1_0000_0000)), None);
    assert_eq!(evt_get_channel_type(&EvtVariant::Int(1)), None);
    assert_eq!(evt_get_channel_type(&EvtVariant::Null), None);
}

#[test]
fn only_admin_and_operational_channels_can_be_subscribed() {
    assert!(can_channel_be_subscribed(0));
    assert!(can_channel_be_subscribed(1));
    assert!(!can_channel_be_subscribed(2));
    assert!(!can_channel_be_subscribed(3));
    assert!(!can_channel_be_subscribed(u32::MAX));
}
