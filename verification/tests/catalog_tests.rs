use evtq::metadata::{
    find_event, find_provider, find_version, merge_definition, update_metadata_with,
    EventDefinition, EventEntry, EventFieldDefinition, Metadata, ProviderEntry, ProviderMetadata,
    VersionEntry,
};

fn field(name: &str, out_type: &str) -> EventFieldDefinition {
    EventFieldDefinition { name: name.to_string(), out_type: out_type.to_string() }
}

fn definition(message: Option<&str>, level: u32, fields: Vec<EventFieldDefinition>) -> EventDefinition {
    let mut def = EventDefinition::unknown();
    def.message = message.map(|m| m.to_string());
    def.level = level;
    def.level_name = Some(format!("level{}", level));
    def.keyword_names = vec!["k".to_string()];
    def.fields = fields;
    def
}

fn provider(guid: Option<&str>, events: Vec<(u64, u64, EventDefinition)>) -> ProviderMetadata {
    let mut entries: Vec<EventEntry> = Vec::new();
    for (event_id, version, definition) in events {
        match entries.iter_mut().find(|e| e.event_id == event_id) {
            Some(entry) => entry.versions.push(VersionEntry { version, definition }),
            None => entries.push(EventEntry {
                event_id,
                versions: vec![VersionEntry { version, definition }],
            }),
        }
    }
    ProviderMetadata {
        guid: guid.map(|g| g.to_string()),
        resource_file_path: Some("res.dll".to_string()),
        parameter_file_path: None,
        message_file_path: Some("msg.dll".to_string()),
        message: Some("about".to_string()),
        events: entries,
    }
}

fn catalog(providers: Vec<(&str, ProviderMetadata)>) -> Metadata {
    let mut catalog = Metadata::new();
    for (name, metadata) in providers {
        catalog.insert(name.to_string(), metadata);
    }
    catalog
}

fn known() -> Metadata {
    catalog(vec![
        (
            "Alpha",
            provider(
                Some("{a}"),
                vec![
                    (1, 0, definition(Some("one %1"), 4, vec![field("a", "xs:string"), field("b", "win:UInt32")])),
                    (1, 1, definition(None, 2, vec![field("x", "xs:string")])),
                    (2, 0, definition(Some("two"), 3, vec![])),
                ],
            ),
        ),
        ("Beta", provider(None, vec![(7, 0, definition(Some("seven"), 1, vec![field("q", "xs:string")]))])),
    ])
}

fn incoming() -> Metadata {
    catalog(vec![
        (
            "Alpha",
            provider(
                Some("{new}"),
                vec![
                    (1, 0, definition(None, 9, vec![field("A", "win:HexInt32")])),
                    (1, 1, definition(Some("fresh"), 9, vec![field("X", "t"), field("Y", "t"), field("Z", "t")])),
                    (3, 0, definition(Some("three"), 5, vec![field("n", "xs:string")])),
                ],
            ),
        ),
        ("Gamma", provider(Some("{g}"), vec![(1, 0, definition(Some("g"), 0, vec![]))])),
    ])
}

#[test]
fn empty_catalog_resolves_to_the_default_definition() {
    let empty = Metadata::new();
    assert_eq!(empty.len(), 0);
    for (name, id, version) in [("Alpha", 1u64, 0u64), ("", 0, 0), ("x", u64::MAX, u64::MAX)] {
        let def = empty.resolve(name, id, version);
        assert_eq!(def, EventDefinition::unknown());
        assert_eq!(def.message, None);
        assert_eq!(def.fields, Vec::new());
        assert_eq!((def.level, def.opcode, def.task, def.keywords), (0, 0, 0, 0));
        assert_eq!((def.level_name, def.opcode_name, def.task_name), (None, None, None));
    }
}

#[test]
fn resolve_finds_what_the_catalog_holds() {
    let catalog = known();
    assert_eq!(catalog.resolve("Alpha", 1, 1).level, 2);
    assert_eq!(catalog.resolve("Alpha", 2, 0).message, Some("two".to_string()));
    assert_eq!(catalog.resolve("Beta", 7, 0).fields, vec![field("q", "xs:string")]);
}

#[test]
fn resolve_degrades_at_every_level() {
    let catalog = known();
    assert_eq!(catalog.resolve("Alph", 1, 0), EventDefinition::unknown());
    assert_eq!(catalog.resolve("alpha", 1, 0), EventDefinition::unknown());
    assert_eq!(catalog.resolve("Alpha", 9, 0), EventDefinition::unknown());
    assert_eq!(catalog.resolve("Alpha", 1, 2), EventDefinition::unknown());
    assert_eq!(catalog.resolve("Beta", 1, 0), EventDefinition::unknown());
}

#[test]
fn insert_replaces_what_was_known_of_a_provider() {
    let mut catalog = known();
    assert_eq!(catalog.len(), 2);
    catalog.insert("Beta".to_string(), provider(Some("{b2}"), vec![]));
    assert_eq!(catalog.len(), 2);
    assert_eq!(catalog.get("Beta").unwrap().guid, Some("{b2}".to_string()));
    assert_eq!(catalog.resolve("Beta", 7, 0), EventDefinition::unknown());
    assert!(catalog.get("Delta").is_none());
}

#[test]
fn last_entry_of_a_key_counts() {
    let catalog = Metadata {
        providers: vec![
            ProviderEntry { name: "P".to_string(), metadata: provider(Some("first"), vec![]) },
            ProviderEntry {
                name: "P".to_string(),
                metadata: ProviderMetadata {
                    guid: Some("last".to_string()),
                    resource_file_path: None,
                    parameter_file_path: None,
                    message_file_path: None,
                    message: None,
                    events: vec![
                        EventEntry {
                            event_id: 1,
                            versions: vec![VersionEntry {
                                version: 0,
                                definition: definition(Some("shadowed"), 1, vec![]),
                            }],
                        },
                        EventEntry {
                            event_id: 1,
                            versions: vec![
                                VersionEntry { version: 0, definition: definition(Some("old"), 1, vec![]) },
                                VersionEntry { version: 0, definition: definition(Some("new"), 2, vec![]) },
                            ],
                        },
                    ],
                },
            },
        ],
    };
    assert_eq!(catalog.providers.len(), 2);
    assert_eq!(catalog.len(), 1);
    assert_eq!(find_provider(&catalog.providers, "P"), Some(1));
    assert_eq!(catalog.get("P").unwrap().guid, Some("last".to_string()));
    let events = &catalog.providers[1].metadata.events;
    assert_eq!(find_event(events, 1), Some(1));
    assert_eq!(find_event(events, 2), None);
    assert_eq!(find_version(&events[1].versions, 0), Some(1));
    assert_eq!(find_version(&events[1].versions, 1), None);
    assert_eq!(catalog.resolve("P", 1, 0).message, Some("new".to_string()));
}

#[test]
fn merge_takes_over_unknown_providers_whole() {
    let mut merged = known();
    update_metadata_with(&mut merged, &incoming());
    assert_eq!(merged.get("Gamma"), incoming().get("Gamma"));
    assert_eq!(merged.len(), 3);
}

#[test]
fn merge_takes_over_unknown_events_and_versions_whole() {
    let mut merged = known();
    update_metadata_with(&mut merged, &incoming());
    assert_eq!(merged.resolve("Alpha", 3, 0), incoming().resolve("Alpha", 3, 0));
    let mut other = catalog(vec![("Alpha", provider(None, vec![(1, 5, definition(Some("v5"), 7, vec![]))]))]);
    let before = other.resolve("Alpha", 1, 5);
    update_metadata_with(&mut other, &known());
    assert_eq!(other.resolve("Alpha", 1, 5), before);
    assert_eq!(other.resolve("Alpha", 1, 0), known().resolve("Alpha", 1, 0));
    assert_eq!(other.resolve("Alpha", 2, 0), known().resolve("Alpha", 2, 0));
}

#[test]
fn merge_prefers_the_newer_message() {
    let mut merged = known();
    update_metadata_with(&mut merged, &incoming());
    assert_eq!(merged.resolve("Alpha", 1, 1).message, Some("fresh".to_string()));
    assert_eq!(merged.resolve("Alpha", 1, 0).message, Some("one %1".to_string()));
}

#[test]
fn merge_overwrites_fields_by_position_and_keeps_the_shape() {
    let mut merged = known();
    update_metadata_with(&mut merged, &incoming());
    assert_eq!(
        merged.resolve("Alpha", 1, 0).fields,
        vec![field("A", "win:HexInt32"), field("b", "win:UInt32")]
    );
    assert_eq!(merged.resolve("Alpha", 1, 1).fields, vec![field("X", "t")]);
}

#[test]
fn merge_keeps_codes_and_names_of_known_definitions() {
    let mut merged = known();
    update_metadata_with(&mut merged, &incoming());
    let def = merged.resolve("Alpha", 1, 0);
    assert_eq!(def.level, 4);
    assert_eq!(def.level_name, Some("level4".to_string()));
    assert_eq!(def.keyword_names, vec!["k".to_string()]);
}

#[test]
fn merge_overrides_the_identifier_only_where_there_is_one() {
    let mut merged = known();
    update_metadata_with(&mut merged, &incoming());
    let alpha = merged.get("Alpha").unwrap();
    assert_eq!(alpha.guid, Some("{new}".to_string()));
    assert_eq!(alpha.resource_file_path, Some("res.dll".to_string()));
    assert_eq!(alpha.message, Some("about".to_string()));
    let mut other = known();
    update_metadata_with(&mut other, &catalog(vec![("Alpha", provider(None, vec![]))]));
    assert_eq!(other.get("Alpha").unwrap().guid, Some("{a}".to_string()));
}

#[test]
fn merge_leaves_untouched_providers_alone() {
    let mut merged = known();
    update_metadata_with(&mut merged, &incoming());
    assert_eq!(merged.get("Beta"), known().get("Beta"));
    assert_eq!(merged.resolve("Alpha", 2, 0), known().resolve("Alpha", 2, 0));
}

#[test]
fn merging_twice_is_merging_once() {
    let mut once = known();
    update_metadata_with(&mut once, &incoming());
    let mut twice = known();
    update_metadata_with(&mut twice, &incoming());
    update_metadata_with(&mut twice, &incoming());
    assert_eq!(once, twice);
}

#[test]
fn merging_nothing_changes_nothing() {
    let mut merged = known();
    update_metadata_with(&mut merged, &Metadata::new());
    assert_eq!(merged, known());
    let mut from_empty = Metadata::new();
    update_metadata_with(&mut from_empty, &known());
    assert_eq!(from_empty, known());
}

#[test]
fn merging_a_catalog_into_itself_changes_nothing() {
    let mut merged = known();
    update_metadata_with(&mut merged, &known());
    assert_eq!(merged, known());
}

#[test]
fn merge_uses_the_last_entry_of_a_repeated_key() {
    let mut repeated = Metadata::new();
    repeated.providers.push(ProviderEntry {
        name: "Alpha".to_string(),
        metadata: provider(Some("{shadowed}"), vec![(1, 0, definition(Some("shadowed"), 0, vec![]))]),
    });
    repeated.providers.push(ProviderEntry {
        name: "Alpha".to_string(),
        metadata: provider(None, vec![(2, 0, definition(Some("other two"), 0, vec![]))]),
    });
    let mut merged = known();
    update_metadata_with(&mut merged, &repeated);
    assert_eq!(merged.get("Alpha").unwrap().guid, Some("{a}".to_string()));
    assert_eq!(merged.resolve("Alpha", 1, 0), known().resolve("Alpha", 1, 0));
    assert_eq!(merged.resolve("Alpha", 2, 0).message, Some("other two".to_string()));
}

#[test]
fn definition_laid_over_another() {
    let mut def = definition(Some("old"), 4, vec![field("a", "1"), field("b", "2"), field("c", "3")]);
    merge_definition(&mut def, &definition(None, 9, vec![field("A", "x"), field("B", "y")]));
    assert_eq!(def.message, Some("old".to_string()));
    assert_eq!(def.level, 4);
    assert_eq!(def.fields, vec![field("A", "x"), field("B", "y"), field("c", "3")]);
    merge_definition(&mut def, &definition(Some("new"), 9, vec![]));
    assert_eq!(def.message, Some("new".to_string()));
    assert_eq!(def.fields.len(), 3);
}

#[test]
fn copies_are_equal_to_what_they_copy() {
    let catalog = known();
    let alpha = catalog.get("Alpha").unwrap();
    assert_eq!(&alpha.clone(), alpha);
    let def = catalog.resolve("Alpha", 1, 0);
    assert_eq!(def.clone(), def);
    assert_eq!(field("a", "b").clone(), field("a", "b"));
}
