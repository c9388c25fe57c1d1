use evtq::filtering::{
    check_filter, query_of_channel, xml_query_from_filters, ChannelQuery, CompileError,
};

fn names(list: &[&str]) -> Vec<String> {
    list.iter().map(|s| s.to_string()).collect()
}

fn query(queries: &Vec<ChannelQuery>, channel: &str) -> Option<Option<String>> {
    query_of_channel(queries, channel).cloned()
}

#[test]
fn live_filter_on_one_channel_touches_only_that_channel() {
    let all = names(&["Security", "System"]);
    let queries = xml_query_from_filters(&["Security/*/4624"], &[], Some(&all)).unwrap();
    assert_eq!(
        query(&queries, "Security"),
        Some(Some(
            "<QueryList><Query Id=\"0\" Path=\"Security\">\n  <Select Path=\"Security\">Event[System[EventID=4624]]</Select>\n</Query></QueryList>"
                .to_string()
        ))
    );
    assert_eq!(query(&queries, "System"), None);
    assert_eq!(queries.len(), 1);
}

#[test]
fn live_exclusion_selects_everything_but_one_event() {
    let all = names(&["Application"]);
    let queries = xml_query_from_filters(&["*"], &["Application/*/1026"], Some(&all)).unwrap();
    assert_eq!(
        query(&queries, "Application"),
        Some(Some(
            "<QueryList><Query Id=\"0\" Path=\"Application\">\n  <Select>Event</Select>\n  <Suppress Path=\"Application\">Event[System[EventID=1026]]</Suppress>\n</Query></QueryList>"
                .to_string()
        ))
    );
    assert_eq!(queries.len(), 1);
}

#[test]
fn live_wildcard_selects_every_channel_whole() {
    let all = names(&["Application", "Security", "System"]);
    let queries = xml_query_from_filters(&["*/*/*/*"], &[], Some(&all)).unwrap();
    assert_eq!(queries.len(), 3);
    for channel in ["Application", "Security", "System"] {
        assert_eq!(query(&queries, channel), Some(None));
    }
    let short = xml_query_from_filters(&["*"], &[], Some(&all)).unwrap();
    assert_eq!(short, queries);
}

#[test]
fn live_exclusion_of_a_whole_channel_removes_it() {
    let all = names(&["Application", "System"]);
    let queries = xml_query_from_filters(&["*"], &["System"], Some(&all)).unwrap();
    assert_eq!(query(&queries, "Application"), Some(None));
    assert_eq!(query(&queries, "System"), None);
    assert_eq!(queries.len(), 1);
}

#[test]
fn exclusion_of_a_whole_channel_removes_its_clauses() {
    let all = names(&["A"]);
    let queries = xml_query_from_filters(&["A/*/1", "A/*/2"], &["A"], Some(&all)).unwrap();
    assert_eq!(queries, Vec::new());
}

#[test]
fn exclusion_without_selection_selects_everything_first() {
    let all = names(&["A"]);
    let queries = xml_query_from_filters(&[], &["A/*/5"], Some(&all)).unwrap();
    assert_eq!(
        query(&queries, "A"),
        Some(Some(
            "<QueryList><Query Id=\"0\" Path=\"A\">\n  <Select>Event</Select>\n  <Suppress Path=\"A\">Event[System[EventID=5]]</Suppress>\n</Query></QueryList>"
                .to_string()
        ))
    );
}

#[test]
fn exclusion_after_selection_adds_no_select_all() {
    let all = names(&["A"]);
    let queries = xml_query_from_filters(&["A/P"], &["A/*/5", "A/*/6"], Some(&all)).unwrap();
    assert_eq!(
        query(&queries, "A"),
        Some(Some(
            "<QueryList><Query Id=\"0\" Path=\"A\">\n  <Select Path=\"A\">Event[System/Provider/@Name=\"P\"]</Select>\n  <Suppress Path=\"A\">Event[System[EventID=5]]</Suppress>\n  <Suppress Path=\"A\">Event[System[EventID=6]]</Suppress>\n</Query></QueryList>"
                .to_string()
        ))
    );
}

#[test]
fn all_four_parts_make_four_tests() {
    let all = names(&["A"]);
    let queries = xml_query_from_filters(&["A/B/1/2"], &[], Some(&all)).unwrap();
    assert_eq!(
        query(&queries, "A"),
        Some(Some(
            "<QueryList><Query Id=\"0\" Path=\"A\">\n  <Select Path=\"A\">Event[System/Provider/@Name=\"B\"][System[EventID=1]][System/Version=2]</Select>\n</Query></QueryList>"
                .to_string()
        ))
    );
    let archive = xml_query_from_filters(&["A/B/65535/255"], &[], None).unwrap();
    assert_eq!(
        query(&archive, "A"),
        Some(Some(
            "<QueryList><Query Id=\"0\">\n  <Select>Event[System/Channel/@Name=\"A\"][System/Provider/@Name=\"B\"][System[EventID=65535]][System/Version=255]</Select>\n</Query></QueryList>"
                .to_string()
        ))
    );
}

#[test]
fn archive_filter_restates_a_named_channel() {
    let queries = xml_query_from_filters(&["Security/*/4688"], &[], None).unwrap();
    assert_eq!(
        query(&queries, "Security"),
        Some(Some(
            "<QueryList><Query Id=\"0\">\n  <Select>Event[System/Channel/@Name=\"Security\"][System[EventID=4688]]</Select>\n</Query></QueryList>"
                .to_string()
        ))
    );
    assert_eq!(query(&queries, "*"), None);
}

#[test]
fn archive_filter_on_a_whole_named_channel_still_has_a_condition() {
    let queries = xml_query_from_filters(&["System"], &[], None).unwrap();
    assert_eq!(
        query(&queries, "System"),
        Some(Some(
            "<QueryList><Query Id=\"0\">\n  <Select>Event[System/Channel/@Name=\"System\"]</Select>\n</Query></QueryList>"
                .to_string()
        ))
    );
}

#[test]
fn archive_wildcard_goes_under_the_any_channel() {
    let whole = xml_query_from_filters(&["*"], &[], None).unwrap();
    assert_eq!(query(&whole, "*"), Some(None));
    assert_eq!(whole.len(), 1);
    let queries = xml_query_from_filters(&["*/*/4624", "*/*/4688"], &["*/Noisy"], None).unwrap();
    assert_eq!(
        query(&queries, "*"),
        Some(Some(
            "<QueryList><Query Id=\"0\">\n  <Select>Event[System[EventID=4624]]</Select>\n  <Select>Event[System[EventID=4688]]</Select>\n  <Suppress>Event[System/Provider/@Name=\"Noisy\"]</Suppress>\n</Query></QueryList>"
                .to_string()
        ))
    );
}

#[test]
fn quote_in_a_provider_name_is_escaped() {
    let queries = xml_query_from_filters(&["*/O'Bri'en"], &[], None).unwrap();
    assert_eq!(
        query(&queries, "*"),
        Some(Some(
            "<QueryList><Query Id=\"0\">\n  <Select>Event[System/Provider/@Name=\"O\\'Bri\\'en\"]</Select>\n</Query></QueryList>"
                .to_string()
        ))
    );
}

#[test]
fn selection_after_a_whole_selection_adds_a_clause() {
    let all = names(&["A", "B"]);
    let queries = xml_query_from_filters(&["*", "A/*/7"], &[], Some(&all)).unwrap();
    assert_eq!(
        query(&queries, "A"),
        Some(Some(
            "<QueryList><Query Id=\"0\" Path=\"A\">\n  <Select Path=\"A\">Event[System[EventID=7]]</Select>\n</Query></QueryList>"
                .to_string()
        ))
    );
    assert_eq!(query(&queries, "B"), Some(None));
}

#[test]
fn live_filter_may_name_an_unlisted_channel() {
    let all = names(&["A"]);
    let queries = xml_query_from_filters(&["Other"], &[], Some(&all)).unwrap();
    assert_eq!(query(&queries, "Other"), Some(None));
    assert_eq!(query(&queries, "A"), None);
}

#[test]
fn no_filter_gives_no_query() {
    assert_eq!(xml_query_from_filters(&[], &[], None), Ok(Vec::new()));
    assert_eq!(xml_query_from_filters(&[], &[], Some(&names(&["A"]))), Ok(Vec::new()));
    assert_eq!(xml_query_from_filters(&["*"], &[], Some(&Vec::new())), Ok(Vec::new()));
}

#[test]
fn too_many_parts_are_refused() {
    assert_eq!(
        xml_query_from_filters(&["a/b/1/2/3"], &[], None),
        Err(CompileError::TooManySeparators("a/b/1/2/3".to_string()))
    );
    assert_eq!(
        xml_query_from_filters(&["*"], &["////"], None),
        Err(CompileError::TooManySeparators("////".to_string()))
    );
}

#[test]
fn wildcard_inside_a_part_is_refused() {
    for filter in ["Sec*", "*/Micro*", "*/*/46*", "*/*/*/1*", "**", "A/*B*/1/2"] {
        assert_eq!(
            xml_query_from_filters(&[filter], &[], None),
            Err(CompileError::EmbeddedWildcard(filter.to_string()))
        );
    }
}

#[test]
fn event_identifier_must_be_a_number_of_sixteen_bits() {
    for filter in ["*/*/abc", "*/*/65536", "*/*/-1", "*/*/", "*/*/1.5"] {
        assert_eq!(
            xml_query_from_filters(&[filter], &[], None),
            Err(CompileError::InvalidEventId(filter.to_string()))
        );
    }
    assert!(xml_query_from_filters(&["*/*/65535"], &[], None).is_ok());
    assert!(xml_query_from_filters(&["*/*/0"], &[], None).is_ok());
}

#[test]
fn version_must_be_a_number_of_eight_bits() {
    for filter in ["*/*/*/x", "*/*/*/256", "*/*/1/", "*/*/*/-0"] {
        assert_eq!(
            xml_query_from_filters(&[filter], &[], None),
            Err(CompileError::InvalidVersion(filter.to_string()))
        );
    }
    assert!(xml_query_from_filters(&["*/*/*/255"], &[], None).is_ok());
}

#[test]
fn unreadable_number_is_refused_even_without_channels() {
    assert_eq!(
        xml_query_from_filters(&["*/*/abc"], &[], Some(&Vec::new())),
        Err(CompileError::InvalidEventId("*/*/abc".to_string()))
    );
}

#[test]
fn first_faulty_filter_decides_the_error() {
    assert_eq!(
        xml_query_from_filters(&["A", "B*", "a/b/c/d/e"], &["*/*/x"], None),
        Err(CompileError::EmbeddedWildcard("B*".to_string()))
    );
    assert_eq!(
        xml_query_from_filters(&["A"], &["*/*/x", "B*"], None),
        Err(CompileError::InvalidEventId("*/*/x".to_string()))
    );
    assert_eq!(
        xml_query_from_filters(&["a/b*/x/y/z"], &[], None),
        Err(CompileError::TooManySeparators("a/b*/x/y/z".to_string()))
    );
    assert_eq!(
        xml_query_from_filters(&["a/b*/x/y"], &[], None),
        Err(CompileError::EmbeddedWildcard("a/b*/x/y".to_string()))
    );
    assert_eq!(
        xml_query_from_filters(&["a/b/x/y"], &[], None),
        Err(CompileError::InvalidEventId("a/b/x/y".to_string()))
    );
}

#[test]
fn checked_filter_fills_missing_parts_with_wildcards() {
    let filter = check_filter("Security/Auditing").unwrap();
    assert_eq!(filter.channel.iter().collect::<String>(), "Security");
    assert_eq!(filter.provider.iter().collect::<String>(), "Auditing");
    assert_eq!(filter.eventid, None);
    assert_eq!(filter.version, None);
    let full = check_filter("*/*/+12/007").unwrap();
    assert_eq!(full.channel.iter().collect::<String>(), "*");
    assert_eq!(full.eventid, Some(12));
    assert_eq!(full.version, Some(7));
}
