use evtq::log::{get_log_level, set_log_level, LogConfig, LOG_LEVEL_DEBUG};
use evtq::rendering::{keeps_waiting, RenderError};
use evtq::text::{
    from_chars, number_chars, read_unsigned, replace_all, same_text, split_on, to_chars,
};
use evtq::xml::render_event_xml;

fn chars(s: &str) -> Vec<char> {
    s.chars().collect()
}

fn string(v: Vec<char>) -> String {
    v.into_iter().collect()
}

#[test]
fn log_level_is_held_by_the_configuration() {
    let mut config = LogConfig::new();
    assert_eq!(get_log_level(&config), 0);
    assert!(!config.enabled(LOG_LEVEL_DEBUG));
    assert!(config.enabled(0));
    set_log_level(&mut config, 2);
    assert_eq!(get_log_level(&config), 2);
    assert!(config.enabled(LOG_LEVEL_DEBUG));
    assert!(config.enabled(1));
    assert!(!config.enabled(3));
    set_log_level(&mut config, 255);
    assert_eq!(get_log_level(&config), 255);
}

#[test]
fn raw_rendering_becomes_a_line() {
    let units: Vec<u16> = "<Event>\u{e9}\u{1F600}</Event>".encode_utf16().collect();
    assert_eq!(render_event_xml(&units), Ok("<Event>\u{e9}\u{1F600}</Event>\n".to_string()));
    assert_eq!(render_event_xml(&Vec::new()), Ok("\n".to_string()));
}

#[test]
fn raw_rendering_that_is_no_text_is_refused() {
    assert_eq!(render_event_xml(&vec![0x3C, 0xD800, 0x3E]), Err(RenderError::Encoding));
    assert_eq!(render_event_xml(&vec![0xDFFF]), Err(RenderError::Encoding));
}

#[test]
fn strings_and_characters_convert_both_ways() {
    for s in ["", "abc", "h\u{e9}llo \u{1F600} \u{0}!"] {
        assert_eq!(to_chars(s), chars(s));
        assert_eq!(from_chars(&chars(s)), s);
    }
    assert!(same_text("a\u{e9}", "a\u{e9}"));
    assert!(!same_text("a", "b"));
    assert!(!same_text("a", "ab"));
    assert!(same_text("", ""));
}

#[test]
fn numbers_are_written_in_both_bases() {
    assert_eq!(string(number_chars(0, false, false, 0)), "0");
    assert_eq!(string(number_chars(0, true, true, 4)), "0000");
    assert_eq!(string(number_chars(1234567890, false, false, 0)), "1234567890");
    assert_eq!(string(number_chars(7, false, false, 3)), "007");
    assert_eq!(string(number_chars(12345, false, false, 3)), "12345");
    assert_eq!(string(number_chars(0xBEEF, true, false, 0)), "beef");
    assert_eq!(string(number_chars(0xBEEF, true, true, 8)), "0000BEEF");
    assert_eq!(string(number_chars(u64::MAX, true, true, 0)), "FFFFFFFFFFFFFFFF");
    assert_eq!(string(number_chars(u64::MAX, false, false, 0)), "18446744073709551615");
    assert_eq!(string(number_chars(16, true, false, 0)), "10");
    assert_eq!(string(number_chars(10, false, true, 0)), "10");
}

#[test]
fn numbers_are_read_in_both_bases() {
    assert_eq!(read_unsigned(&chars("0"), false, 0), Some(0));
    assert_eq!(read_unsigned(&chars("255"), false, 255), Some(255));
    assert_eq!(read_unsigned(&chars("256"), false, 255), None);
    assert_eq!(read_unsigned(&chars("18446744073709551615"), false, u64::MAX), Some(u64::MAX));
    assert_eq!(read_unsigned(&chars("18446744073709551616"), false, u64::MAX), None);
    assert_eq!(read_unsigned(&chars("99999999999999999999999"), false, u64::MAX), None);
    assert_eq!(read_unsigned(&chars("+42"), false, 100), Some(42));
    assert_eq!(read_unsigned(&chars("++42"), false, 100), None);
    assert_eq!(read_unsigned(&chars("4+2"), false, 100), None);
    assert_eq!(read_unsigned(&chars(""), false, 100), None);
    assert_eq!(read_unsigned(&chars("+"), false, 100), None);
    assert_eq!(read_unsigned(&chars("1a"), false, 100), None);
    assert_eq!(read_unsigned(&chars("1a"), true, 100), Some(26));
    assert_eq!(read_unsigned(&chars("Ff"), true, 255), Some(255));
    assert_eq!(read_unsigned(&chars("9"), false, 5), None);
    assert_eq!(read_unsigned(&chars("\u{663}"), false, 100), None);
}

#[test]
fn replacement_scans_from_the_left() {
    let replace = |s: &str, p: &str, w: &str| string(replace_all(&chars(s), &chars(p), &chars(w)));
    assert_eq!(replace("aaa", "aa", "b"), "ba");
    assert_eq!(replace("abcabc", "bc", ""), "aa");
    assert_eq!(replace("abc", "x", "y"), "abc");
    assert_eq!(replace("", "x", "y"), "");
    assert_eq!(replace("xx", "x", "xx"), "xxxx");
    assert_eq!(replace("a", "abc", "y"), "a");
    assert_eq!(replace("abc", "abc", ""), "");
    assert_eq!(replace("a.b.c", ".", ", "), "a, b, c");
}

#[test]
fn split_keeps_empty_pieces() {
    let split = |s: &str| -> Vec<String> { split_on(&chars(s), ',').into_iter().map(string).collect() };
    assert_eq!(split(""), vec![""]);
    assert_eq!(split("a"), vec!["a"]);
    assert_eq!(split("a,b"), vec!["a", "b"]);
    assert_eq!(split(",a,,b,"), vec!["", "a", "", "b", ""]);
    assert_eq!(split(","), vec!["", ""]);
}

#[test]
fn decoded_text_becomes_a_line() {
    assert_eq!(evtq::xml::line_or_encoding_error(Some("<e/>".to_string())), Ok("<e/>\n".to_string()));
    assert_eq!(evtq::xml::line_or_encoding_error(None), Err(RenderError::Encoding));
}

#[test]
fn decoded_text_becomes_a_value() {
    assert_eq!(
        evtq::formatting::text_or_encoding_error(Some("t".to_string())),
        Ok(evtq::formatting::EvtVariant::String("t".to_string()))
    );
    assert_eq!(
        evtq::formatting::text_or_encoding_error(None),
        Err(evtq::formatting::DecodeError::EncodingError)
    );
}

#[test]
fn number_that_was_not_parsed_is_null() {
    assert_eq!(evtq::json::number_or_null(None), serde_json::Value::Null);
    assert_eq!(
        evtq::json::number_or_null(Some(serde_json::Value::from(3u64))),
        serde_json::Value::from(3u64)
    );
}

#[test]
fn wait_goes_on_while_events_come_or_the_caller_waits() {
    assert!(keeps_waiting(1, 5, 6, false));
    assert!(keeps_waiting(1, 5, 5, true));
    assert!(keeps_waiting(3, 0, 0, true));
    assert!(!keeps_waiting(1, 5, 5, false));
    assert!(!keeps_waiting(0, 5, 6, true));
    assert!(!keeps_waiting(0, 5, 5, false));
}
