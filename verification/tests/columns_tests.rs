use evtq::output_cols::{parse_column_names, ColumnError, OutputColumn};

#[test]
fn every_name_has_its_column() {
    assert_eq!(
        parse_column_names(
            "hostname,recordid,timestamp,provider,eventid,version,level,level_name,task,task_name,opcode,opcode_name,keywords,keyword_names,unformatted_message,formatted_message"
        ),
        Ok(vec![
            OutputColumn::Hostname,
            OutputColumn::RecordID,
            OutputColumn::Timestamp,
            OutputColumn::Provider,
            OutputColumn::EventID,
            OutputColumn::Version,
            OutputColumn::Level,
            OutputColumn::LevelName,
            OutputColumn::Task,
            OutputColumn::TaskName,
            OutputColumn::Opcode,
            OutputColumn::OpcodeName,
            OutputColumn::Keywords,
            OutputColumn::KeywordNames,
            OutputColumn::UnformattedMessage,
            OutputColumn::FormattedMessage,
        ])
    );
}

#[test]
fn default_column_list_expands_to_fifteen_fields() {
    let columns = parse_column_names(
        "hostname,recordid,timestamp,provider,eventid,version,level_name,task_name,keyword_names,formatted_message,variant1,...,variant15",
    )
    .unwrap();
    assert_eq!(columns.len(), 25);
    assert_eq!(columns[9], OutputColumn::FormattedMessage);
    for n in 1..=15u32 {
        assert_eq!(columns[9 + n as usize], OutputColumn::EventSpecific(n));
    }
}

#[test]
fn ellipsis_fills_the_fields_in_between() {
    assert_eq!(
        parse_column_names("variant2,...,variant6"),
        Ok(vec![
            OutputColumn::EventSpecific(2),
            OutputColumn::EventSpecific(3),
            OutputColumn::EventSpecific(4),
            OutputColumn::EventSpecific(5),
            OutputColumn::EventSpecific(6),
        ])
    );
}

#[test]
fn ellipsis_between_neighbours_fills_nothing() {
    assert_eq!(
        parse_column_names("variant3,...,variant4"),
        Ok(vec![OutputColumn::EventSpecific(3), OutputColumn::EventSpecific(4)])
    );
    assert_eq!(
        parse_column_names("variant5,...,variant3"),
        Ok(vec![OutputColumn::EventSpecific(5), OutputColumn::EventSpecific(3)])
    );
    assert_eq!(
        parse_column_names("variant2,...,variant2"),
        Ok(vec![OutputColumn::EventSpecific(2), OutputColumn::EventSpecific(2)])
    );
    assert_eq!(
        parse_column_names("variant4294967295,...,variant0"),
        Ok(vec![OutputColumn::EventSpecific(4294967295), OutputColumn::EventSpecific(0)])
    );
}

#[test]
fn repeated_ellipsis_counts_once() {
    assert_eq!(
        parse_column_names("variant1,...,...,variant3"),
        Ok(vec![
            OutputColumn::EventSpecific(1),
            OutputColumn::EventSpecific(2),
            OutputColumn::EventSpecific(3),
        ])
    );
}

#[test]
fn ellipsis_before_a_named_column_is_dropped() {
    assert_eq!(
        parse_column_names("variant1,...,hostname,variant4"),
        Ok(vec![
            OutputColumn::EventSpecific(1),
            OutputColumn::Hostname,
            OutputColumn::EventSpecific(4),
        ])
    );
}

#[test]
fn ellipsis_needs_a_field_before_it() {
    assert_eq!(parse_column_names("...,variant3"), Err(ColumnError::EllipsisWithoutStart));
    assert_eq!(parse_column_names("hostname,...,variant3"), Err(ColumnError::EllipsisWithoutStart));
}

#[test]
fn ellipsis_needs_a_name_after_it() {
    assert_eq!(parse_column_names("variant1,..."), Err(ColumnError::EllipsisWithoutEnd));
    assert_eq!(parse_column_names("..."), Err(ColumnError::EllipsisWithoutEnd));
}

#[test]
fn unknown_name_is_refused() {
    assert_eq!(
        parse_column_names("hostname,bogus,provider"),
        Err(ColumnError::UnexpectedName("bogus".to_string()))
    );
    assert_eq!(parse_column_names(""), Err(ColumnError::UnexpectedName(String::new())));
    assert_eq!(parse_column_names("hostname,"), Err(ColumnError::UnexpectedName(String::new())));
    assert_eq!(
        parse_column_names("Hostname"),
        Err(ColumnError::UnexpectedName("Hostname".to_string()))
    );
    assert_eq!(
        parse_column_names(" hostname"),
        Err(ColumnError::UnexpectedName(" hostname".to_string()))
    );
    assert_eq!(
        parse_column_names("xvariant1"),
        Err(ColumnError::UnexpectedName("xvariant1".to_string()))
    );
}

#[test]
fn field_number_must_be_a_number() {
    assert_eq!(
        parse_column_names("variantx"),
        Err(ColumnError::InvalidFieldNumber("x".to_string()))
    );
    assert_eq!(parse_column_names("variant"), Err(ColumnError::InvalidFieldNumber(String::new())));
    assert_eq!(
        parse_column_names("variant-1"),
        Err(ColumnError::InvalidFieldNumber("-1".to_string()))
    );
    assert_eq!(
        parse_column_names("variant4294967296"),
        Err(ColumnError::InvalidFieldNumber("4294967296".to_string()))
    );
    assert_eq!(
        parse_column_names("variant1 "),
        Err(ColumnError::InvalidFieldNumber("1 ".to_string()))
    );
}

#[test]
fn field_number_is_read_like_any_number() {
    assert_eq!(parse_column_names("variant+7"), Ok(vec![OutputColumn::EventSpecific(7)]));
    assert_eq!(parse_column_names("variant007"), Ok(vec![OutputColumn::EventSpecific(7)]));
    assert_eq!(parse_column_names("variant0"), Ok(vec![OutputColumn::EventSpecific(0)]));
    assert_eq!(
        parse_column_names("variant1variant2"),
        Ok(vec![OutputColumn::EventSpecific(12)])
    );
}

#[test]
fn first_fault_decides_the_error() {
    assert_eq!(
        parse_column_names("...,variantx,bogus"),
        Err(ColumnError::InvalidFieldNumber("x".to_string()))
    );
    assert_eq!(
        parse_column_names("bogus,...,variant1"),
        Err(ColumnError::UnexpectedName("bogus".to_string()))
    );
}
