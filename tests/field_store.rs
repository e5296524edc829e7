use fix_engine::fix_file_reader::FixMessageFileReader;
use fix_engine::fix_message::FixMessage;
use std::collections::HashMap;

#[test]
fn test_parse() {
    let message = "8=FIX.4.2|9=12|35=A|49=CLIENT|56=SERVER|10=123|";
    let fix_message = FixMessage::parse(message);

    assert_eq!(fix_message.get("8"), Some(&"FIX.4.2".to_string()));
    assert_eq!(fix_message.get("9"), Some(&"12".to_string()));
    assert_eq!(fix_message.get("35"), Some(&"A".to_string()));
    assert_eq!(fix_message.get("49"), Some(&"CLIENT".to_string()));
    assert_eq!(fix_message.get("56"), Some(&"SERVER".to_string()));
    assert_eq!(fix_message.get("10"), Some(&"123".to_string()));
}

#[test]
fn test_get() {
    let message = "8=FIX.4.2|9=12|35=A|49=CLIENT|56=SERVER|10=123|";
    let fix_message = FixMessage::parse(message);

    assert_eq!(fix_message.get("8"), Some(&"FIX.4.2".to_string()));
    assert_eq!(fix_message.get("9"), Some(&"12".to_string()));
    assert_eq!(fix_message.get("35"), Some(&"A".to_string()));
    assert_eq!(fix_message.get("49"), Some(&"CLIENT".to_string()));
    assert_eq!(fix_message.get("56"), Some(&"SERVER".to_string()));
    assert_eq!(fix_message.get("10"), Some(&"123".to_string()));
    assert_eq!(fix_message.get("999"), None);
}

#[test]
fn test_parse_empty_message() {
    let message = "";
    let fix_message = FixMessage::parse(message);

    assert!(fix_message.is_empty());
}

#[test]
fn test_parse_no_delimiters() {
    let message = "8=FIX.4.2";
    let fix_message = FixMessage::parse(message);

    assert_eq!(fix_message.get("8"), Some(&"FIX.4.2".to_string()));
    assert_eq!(fix_message.len(), 1);
}

#[test]
fn test_parse_multiple_delimiters() {
    let message = "8=FIX.4.2|||9=12||35=A|";
    let fix_message = FixMessage::parse(message);

    assert_eq!(fix_message.get("8"), Some(&"FIX.4.2".to_string()));
    assert_eq!(fix_message.get("9"), Some(&"12".to_string()));
    assert_eq!(fix_message.get("35"), Some(&"A".to_string()));
    assert_eq!(fix_message.len(), 3);
}

#[test]
fn test_parse_empty_fields() {
    let message = "8=|9=|35=|";
    let fix_message = FixMessage::parse(message);

    assert_eq!(fix_message.get("8"), Some(&"".to_string()));
    assert_eq!(fix_message.get("9"), Some(&"".to_string()));
    assert_eq!(fix_message.get("35"), Some(&"".to_string()));
    assert_eq!(fix_message.len(), 3);
}

#[test]
fn test_get_non_existent_tag() {
    let message = "8=FIX.4.2|9=12|35=A|49=CLIENT|56=SERVER|10=123|";
    let fix_message = FixMessage::parse(message);

    assert_eq!(fix_message.get("999"), None);
}

#[test]
fn test_into_iterator() {
    let message = "8=FIX.4.2|9=12|35=A|49=CLIENT|56=SERVER|10=123|";
    let fix_message = FixMessage::parse(message);
    let iter = fix_message.into_iter();
    let mut result = HashMap::new();

    for (key, value) in iter {
        result.insert(key, value);
    }

    let expected: HashMap<String, String> = [
        ("8".to_string(), "FIX.4.2".to_string()),
        ("9".to_string(), "12".to_string()),
        ("35".to_string(), "A".to_string()),
        ("49".to_string(), "CLIENT".to_string()),
        ("56".to_string(), "SERVER".to_string()),
        ("10".to_string(), "123".to_string()),
    ]
    .iter()
    .cloned()
    .collect();

    assert_eq!(result, expected);
}

#[test]
fn test_into_iterator_empty_message() {
    let message = "";
    let fix_message = FixMessage::parse(message);
    let iter = fix_message.into_iter();
    let mut result = HashMap::new();

    for (key, value) in iter {
        result.insert(key, value);
    }

    let expected: HashMap<String, String> = HashMap::new();

    assert_eq!(result, expected);
}

#[test]
fn test_into_iterator_single_field() {
    let message = "8=FIX.4.2|";
    let fix_message = FixMessage::parse(message);
    let iter = fix_message.into_iter();
    let mut result = HashMap::new();

    for (key, value) in iter {
        result.insert(key, value);
    }

    let expected: HashMap<String, String> = [("8".to_string(), "FIX.4.2".to_string())]
        .iter()
        .cloned()
        .collect();

    assert_eq!(result, expected);
}

#[test]
fn later_duplicate_tag_wins() {
    let fix_message = FixMessage::parse("8=a|9=x|8=b|8=c|9=y");
    assert_eq!(fix_message.get("8"), Some(&"c".to_string()));
    assert_eq!(fix_message.get("9"), Some(&"y".to_string()));
    assert_eq!(fix_message.len(), 2);
}

#[test]
fn segment_without_assignment_is_dropped() {
    let fix_message = FixMessage::parse("abc|8=a|noassign|9=b");
    assert_eq!(fix_message.len(), 2);
    assert_eq!(fix_message.get("abc"), None);
    assert_eq!(fix_message.get("noassign"), None);
}

#[test]
fn value_keeps_later_assignment_characters() {
    let fix_message = FixMessage::parse("58=a=b=c|=x");
    assert_eq!(fix_message.get("58"), Some(&"a=b=c".to_string()));
    assert_eq!(fix_message.get(""), Some(&"x".to_string()));
    assert_eq!(fix_message.len(), 2);
}

#[test]
fn insert_overwrites_existing_tag() {
    let mut fields = FixMessage::new();
    fields.insert("11".to_string(), "a".to_string());
    fields.insert("38".to_string(), "5".to_string());
    fields.insert("11".to_string(), "b".to_string());
    assert_eq!(fields.len(), 2);
    assert_eq!(fields.get("11"), Some(&"b".to_string()));
}

#[test]
fn test_read_from_file() {
    let content = "8=FIX.4.2|9=12|35=A|49=CLIENT|56=SERVER|10=123|\n8=FIX.4.2|9=13|35=B|49=CLIENT|56=SERVER|10=124|";
    let messages = FixMessageFileReader::parse_lines(content);

    assert_eq!(messages.len(), 2);

    let expected_fields_1 = [
        ("8", "FIX.4.2"),
        ("9", "12"),
        ("35", "A"),
        ("49", "CLIENT"),
        ("56", "SERVER"),
        ("10", "123"),
    ];
    let expected_fields_2 = [
        ("8", "FIX.4.2"),
        ("9", "13"),
        ("35", "B"),
        ("49", "CLIENT"),
        ("56", "SERVER"),
        ("10", "124"),
    ];

    for (key, value) in &expected_fields_1 {
        assert_eq!(messages[0].get(key), Some(&value.to_string()));
    }

    for (key, value) in &expected_fields_2 {
        assert_eq!(messages[1].get(key), Some(&value.to_string()));
    }
}

#[test]
fn test_read_from_empty_file() {
    let messages = FixMessageFileReader::parse_lines("");
    assert!(messages.is_empty());
}

#[test]
fn lines_drop_carriage_returns_and_final_line_feed() {
    let messages = FixMessageFileReader::parse_lines("8=a\r\n\n9=b\n");
    assert_eq!(messages.len(), 3);
    assert_eq!(messages[0].get("8"), Some(&"a".to_string()));
    assert!(messages[1].is_empty());
    assert_eq!(messages[2].get("9"), Some(&"b".to_string()));
}

#[test]
fn final_bare_carriage_return_is_kept() {
    let messages = FixMessageFileReader::parse_lines("8=a\r\n9=b\r");
    assert_eq!(messages.len(), 2);
    assert_eq!(messages[0].get("8"), Some(&"a".to_string()));
    assert_eq!(messages[1].get("9"), Some(&"b\r".to_string()));
}

#[test]
fn parse_with_other_separators() {
    let fix_message = FixMessage::parse_with("8:FIX.4.2\u{1}35:D\u{1}x=y\u{1}", '\u{1}', ':');
    assert_eq!(fix_message.get("8"), Some(&"FIX.4.2".to_string()));
    assert_eq!(fix_message.get("35"), Some(&"D".to_string()));
    assert_eq!(fix_message.get("x=y"), None);
    assert_eq!(fix_message.len(), 2);
}
