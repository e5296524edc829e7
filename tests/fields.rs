use fix_engine::field_value::{check_decimal, Decimal};
use fix_engine::fix::fix_message::{parse_field, parse_field_optional, FieldError};
use fix_engine::fix_message::FixMessage;

#[test]
fn test_parse_field_success() {
    let mut fields = FixMessage::new();
    fields.insert("11".to_string(), "12345".to_string());

    let result: Result<String, FieldError> = parse_field(&fields, "11");
    assert_eq!(result.unwrap(), "12345");
}

#[test]
fn test_parse_field_missing_tag() {
    let fields = FixMessage::new();

    let result: Result<String, FieldError> = parse_field(&fields, "11");
    assert!(result.is_err());
    assert_eq!(result.unwrap_err().message(), "Missing Tag 11");
}

#[test]
fn test_parse_field_invalid_tag() {
    let mut fields = FixMessage::new();
    fields.insert("11".to_string(), "abc".to_string());

    let result: Result<Decimal, FieldError> = parse_field(&fields, "11");
    assert!(result.is_err());
    assert_eq!(result.unwrap_err().message(), "Invalid Tag 11");
}

#[test]
fn test_parse_field_optional_success() {
    let mut fields = FixMessage::new();
    fields.insert("11".to_string(), "12345".to_string());

    let result: Result<Option<String>, FieldError> = parse_field_optional(&fields, "11");
    assert_eq!(result.unwrap(), Some("12345".to_string()));
}

#[test]
fn test_parse_field_optional_missing_tag() {
    let fields = FixMessage::new();

    let result: Result<Option<String>, FieldError> = parse_field_optional(&fields, "11");
    assert!(result.is_ok());
    assert_eq!(result.unwrap(), None);
}

#[test]
fn test_parse_field_optional_invalid_tag() {
    let mut fields = FixMessage::new();
    fields.insert("11".to_string(), "abc".to_string());

    let result: Result<Option<Decimal>, FieldError> = parse_field_optional(&fields, "11");
    assert!(result.is_err());
    assert_eq!(result.unwrap_err().message(), "Invalid Tag 11");
}

#[test]
fn char_field_needs_exactly_one_character() {
    let mut fields = FixMessage::new();
    fields.insert("54".to_string(), "12".to_string());
    fields.insert("40".to_string(), "".to_string());
    fields.insert("59".to_string(), "0".to_string());

    let two: Result<char, FieldError> = parse_field(&fields, "54");
    assert_eq!(two.unwrap_err(), FieldError::InvalidFieldFormat("54".to_string()));
    let none: Result<char, FieldError> = parse_field(&fields, "40");
    assert_eq!(none.unwrap_err(), FieldError::InvalidFieldFormat("40".to_string()));
    let one: Result<char, FieldError> = parse_field(&fields, "59");
    assert_eq!(one.unwrap(), '0');
}

#[test]
fn missing_field_names_its_tag() {
    let fields = FixMessage::new();
    let result: Result<char, FieldError> = parse_field(&fields, "54");
    assert_eq!(result.unwrap_err(), FieldError::MissingField("54".to_string()));
}

#[test]
fn wrong_type_message_text() {
    assert_eq!(FieldError::WrongMessageType.message(), "Invalid message type");
}

#[test]
fn decimal_notation() {
    for good in [
        "100", "50.5", "-0.5", "+3", ".5", "3.", "1e5", "1E-3", "2.5e+10", "007", "inf", "-Infinity",
        "NaN", "+nan", "INF", "iNfInItY",
    ] {
        assert!(check_decimal(good), "{}", good);
    }
    for bad in ["", "-", "+", ".", "abc", "1.2.3", "1e", "e5", "1e+", "1 ", "--1", "1e5.0", "0x10", "infinit", "nanx", "in f", "--inf", "inf1"] {
        assert!(!check_decimal(bad), "{}", bad);
    }
}

#[test]
fn decimal_keeps_its_text() {
    let mut fields = FixMessage::new();
    fields.insert("44".to_string(), "-12.50".to_string());
    let price: Result<Decimal, FieldError> = parse_field(&fields, "44");
    let price = price.unwrap();
    assert_eq!(price.as_str(), "-12.50");
    assert_eq!(price.as_str().parse::<f64>().unwrap(), -12.5);
}

#[test]
fn special_float_words_agree_with_f64_parsing() {
    for word in ["inf", "-Infinity", "NaN", "+nan", "INF", "infinit", "nanx", "1e5", "1.2.3"] {
        assert_eq!(check_decimal(word), word.parse::<f64>().is_ok(), "{}", word);
    }
}
