use satellite_bridge::common::StringOrStr;
use satellite_bridge::keyvalue::{quote, ParseError, ParseMap};

fn sorted_keys(map: &ParseMap) -> Vec<String> {
    let mut keys = map.keys().into_iter().map(|s| s.to_owned()).collect::<Vec<_>>();
    keys.sort();
    keys
}

#[test]
fn test_keyvalue_parser() {
    const DATA: &str = "DEVICEID=JohnAughey KEY=14 TYPE=BUTTON  BITMAP=rawdata PRESSED={true,false}";
    let key_values = ParseMap::try_from(DATA).unwrap();
    assert_eq!(sorted_keys(&key_values), vec!["BITMAP", "DEVICEID", "KEY", "PRESSED", "TYPE",]);
}

#[test]
fn keyvalue_test_keyvalue_parser() {
    const DATA: &str = "DEVICEID=JohnAughey KEY=14 TYPE=BUTTON  BITMAP=rawdata PRESSED={true,false}";
    let key_values = ParseMap::try_from(DATA).unwrap();
    let mut keys = key_values.keys().into_iter().map(|s| s.to_owned()).collect::<Vec<_>>();
    keys.sort();
    assert_eq!(keys, vec!["BITMAP", "DEVICEID", "KEY", "PRESSED", "TYPE",]);
}

#[test]
fn test_keyvalue_quoted_value() {
    const DATA: &str = "key=\"value\"";
    let mut key_values = ParseMap::try_from(DATA).unwrap();
    assert_eq!(key_values.len(), 1);
    assert_eq!(key_values.get("key").unwrap(), "value".into());
}

#[test]
fn keyvalue_test_keyvalue_quoted_value() {
    const DATA: &str = "key=\"value\"";
    let mut key_values = ParseMap::try_from(DATA).unwrap();
    assert_eq!(key_values.len(), 1);
    assert_eq!(key_values.get("key").unwrap(), "value".into());
}

#[test]
fn test_keyvalue_parser_empty() {
    const DATA: &str = "  ";
    let key_values = ParseMap::try_from(DATA).unwrap();
    assert_eq!(key_values.len(), 0);
}

#[test]
fn keyvalue_test_keyvalue_parser_empty() {
    const DATA: &str = "  ";
    let key_values = ParseMap::try_from(DATA).unwrap();
    assert_eq!(key_values.len(), 0);
}

#[test]
fn test_keyvalue_parser_leading_space() {
    const DATA: &str = "  key=value";
    let mut key_values = ParseMap::try_from(DATA).unwrap();
    assert_eq!(key_values.len(), 1);
    assert_eq!(key_values.get("key").unwrap(), "value".into());
}

#[test]
fn keyvalue_test_keyvalue_parser_leading_space() {
    const DATA: &str = "  key=value";
    let mut key_values = ParseMap::try_from(DATA).unwrap();
    assert_eq!(key_values.len(), 1);
    assert_eq!(key_values.get("key").unwrap(), "value".into());
}

#[test]
fn test_keyvalue_parser_trailing_space() {
    const DATA: &str = "key=value  ";
    let mut key_values = ParseMap::try_from(DATA).unwrap();
    assert_eq!(key_values.len(), 1);
    assert_eq!(key_values.get("key").unwrap(), "value".into());
}

#[test]
fn keyvalue_test_keyvalue_parser_trailing_space() {
    const DATA: &str = "key=value  ";
    let mut key_values = ParseMap::try_from(DATA).unwrap();
    assert_eq!(key_values.len(), 1);
    assert_eq!(key_values.get("key").unwrap(), "value".into());
}

#[test]
fn test_keyvalue_parser_multi_inbetween() {
    const DATA: &str = " key=value  foo=bar ";
    let mut key_values = ParseMap::try_from(DATA).unwrap();
    assert_eq!(key_values.len(), 2);
    assert_eq!(key_values.get("key").unwrap(), "value".into());
    assert_eq!(key_values.get("foo").unwrap(), "bar".into());
}

#[test]
fn keyvalue_test_keyvalue_parser_multi_inbetween() {
    const DATA: &str = " key=value  foo=bar ";
    let mut key_values = ParseMap::try_from(DATA).unwrap();
    assert_eq!(key_values.len(), 2);
    assert_eq!(key_values.get("key").unwrap(), "value".into());
    assert_eq!(key_values.get("foo").unwrap(), "bar".into());
}

#[test]
fn test_keyvalue_backslash_value() {
    const DATA: &str = "key=\"value\\\"\"";
    let mut key_values =
        ParseMap::try_from(DATA).unwrap_or_else(|_| panic!("Properly parsed {}", DATA));
    assert_eq!(key_values.len(), 1);
    assert_eq!(key_values.get("key").unwrap(), "value\"".into());
}

#[test]
fn keyvalue_test_keyvalue_backslash_value() {
    const DATA: &str = "key=\"value\\\"\"";
    let mut key_values =
        ParseMap::try_from(DATA).unwrap_or_else(|_| panic!("Properly parsed {}", DATA));
    assert_eq!(key_values.len(), 1);
    assert_eq!(key_values.get("key").unwrap(), "value\"".into());
}

#[test]
fn test_keyvalue_space_after_equals() {
    const DATA: &str = "key = value";
    let mut key_values =
        ParseMap::try_from(DATA).unwrap_or_else(|_| panic!("Properly parsed {}", DATA));
    assert_eq!(key_values.len(), 1);
    assert_eq!(key_values.get("key").unwrap(), "value".into());
}

#[test]
fn keyvalue_test_keyvalue_space_after_equals() {
    const DATA: &str = "key = value";
    let mut key_values =
        ParseMap::try_from(DATA).unwrap_or_else(|_| panic!("Properly parsed {}", DATA));
    assert_eq!(key_values.len(), 1);
    assert_eq!(key_values.get("key").unwrap(), "value".into());
}

#[test]
fn test_value_parse_for_ref() {
    const DATA_STR_REF: &str = "key = value";
    let mut key_values = ParseMap::try_from(DATA_STR_REF).unwrap();
    let value = key_values.get("key").unwrap();
    assert!(matches!(value, StringOrStr::Str(_)));

    const DATA_STR_REF_QUOTED: &str = "key = \"value\"";
    let mut key_values = ParseMap::try_from(DATA_STR_REF_QUOTED).unwrap();
    let value = key_values.get("key").unwrap();
    assert!(matches!(value, StringOrStr::Str(_)));

    const DATA_STR_REF_QUOTED_ESCAPED: &str = "key = \"value\\\"\"";
    let mut key_values = ParseMap::try_from(DATA_STR_REF_QUOTED_ESCAPED).unwrap();
    let value = key_values.get("key").unwrap();
    assert!(matches!(value, StringOrStr::String(_)));
}

#[test]
fn test_missing_end_quote_fails() {
    const DATA: &str = "key = \"value";
    let key_values = ParseMap::try_from(DATA);
    assert!(key_values.is_err(), "Should have failed to parse: {:?}", key_values);
}

#[test]
fn empty_text_gives_empty_map() {
    let map = ParseMap::try_from("").unwrap();
    assert!(map.is_empty());
    assert_eq!(map.len(), 0);
}

#[test]
fn get_takes_the_field_out() {
    let mut map = ParseMap::try_from("a=1 b=2").unwrap();
    assert_eq!(map.get("a").unwrap(), "1".into());
    assert_eq!(map.len(), 1);
    assert_eq!(map.get("a"), Err(ParseError::MissingField));
    assert_eq!(map.get("b").unwrap(), "2".into());
    assert!(map.is_empty());
}

#[test]
fn field_names_are_case_sensitive() {
    let mut map = ParseMap::try_from("Key=1").unwrap();
    assert_eq!(map.get("key"), Err(ParseError::MissingField));
    assert_eq!(map.get("Key").unwrap(), "1".into());
}

#[test]
fn later_value_of_a_name_stands() {
    let mut map = ParseMap::try_from("a=1 a=2").unwrap();
    assert_eq!(map.len(), 1);
    assert_eq!(map.get("a").unwrap(), "2".into());
}

#[test]
fn tabs_and_newlines_separate_fields() {
    let mut map = ParseMap::try_from("a=1\tb=2\r\n").unwrap();
    assert_eq!(map.get("a").unwrap(), "1".into());
    assert_eq!(map.get("b").unwrap(), "2".into());
    assert!(map.is_empty());
}

#[test]
fn name_without_equals_is_an_error() {
    assert_eq!(ParseMap::try_from("key").err(), Some(ParseError::MissingEquals));
    assert_eq!(ParseMap::try_from("key value").err(), Some(ParseError::MissingEquals));
}

#[test]
fn unterminated_quote_is_an_error() {
    assert_eq!(ParseMap::try_from("key=\"value").err(), Some(ParseError::UnterminatedQuote));
    assert_eq!(ParseMap::try_from("key=\"value\\").err(), Some(ParseError::UnterminatedQuote));
    assert_eq!(ParseMap::try_from("key=\"value\\\"").err(), Some(ParseError::UnterminatedQuote));
}

#[test]
fn empty_values_are_accepted() {
    let mut map = ParseMap::try_from("b=\"\" a=").unwrap();
    assert_eq!(map.get("a").unwrap(), "".into());
    assert_eq!(map.get("b").unwrap(), "".into());
    let mut map = ParseMap::try_from("a= b=1").unwrap();
    assert_eq!(map.get("a").unwrap(), "b=1".into());
    assert!(map.is_empty());
}

#[test]
fn escapes_keep_the_escaped_character() {
    let mut map = ParseMap::try_from("k=\"a\\\\b\\nc\\\u{e9}d\"").unwrap();
    assert_eq!(map.get("k").unwrap(), "a\\bnc\u{e9}d".into());
}

#[test]
fn values_may_hold_any_characters() {
    let mut map = ParseMap::try_from("k=gr\u{fc}n q=\"bl\u{e5} b\u{e6}r\"").unwrap();
    assert_eq!(map.get("k").unwrap(), "gr\u{fc}n".into());
    assert_eq!(map.get("q").unwrap(), "bl\u{e5} b\u{e6}r".into());
}

#[test]
fn quote_writes_escapes() {
    assert_eq!(quote("plain"), "\"plain\"");
    assert_eq!(quote(""), "\"\"");
    assert_eq!(quote("a\"b"), "\"a\\\"b\"");
    assert_eq!(quote("a\\b"), "\"a\\\\b\"");
    assert_eq!(quote("\\\""), "\"\\\\\\\"\"");
}

#[test]
fn quoted_values_round_trip() {
    for text in ["", "x", "say \"hi\"", "back\\slash", "\\\"\\\"", "tr\u{e4}umen \"\\\" ok", "  spaced  "] {
        let line = format!("key={}", quote(text));
        let mut map = ParseMap::try_from(line.as_str()).unwrap();
        let value = map.get("key").unwrap();
        assert_eq!(value.as_str(), text);
        let escaped = text.contains('"') || text.contains('\\');
        assert_eq!(matches!(value, StringOrStr::String(_)), escaped);
        assert!(map.is_empty());
    }
}

#[test]
fn string_or_str_compares_by_text() {
    let owned = StringOrStr::String("John".to_string());
    let borrowed = StringOrStr::Str("John");
    assert_eq!(owned, borrowed);
    assert_eq!(owned.len(), 4);
    assert!(!owned.is_empty());
    assert!(StringOrStr::Str("").is_empty());
    assert_eq!(StringOrStr::Str("gr\u{fc}n").len(), 5);
    assert_ne!(StringOrStr::Str("a"), StringOrStr::Str("b"));
}

#[test]
fn string_or_str_parses_numbers() {
    assert_eq!(StringOrStr::Str("0").parse(), Some(0));
    assert_eq!(StringOrStr::Str("14").parse(), Some(14));
    assert_eq!(StringOrStr::Str("255").parse(), Some(255));
    assert_eq!(StringOrStr::Str("+7").parse(), Some(7));
    assert_eq!(StringOrStr::Str("007").parse(), Some(7));
    assert_eq!(StringOrStr::Str("256").parse(), None);
    assert_eq!(StringOrStr::Str("99999999999999999999999").parse(), None);
    assert_eq!(StringOrStr::Str("").parse(), None);
    assert_eq!(StringOrStr::Str("+").parse(), None);
    assert_eq!(StringOrStr::Str("-1").parse(), None);
    assert_eq!(StringOrStr::Str("1a").parse(), None);
    assert_eq!(StringOrStr::Str(" 1").parse(), None);
}
