use openfang_channels::json::Json;
use openfang_channels::text::{
    contains_text, decimal_text, first_contained, has_text, is_white_space, join, join3, lines,
    lowercase_list, same_text, starts_with, tail, trim, words,
};
use openfang_channels::text_map::{TextMap, TextSet};
use openfang_channels::time::{elapsed_longer_than, Span, Timestamp};
use openfang_channels::types::split_message;

#[test]
fn documents_are_read_and_written() {
    let document = Json::parse(r#"{"b": [1, "x", null, true], "a": {"c": 2}, "a": {"c": 3}}"#);
    let document = document.unwrap();
    assert_eq!(document.field("a").unwrap().field_number("c"), Some(3));
    let items = document.field_items("b").unwrap();
    assert_eq!(items.len(), 4);
    assert_eq!(items[1].as_str(), Some("x"));
    assert_eq!(items[3].as_bool(), Some(true));
    assert_eq!(document.render(), r#"{"a":{"c":3},"b":[1,"x",null,true]}"#);
}

#[test]
fn of_repeated_entries_the_last_is_written() {
    let number = |n: u64| Json::Number(Some(n));
    let document = Json::object().with("a", number(1)).with("b", Json::Null).with("a", number(2));
    assert_eq!(document.field_number("a"), Some(2));
    assert_eq!(document.render(), r#"{"a":2,"b":null}"#);
}

#[test]
fn what_is_no_document_is_an_error() {
    let message = Json::parse("[1,").err().unwrap();
    assert!(message.contains("EOF while parsing"), "{message}");
}

#[test]
fn numbers_that_are_not_whole_are_no_numbers_here() {
    let document = Json::parse(r#"{"a": -1, "b": 1.5, "c": 18446744073709551615}"#).unwrap();
    assert_eq!(document.field_number("a"), None);
    assert_eq!(document.field_number("b"), None);
    assert_eq!(document.field_number("c"), Some(u64::MAX));
    assert!(document.field("a").is_some());
    assert_eq!(document.field_text("a"), None);
    assert_eq!(document.field_flag("a"), None);
    assert!(document.field_items("a").is_none());
}

#[test]
fn values_become_documents_and_back() {
    let value: serde_json::Value = serde_json::from_str(r#"{"k": ["v", 4]}"#).unwrap();
    let document = Json::from_value(value.clone());
    assert_eq!(document.field_items("k").unwrap()[0].as_str(), Some("v"));
    assert_eq!(document.to_value(), value);
}

#[test]
fn texts_are_searched() {
    assert!(contains_text("hello", "ell"));
    assert!(contains_text("hello", ""));
    assert!(!contains_text("hello", "hellos"));
    assert!(starts_with("hello", "he") && !starts_with("hello", "el"));
    let list = vec!["x".to_string(), "lo".to_string(), "he".to_string()];
    assert_eq!(first_contained("hello", &list), Some(1));
    assert_eq!(first_contained("nothing", &["q".to_string()]), None);
    assert!(has_text(&list, "lo") && !has_text(&list, "l"));
    assert!(same_text("a", "a") && !same_text("a", "b"));
}

#[test]
fn texts_are_taken_apart_and_put_together() {
    assert_eq!(lines("a\r\nb\n\nc"), vec!["a", "b", "", "c"]);
    assert_eq!(lines("a\n"), vec!["a"]);
    assert_eq!(words(" a\u{a0}b\t c "), vec!["a", "b", "c"]);
    assert_eq!(trim("\u{2003} x y \n"), "x y");
    assert_eq!(tail("h\u{e9}llo", 2), "llo");
    assert_eq!(join("a", "b"), "ab");
    assert_eq!(join3("a", "b", "c"), "abc");
    assert_eq!(decimal_text(0), "0");
    assert_eq!(decimal_text(18_446_744_073_709_551_615), "18446744073709551615");
    assert_eq!(lowercase_list(&["\u{c4}B".to_string()]), vec!["\u{e4}b"]);
}

#[test]
fn white_space_is_that_of_unicode() {
    for c in '\u{0}'..='\u{ffff}' {
        assert_eq!(is_white_space(c), c.is_whitespace(), "{c:?}");
    }
}

#[test]
fn maps_and_sets_of_texts() {
    let mut map = TextMap::new();
    assert!(map.is_empty());
    map.insert("a".to_string(), 1);
    map.insert("b".to_string(), 2);
    map.insert("a".to_string(), 3);
    assert_eq!(map.len(), 2);
    assert_eq!(map.get("a"), Some(&3));
    assert!(map.contains_key("b"));
    assert_eq!(map.remove("b"), Some(2));
    assert_eq!(map.remove("b"), None);
    assert_eq!(map.keys(), vec!["a"]);
    let mut set = TextSet::new();
    set.insert("x".to_string());
    set.insert("x".to_string());
    assert_eq!(set.to_vec(), vec!["x"]);
    set.remove("x");
    assert!(set.is_empty() && !set.contains("x"));
}

#[test]
fn messages_are_split_at_the_limit() {
    assert_eq!(split_message("", 3), vec![""]);
    assert_eq!(split_message("abc", 3), vec!["abc"]);
    assert_eq!(split_message("abcdefg", 3), vec!["abc", "def", "g"]);
}

#[test]
fn times_are_compared() {
    let at = |seconds: i64, nanos: u32| Timestamp { seconds, nanos };
    let span = |seconds: u64, nanos: u32| Span { seconds, nanos };
    assert!(elapsed_longer_than(at(-5, 0), at(5, 1), span(10, 0)));
    assert!(!elapsed_longer_than(at(-5, 0), at(5, 0), span(10, 0)));
    assert!(elapsed_longer_than(at(0, 999_999_999), at(2, 0), span(1, 0)));
    assert!(!elapsed_longer_than(at(2, 0), at(0, 0), span(0, 0)));
    // A leap second counts where one of the times lies within it.
    assert!(elapsed_longer_than(at(58, 0), at(59, 1_500_000_000), span(2, 0)));
    assert!(elapsed_longer_than(at(59, 1_500_000_000), at(61, 0), span(1, 499_999_999)));
    assert!(!elapsed_longer_than(at(59, 1_500_000_000), at(61, 0), span(1, 500_000_000)));
    // The next day is earlier in its day.
    assert!(!elapsed_longer_than(at(86_399, 1_500_000_000), at(86_400, 0), span(0, 0)));
    assert!(elapsed_longer_than(at(86_399, 0), at(86_459, 1_000_000_000), span(59, 999_999_999)));
    assert!(!elapsed_longer_than(at(86_399, 0), at(86_459, 1_000_000_000), span(60, 0)));
}

#[test]
fn the_calendar_has_bounds() {
    let valid = |seconds: i64, nanos: u32| Timestamp { seconds, nanos }.is_valid();
    assert!(valid(0, 999_999_999));
    assert!(!valid(0, 1_000_000_000));
    assert!(valid(59, 1_999_999_999));
    assert!(valid(-1, 1_000_000_000));
    assert!(!valid(59, 2_000_000_000));
    assert!(!valid(i64::MAX, 0) && !valid(i64::MIN, 0));
    assert!(valid(8_210_266_876_799, 0) && !valid(8_210_266_876_800, 0));
    assert!(valid(-8_334_601_228_800, 0) && !valid(-8_334_601_228_801, 0));
    for seconds in [8_210_266_876_799i64, 8_210_266_876_800, -8_334_601_228_800, -8_334_601_228_801] {
        assert_eq!(
            Timestamp { seconds, nanos: 0 }.is_valid(),
            chrono::DateTime::from_timestamp(seconds, 0).is_some()
        );
    }
}
