use openfang_channels::topic::{judge, Relevance, TopicFilter};
use openfang_channels::types::TopicFilterConfig;

fn test_config() -> TopicFilterConfig {
    TopicFilterConfig {
        keywords: vec!["rust".to_string(), "programming".to_string()],
        negative_keywords: vec!["not rust".to_string(), "ignore".to_string()],
        min_length: 10,
    }
}

#[test]
fn test_positive_match() {
    let filter = TopicFilter::new(test_config());
    assert_eq!(filter.evaluate("I love Rust programming"), Relevance::Yes);
    assert_eq!(filter.evaluate("Programming is fun"), Relevance::Yes);
}

#[test]
fn test_negative_override() {
    let filter = TopicFilter::new(test_config());
    assert_eq!(filter.evaluate("This is not rust related"), Relevance::No);
    assert_eq!(filter.evaluate("Ignore this message"), Relevance::No);
}

#[test]
fn test_unknown() {
    let filter = TopicFilter::new(test_config());
    assert_eq!(filter.evaluate("Hello world"), Relevance::Unknown);
}

#[test]
fn test_too_short() {
    let filter = TopicFilter::new(test_config());
    // Length 9 < min_length 10: unknown
    assert_eq!(filter.evaluate("Short"), Relevance::Unknown);
}

#[test]
fn short_messages_are_unknown_even_with_negative_keywords() {
    let filter = TopicFilter::new(test_config());
    assert_eq!(filter.evaluate("ignore me"), Relevance::Unknown);
    assert_eq!(filter.evaluate("ignore me!"), Relevance::No);
}

#[test]
fn length_counts_bytes() {
    let filter = TopicFilter::new(TopicFilterConfig {
        keywords: vec!["\u{e9}".to_string()],
        negative_keywords: vec![],
        min_length: 10,
    });
    // Five characters of two bytes each; lower case is found by the upper one.
    assert_eq!(filter.evaluate("\u{c9}\u{c9}\u{c9}\u{c9}\u{c9}"), Relevance::Yes);
    assert_eq!(filter.evaluate("\u{c9}\u{c9}\u{c9}\u{c9}"), Relevance::Unknown);
}

#[test]
fn an_empty_keyword_is_everywhere() {
    let filter = TopicFilter::new(TopicFilterConfig {
        keywords: vec!["".to_string()],
        negative_keywords: vec![],
        min_length: 0,
    });
    assert_eq!(filter.evaluate(""), Relevance::Yes);
}

#[test]
fn judging_lowercase_forms() {
    let negative = vec!["no".to_string()];
    let positive = vec!["yes".to_string()];
    assert_eq!(judge(3, 3, "yes", &negative, &positive), Relevance::Yes);
    assert_eq!(judge(6, 3, "yes no", &negative, &positive), Relevance::No);
    assert_eq!(judge(2, 3, "yes", &negative, &positive), Relevance::Unknown);
    assert_eq!(judge(5, 3, "maybe", &negative, &positive), Relevance::Unknown);
}

#[test]
fn relevance_has_names() {
    assert_eq!(Relevance::Yes.to_string(), "Yes");
    assert_eq!(Relevance::No.to_string(), "No");
    assert_eq!(Relevance::Unknown.to_string(), "Unknown");
}

#[test]
fn a_filter_keeps_its_settings() {
    let filter = TopicFilter::new(test_config());
    assert_eq!(filter.min_length(), 10);
    let copy = filter.clone();
    assert_eq!(copy.min_length(), 10);
    assert_eq!(copy.evaluate("I love Rust programming"), Relevance::Yes);
    assert_eq!(copy.evaluate("Ignore this message"), Relevance::No);
}
