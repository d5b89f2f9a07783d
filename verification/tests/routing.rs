use openfang_channels::json::Json;
use openfang_channels::routing_classifier::{
    choose_by_keywords, decision_from_document, extract_route_signal, parse_route_signal,
    DelegateTarget, RoutingClassifier, RoutingDecision,
};
use openfang_channels::types::{ReplyMode, RoutingRosterEntry, TurnPolicy};

fn test_roster() -> Vec<RoutingRosterEntry> {
    vec![
        RoutingRosterEntry {
            agent_id: "frontend".to_string(),
            role: "Frontend developer".to_string(),
            domains: vec!["javascript".to_string(), "react".to_string()],
        },
        RoutingRosterEntry {
            agent_id: "backend".to_string(),
            role: "Backend developer".to_string(),
            domains: vec!["rust".to_string(), "api".to_string()],
        },
    ]
}

fn classifier() -> RoutingClassifier {
    RoutingClassifier::new(test_roster(), TurnPolicy::MentionOnly, ReplyMode::DirectReply)
}

#[test]
fn test_extract_route_signal() {
    let output = "Some text\nROUTE: {\"decision\":\"delegate\"}\nMore text";
    let signal = extract_route_signal(output).unwrap();
    assert_eq!(signal, "{\"decision\":\"delegate\"}");
}

#[test]
fn test_parse_route_signal_handle() {
    let signal = r#"{"decision":"handle"}"#;
    let decision = parse_route_signal(signal).unwrap();
    assert!(matches!(decision, RoutingDecision::Handle));
}

#[test]
fn test_parse_route_signal_delegate() {
    let signal = r#"{"decision":"delegate","agent_id":"frontend","task":"Fix the bug"}"#;
    let decision = parse_route_signal(signal).unwrap();
    match decision {
        RoutingDecision::Delegate(target) => {
            assert_eq!(target.agent_id, "frontend");
            assert_eq!(target.task, "Fix the bug");
        }
        _ => panic!("Expected Delegate"),
    }
}

#[test]
fn test_classify_with_llm_signal() {
    let classifier = classifier();
    let llm_output =
        "ROUTE: {\"decision\":\"delegate\",\"agent_id\":\"frontend\",\"task\":\"Fix UI\"}";
    let decision = classifier.classify("ignore", Some(llm_output));
    match decision {
        RoutingDecision::Delegate(target) => {
            assert_eq!(target.agent_id, "frontend");
        }
        _ => panic!("Expected Delegate from LLM signal"),
    }
}

#[test]
fn test_classify_keyword_match() {
    let classifier = classifier();
    let decision = classifier.classify("I need help with Rust programming", None);
    match decision {
        RoutingDecision::Delegate(target) => {
            assert_eq!(target.agent_id, "backend");
        }
        _ => panic!("Expected Delegate from keyword match"),
    }
}

#[test]
fn the_first_signal_counts() {
    assert_eq!(extract_route_signal("  ROUTE:  a b \r\nROUTE: c"), Some("a b".to_string()));
    assert_eq!(extract_route_signal("ROUTE:"), Some("".to_string()));
    assert_eq!(extract_route_signal("route: a\nsee ROUTE: b"), None);
    assert_eq!(extract_route_signal(""), None);
}

#[test]
fn each_error_of_a_signal() {
    let error = |signal: &str| parse_route_signal(signal).unwrap_err();
    assert!(error("{").starts_with("Invalid JSON in ROUTE: signal: EOF while parsing"));
    assert_eq!(error("{}"), "Missing 'decision' field");
    assert_eq!(error(r#"{"decision":1}"#), "Missing 'decision' field");
    assert_eq!(error(r#"{"decision":"delegate"}"#), "Missing 'agent_id' for delegate");
    assert_eq!(
        error(r#"{"decision":"delegate_multi"}"#),
        "Missing 'agents' array for delegate_multi"
    );
    assert_eq!(
        error(r#"{"decision":"delegate_multi","agents":[{"agent_id":"a"},{}]}"#),
        "Missing agent_id in delegate_multi entry"
    );
    assert_eq!(error(r#"{"decision":"boardroom"}"#), "Missing 'agents' array for boardroom");
    assert_eq!(
        error(r#"{"decision":"boardroom","agents":[7]}"#),
        "Missing agent_id in boardroom entry"
    );
    // A list on which nobody is counts as none.
    assert_eq!(
        error(r#"{"decision":"delegate_multi","agents":[]}"#),
        "Missing 'agents' array for delegate_multi"
    );
    assert_eq!(
        error(r#"{"decision":"boardroom","agents":[]}"#),
        "Missing 'agents' array for boardroom"
    );
    assert_eq!(error(r#"{"decision":"nap"}"#), "Unknown decision type: nap");
}

#[test]
fn signals_with_several_agents() {
    let signal = r#"{"decision":"delegate_multi","agents":[{"agent_id":"a","task":"t"},{"agent_id":"b"}]}"#;
    match parse_route_signal(signal).unwrap() {
        RoutingDecision::DelegateMulti(targets) => {
            assert_eq!(targets.len(), 2);
            assert_eq!(targets[0].agent_id, "a");
            assert_eq!(targets[0].task, "t");
            assert_eq!(targets[1].agent_id, "b");
            assert_eq!(targets[1].task, "Please help with this.");
        }
        other => panic!("{other:?}"),
    }
    match parse_route_signal(r#"{"decision":"boardroom","agents":[{"agent_id":"a"}]}"#).unwrap() {
        RoutingDecision::Boardroom(targets) => assert_eq!(targets[0].agent_id, "a"),
        other => panic!("{other:?}"),
    }
}

#[test]
fn the_last_of_repeated_fields_counts() {
    let document = Json::object()
        .with("decision", Json::Text("boardroom".to_string()))
        .with("decision", Json::Text("handle".to_string()));
    assert!(matches!(decision_from_document(&document), Ok(RoutingDecision::Handle)));
}

#[test]
fn a_signal_overrides_keywords() {
    let decision = classifier().classify("rust and react", Some("ROUTE: {\"decision\":\"handle\"}"));
    assert!(matches!(decision, RoutingDecision::Handle));
}

#[test]
fn an_unusable_signal_falls_back_to_keywords() {
    let decision = classifier().classify("an API", Some("ROUTE: nonsense"));
    match decision {
        RoutingDecision::Delegate(target) => {
            assert_eq!(target.agent_id, "backend");
            assert_eq!(target.task, "Please help with: an API");
        }
        other => panic!("{other:?}"),
    }
    let empty = "ROUTE: {\"decision\":\"boardroom\",\"agents\":[]}";
    assert!(matches!(classifier().classify("rust", Some(empty)), RoutingDecision::Delegate(_)));
    assert!(matches!(classifier().classify("hello", Some("no signal")), RoutingDecision::Handle));
}

#[test]
fn each_entry_matches_once_in_the_order_of_the_roster() {
    match classifier().classify("Rust API for a React and JavaScript page", None) {
        RoutingDecision::DelegateMulti(targets) => {
            assert_eq!(targets.len(), 2);
            assert_eq!(targets[0].agent_id, "frontend");
            assert_eq!(targets[1].agent_id, "backend");
        }
        other => panic!("{other:?}"),
    }
}

#[test]
fn choosing_by_keywords_as_they_stand() {
    assert!(matches!(
        choose_by_keywords(&test_roster(), "RUST", "RUST"),
        RoutingDecision::Handle
    ));
    assert!(matches!(
        choose_by_keywords(&test_roster(), "RUST", "rust"),
        RoutingDecision::Delegate(_)
    ));
}

#[test]
fn settings_are_kept() {
    let classifier = RoutingClassifier::new(vec![], TurnPolicy::Open, ReplyMode::RelayReply);
    assert_eq!(classifier.turn_policy(), TurnPolicy::Open);
    assert_eq!(classifier.reply_mode(), ReplyMode::RelayReply);
    let target = DelegateTarget::new("a".to_string(), "t".to_string());
    assert_eq!(target.agent_id, "a");
    assert_eq!(target.task, "t");
}
