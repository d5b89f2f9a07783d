use openfang_channels::classifier::{pick, respond, ClassificationResponse, DomainClassifier};
use openfang_channels::score::Score;
use openfang_channels::types::ReactionConfig;

fn score(value: f32) -> Score {
    Score { bits: value.to_bits() }
}

fn test_config() -> ReactionConfig {
    ReactionConfig {
        coordination_window_ms: 400,
        classifier_model: "haiku-20240307".to_string(),
        classifier_threshold: score(0.70),
        cleanup_reactions: true,
    }
}

#[test]
fn test_classify_above_threshold() {
    let classifier = DomainClassifier::new(test_config());
    let candidates = vec!["agent1".to_string(), "agent2".to_string()];
    let winner = classifier.classify("This is about agent1 stuff", &candidates);
    assert_eq!(winner, Some("agent1".to_string()));
}

#[test]
fn test_classify_below_threshold() {
    let mut config = test_config();
    config.classifier_threshold = score(0.90); // higher than mock confidence
    let classifier = DomainClassifier::new(config);
    let candidates = vec!["agent1".to_string(), "agent2".to_string()];
    let winner = classifier.classify("Unrelated message", &candidates);
    assert_eq!(winner, None);
}

#[test]
fn test_single_candidate() {
    let classifier = DomainClassifier::new(test_config());
    let candidates = vec!["agent1".to_string()];
    let winner = classifier.classify("any message", &candidates);
    assert_eq!(winner, Some("agent1".to_string()));
}

#[test]
fn no_candidates_no_winner() {
    assert_eq!(DomainClassifier::new(test_config()).classify("any message", &[]), None);
}

#[test]
fn the_first_candidate_that_is_named_wins() {
    let classifier = DomainClassifier::new(test_config());
    let candidates = vec!["Zoe".to_string(), "Bob".to_string(), "Ann".to_string()];
    assert_eq!(classifier.classify("ann, bob?", &candidates), Some("Bob".to_string()));
    assert_eq!(classifier.classify("nobody", &candidates), None);
}

#[test]
fn confidence_has_to_exceed_the_threshold() {
    let candidates = vec!["a1".to_string(), "a2".to_string()];
    let winner = |threshold: f32, message: &str| {
        let mut config = test_config();
        config.classifier_threshold = score(threshold);
        DomainClassifier::new(config).classify(message, &candidates)
    };
    assert_eq!(winner(0.85, "for a2"), None);
    assert_eq!(winner(0.8499999, "for a2"), Some("a2".to_string()));
    assert_eq!(winner(0.60, "for none"), None);
    assert_eq!(winner(0.59, "for none"), Some("a1".to_string()));
    assert_eq!(winner(f32::NAN, "for a2"), None);
    assert_eq!(winner(-1.0, "for none"), Some("a1".to_string()));
}

#[test]
fn responses_say_why() {
    let candidates = vec!["A".to_string(), "B".to_string()];
    let lowered = vec!["a".to_string(), "b".to_string()];
    let named = respond(None, &candidates, "to b", &lowered);
    assert_eq!(named.winner, "B");
    assert_eq!(f32::from_bits(named.confidence.bits), 0.85);
    assert_eq!(named.reasoning, "Agent ID found in message text.");
    let fallback = respond(None, &candidates, "x", &lowered);
    assert_eq!(fallback.winner, "A");
    assert_eq!(f32::from_bits(fallback.confidence.bits), 0.60);
    assert_eq!(fallback.reasoning, "Fallback to first candidate.");
}

#[test]
fn a_response_counts_among_several_candidates() {
    let response = |confidence: f32| ClassificationResponse {
        winner: "c".to_string(),
        confidence: score(confidence),
        reasoning: "".to_string(),
    };
    let names = |list: &[&str]| list.iter().map(|s| s.to_string()).collect::<Vec<_>>();
    assert_eq!(pick(score(0.5), &names(&["a", "b"]), response(0.6)), Some("c".to_string()));
    assert_eq!(pick(score(0.5), &names(&["a", "b"]), response(0.5)), None);
    assert_eq!(pick(score(0.5), &names(&["a"]), response(0.0)), Some("a".to_string()));
    assert_eq!(pick(score(0.5), &[], response(1.0)), None);
}

#[test]
fn a_response_that_was_set_is_given() {
    let mut classifier = DomainClassifier::new(test_config());
    classifier.set_mock_response("hello".to_string(), "agent2".to_string());
    classifier.set_mock_response("for agent1".to_string(), "agent2".to_string());
    classifier.set_mock_response("for agent2".to_string(), "agent7".to_string());
    let candidates = vec!["agent1".to_string(), "agent2".to_string()];
    let response = classifier.mock_llm_call("hello", &candidates);
    assert_eq!(response.winner, "agent2");
    assert_eq!(f32::from_bits(response.confidence.bits), 0.85);
    assert_eq!(response.reasoning, "Response set for this message.");
    assert_eq!(classifier.classify("hello", &candidates), Some("agent2".to_string()));
    // It goes before the rule, but only for its message and among candidates.
    assert_eq!(classifier.mock_llm_call("for agent1", &candidates).winner, "agent2");
    assert_eq!(classifier.mock_llm_call("For agent1", &candidates).winner, "agent1");
    assert_eq!(classifier.mock_llm_call("for agent2", &candidates).winner, "agent2");
    assert_eq!(classifier.mock_llm_call("bye", &candidates).winner, "agent1");
}

#[test]
fn a_winner_that_is_no_candidate_is_passed_over() {
    let candidates = vec!["A".to_string(), "B".to_string()];
    let lowered = vec!["a".to_string(), "b".to_string()];
    assert_eq!(respond(Some("A"), &candidates, "to b", &lowered).winner, "A");
    assert_eq!(respond(Some("a"), &candidates, "to b", &lowered).winner, "B");
}

#[test]
fn scores_compare_as_numbers() {
    let numbers =
        [f32::NEG_INFINITY, -1.5, -1.0, -0.0, 0.0, f32::MIN_POSITIVE, 0.6, 0.85, 1.0, f32::INFINITY, f32::NAN];
    for a in numbers {
        for b in numbers {
            assert_eq!(score(a).exceeds(score(b)), a > b, "{a} {b}");
        }
    }
}
