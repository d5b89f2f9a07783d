use openfang_channels::reaction::{ReactionCoordinator, WinnerDecision};
use openfang_channels::score::Score;
use openfang_channels::types::ReactionConfig;
use std::time::{Duration, Instant};

const MS: u128 = 1_000_000;

fn test_config() -> ReactionConfig {
    ReactionConfig {
        coordination_window_ms: 400,
        classifier_model: "haiku-20240307".to_string(),
        classifier_threshold: Score { bits: 0.70f32.to_bits() },
        cleanup_reactions: true,
    }
}

fn pause(ms: u64) {
    let start = Instant::now();
    while start.elapsed() < Duration::from_millis(ms) {}
}

fn react(coordinator: &mut ReactionCoordinator, message: &str, agent: &str, now: u128) -> bool {
    coordinator.record_reaction_at(
        message.to_string(),
        agent.to_string(),
        "\u{1f44d}".to_string(),
        now,
    )
}

fn single(coordinator: &ReactionCoordinator, message: &str) -> Option<String> {
    match coordinator.get_winner(message) {
        WinnerDecision::SingleWinner(id) => Some(id),
        _ => None,
    }
}

#[test]
fn test_single_winner() {
    let mut coordinator = ReactionCoordinator::new(test_config());
    coordinator.record_reaction(
        "msg1".to_string(),
        "agent1".to_string(),
        "\u{1f44d}".to_string(),
    );
    // Wait a bit for window to still be open
    pause(10);
    match coordinator.get_winner("msg1") {
        WinnerDecision::SingleWinner(id) => assert_eq!(id, "agent1"),
        _ => panic!("Expected SingleWinner"),
    }
}

#[test]
fn test_no_reactions() {
    let coordinator = ReactionCoordinator::new(test_config());
    match coordinator.get_winner("msg2") {
        WinnerDecision::NoWinner => (),
        _ => panic!("Expected NoWinner"),
    }
}

#[test]
fn test_needs_classification() {
    let mut coordinator = ReactionCoordinator::new(test_config());
    coordinator.record_reaction(
        "msg3".to_string(),
        "agent1".to_string(),
        "\u{1f44d}".to_string(),
    );
    coordinator.record_reaction(
        "msg3".to_string(),
        "agent2".to_string(),
        "\u{1f44d}".to_string(),
    );
    pause(10);
    match coordinator.get_winner("msg3") {
        WinnerDecision::NeedsClassification(agents) => {
            assert_eq!(agents.len(), 2);
            assert!(agents.contains(&"agent1".to_string()));
            assert!(agents.contains(&"agent2".to_string()));
        }
        _ => panic!("Expected NeedsClassification"),
    }
}

#[test]
fn an_agent_counts_once() {
    let mut coordinator = ReactionCoordinator::new(test_config());
    assert!(react(&mut coordinator, "m", "a", 0));
    assert!(react(&mut coordinator, "m", "a", 1));
    assert_eq!(single(&coordinator, "m"), Some("a".to_string()));
    assert!(react(&mut coordinator, "m", "b", 2));
    assert!(react(&mut coordinator, "m", "a", 3));
    match coordinator.get_winner("m") {
        WinnerDecision::NeedsClassification(agents) => assert_eq!(agents, vec!["a", "b"]),
        other => panic!("{other:?}"),
    }
}

#[test]
fn messages_have_windows_of_their_own() {
    let mut coordinator = ReactionCoordinator::new(test_config());
    react(&mut coordinator, "m", "a", 0);
    react(&mut coordinator, "n", "b", 0);
    assert_eq!(single(&coordinator, "m"), Some("a".to_string()));
    assert_eq!(single(&coordinator, "n"), Some("b".to_string()));
}

#[test]
fn an_expired_window_is_gone_and_a_new_one_starts() {
    let mut coordinator = ReactionCoordinator::new(test_config());
    react(&mut coordinator, "m", "a", 0);
    react(&mut coordinator, "n", "b", 0);
    coordinator.expire_window_at("m", 1);
    assert!(matches!(coordinator.get_winner("m"), WinnerDecision::NoWinner));
    assert_eq!(single(&coordinator, "n"), Some("b".to_string()));
    assert!(react(&mut coordinator, "m", "c", 2));
    assert_eq!(single(&coordinator, "m"), Some("c".to_string()));
    coordinator.expire_window("n");
    assert!(matches!(coordinator.get_winner("n"), WinnerDecision::NoWinner));
}

#[test]
fn windows_end_with_the_coordination_window() {
    let mut coordinator = ReactionCoordinator::new(test_config());
    react(&mut coordinator, "m", "a", 5 * MS);
    coordinator.cleanup_windows_at(405 * MS - 1);
    assert_eq!(single(&coordinator, "m"), Some("a".to_string()));
    // A clock that has not passed the window's start leaves it open.
    coordinator.cleanup_windows_at(0);
    assert_eq!(single(&coordinator, "m"), Some("a".to_string()));
    coordinator.cleanup_windows_at(405 * MS);
    assert!(matches!(coordinator.get_winner("m"), WinnerDecision::NoWinner));
    // Again, at the same time: nothing is left to do.
    coordinator.cleanup_windows_at(405 * MS);
    assert!(matches!(coordinator.get_winner("m"), WinnerDecision::NoWinner));
}

#[test]
fn the_clock_of_a_coordinator_runs() {
    let mut config = test_config();
    config.coordination_window_ms = 20;
    let mut coordinator = ReactionCoordinator::new(config);
    coordinator.record_reaction("m".to_string(), "a".to_string(), "x".to_string());
    pause(30);
    coordinator.cleanup_windows();
    assert!(matches!(coordinator.get_winner("m"), WinnerDecision::NoWinner));
}

#[test]
fn a_clone_has_no_windows() {
    let mut coordinator = ReactionCoordinator::new(test_config());
    react(&mut coordinator, "m", "a", 0);
    let mut copy = coordinator.clone();
    assert!(matches!(copy.get_winner("m"), WinnerDecision::NoWinner));
    assert_eq!(single(&coordinator, "m"), Some("a".to_string()));
    // The clone has the same window.
    react(&mut copy, "m", "b", 0);
    copy.cleanup_windows_at(400 * MS - 1);
    assert_eq!(single(&copy, "m"), Some("b".to_string()));
    copy.cleanup_windows_at(400 * MS);
    assert!(matches!(copy.get_winner("m"), WinnerDecision::NoWinner));
}

#[test]
fn periodic_cleanup_ends_windows() {
    let mut coordinator = ReactionCoordinator::new(test_config());
    react(&mut coordinator, "m", "a", 100 * MS);
    for cleanup in [400 * MS, 800 * MS] {
        coordinator.cleanup_windows_at(cleanup);
    }
    assert!(matches!(coordinator.get_winner("m"), WinnerDecision::NoWinner));
}
