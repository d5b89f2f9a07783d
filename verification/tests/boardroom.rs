use openfang_channels::boardroom::{
    thread_id_of_key, thread_key, unreadable_thread, unwritable_thread, BoardroomError,
    BoardroomRegistry, BoardroomThread, StorageAction, ThreadLookup, ThreadStatus,
    BOARDROOM_AGENT_ID,
};
use openfang_channels::time::{Span, Timestamp};
use openfang_channels::types::{BoardroomConfig, TurnPolicy};

fn at(seconds: i64) -> Timestamp {
    Timestamp { seconds, nanos: 0 }
}

fn minutes(count: u64) -> Span {
    Span { seconds: count * 60, nanos: 0 }
}

fn config() -> BoardroomConfig {
    BoardroomConfig {
        default_turn_policy: TurnPolicy::MentionOnly,
        max_bot_streak: 3,
        idle_timeout_minutes: 10,
    }
}

fn registry() -> BoardroomRegistry {
    BoardroomRegistry::new(config(), vec![]).unwrap()
}

fn create(registry: &mut BoardroomRegistry, id: &str, now: Timestamp) {
    match registry.get_or_create_thread_at(id.to_string(), None, now) {
        ThreadLookup::Create { thread, .. } => registry.put_thread(id.to_string(), thread),
        ThreadLookup::Found(_) => panic!("{id} exists"),
    }
}

fn message(error: BoardroomError) -> String {
    match error {
        BoardroomError::Memory(message) => message,
    }
}

#[test]
fn a_new_thread_is_open_and_empty() {
    let thread = BoardroomThread::new_at("t".to_string(), TurnPolicy::Open, at(7));
    assert_eq!(thread.thread_id, "t");
    assert_eq!(thread.status, ThreadStatus::Open);
    assert_eq!(thread.turn_policy, TurnPolicy::Open);
    assert!(thread.participants.is_empty());
    assert_eq!(thread.bot_streak, 0);
    assert_eq!(thread.last_activity, at(7));
}

#[test]
fn the_clock_of_threads_runs() {
    // Some time in the twenty-first century.
    let thread = BoardroomThread::new("t".to_string(), TurnPolicy::Open);
    assert!(thread.last_activity.seconds > 1_600_000_000);
    assert!(thread.last_activity.is_valid());
    assert!(!thread.is_idle(minutes(1000)));
    let mut old = BoardroomThread::new_at("t".to_string(), TurnPolicy::Open, at(0));
    assert!(old.is_idle(minutes(1000)));
    old.record_bot_message();
    assert_eq!(old.bot_streak, 1);
    assert!(!old.is_idle(minutes(1000)));
    old.record_human_message();
    assert_eq!(old.bot_streak, 0);
}

#[test]
fn the_breaker_counts_bot_messages_since_the_last_human_one() {
    let mut thread = BoardroomThread::new_at("t".to_string(), TurnPolicy::Open, at(0));
    thread.record_bot_message_at(at(1));
    thread.record_human_message_at(at(2));
    thread.record_bot_message_at(at(3));
    thread.record_bot_message_at(at(4));
    assert!(!thread.circuit_breaker_tripped(3));
    thread.record_bot_message_at(at(5));
    assert!(thread.circuit_breaker_tripped(3));
    assert_eq!(thread.last_activity, at(5));
    thread.record_human_message_at(at(6));
    assert!(!thread.circuit_breaker_tripped(3));
    assert!(thread.circuit_breaker_tripped(0));
}

#[test]
fn joining_and_leaving() {
    let mut thread = BoardroomThread::new_at("t".to_string(), TurnPolicy::Open, at(0));
    thread.add_participant("a".to_string());
    assert_eq!(thread.status, ThreadStatus::Active);
    thread.add_participant("b".to_string());
    thread.add_participant("a".to_string());
    assert_eq!(thread.participants.to_vec().len(), 2);
    thread.remove_participant("a");
    assert_eq!(thread.status, ThreadStatus::Active);
    assert!(!thread.participants.contains("a"));
    assert!(thread.participants.contains("b"));
    thread.remove_participant("b");
    assert_eq!(thread.status, ThreadStatus::Idle);
    // Only an open thread becomes active by joining.
    thread.add_participant("c".to_string());
    assert_eq!(thread.status, ThreadStatus::Idle);
    thread.status = ThreadStatus::Closed;
    thread.add_participant("d".to_string());
    assert_eq!(thread.status, ThreadStatus::Closed);
}

#[test]
fn an_agent_that_never_joined_cannot_leave() {
    let mut thread = BoardroomThread::new("t1".to_string(), TurnPolicy::MentionOnly);
    thread.remove_participant("x");
    assert!(thread.participants.is_empty());
    assert_eq!(thread.status, ThreadStatus::Open);
    thread.add_participant("a".to_string());
    thread.remove_participant("x");
    assert_eq!(thread.status, ThreadStatus::Active);
    assert!(thread.participants.contains("a"));
    // An active thread in which nobody takes part is idle, a closed one is not.
    let mut empty = BoardroomThread::new("t1".to_string(), TurnPolicy::MentionOnly);
    empty.status = ThreadStatus::Active;
    empty.remove_participant("x");
    assert_eq!(empty.status, ThreadStatus::Idle);
    empty.status = ThreadStatus::Closed;
    empty.remove_participant("x");
    assert_eq!(empty.status, ThreadStatus::Closed);
}

#[test]
fn a_registry_is_found_again_in_storage() {
    let mut stored: Vec<(String, BoardroomThread)> = vec![];
    let mut perform = |action: StorageAction| match action {
        StorageAction::Keep => (),
        StorageAction::Save { key, thread } => {
            stored.retain(|entry| entry.0 != key);
            stored.push((key, thread));
        }
        StorageAction::Delete(key) => stored.retain(|entry| entry.0 != key),
    };
    let mut registry = registry();
    for id in ["t", "u"] {
        match registry.get_or_create_thread_at(id.to_string(), None, at(0)) {
            ThreadLookup::Create { key, thread } => {
                perform(StorageAction::Save { key, thread: thread.clone() });
                registry.put_thread(id.to_string(), thread);
            }
            ThreadLookup::Found(_) => panic!("{id} exists"),
        }
    }
    perform(registry.add_participant("t", "a".to_string()).1);
    perform(registry.record_bot_message_at("t", at(1)).1);
    perform(registry.record_bot_message_at("t", at(2)).1);
    perform(registry.record_human_message_at("u", at(3)));
    perform(registry.record_human_message_at("none", at(3)));
    perform(registry.remove_thread("u").1);
    let mut entries: Vec<(String, Result<BoardroomThread, String>)> =
        vec![("other".to_string(), Err("no thread".to_string()))];
    for (key, thread) in stored {
        entries.push((key, Ok(thread)));
    }
    let again = BoardroomRegistry::new(config(), entries).unwrap();
    assert_eq!(again.thread_count(), 1);
    let thread = again.get_thread("t").unwrap();
    assert_eq!(thread.thread_id, "t");
    assert_eq!(thread.participants.to_vec(), vec!["a"]);
    assert_eq!(thread.status, ThreadStatus::Active);
    assert_eq!(thread.turn_policy, TurnPolicy::MentionOnly);
    assert_eq!(thread.bot_streak, 2);
    assert_eq!(thread.last_activity, at(2));
}

#[test]
fn a_thread_is_idle_after_more_than_the_timeout() {
    let thread = BoardroomThread::new_at("t".to_string(), TurnPolicy::Open, at(1000));
    assert!(!thread.is_idle_at(at(1600), minutes(10)));
    assert!(thread.is_idle_at(Timestamp { seconds: 1600, nanos: 1 }, minutes(10)));
    assert!(!thread.is_idle_at(at(900), minutes(10)));
    // Nothing is inactive for longer than the longest timeout.
    let endless = Span { seconds: u64::MAX, nanos: 999_999_999 };
    assert!(!thread.is_idle_at(at(1001), endless));
    assert!(!thread.is_idle_at(at(8_210_266_876_799), endless));
    assert!(!thread.is_idle(endless));
}

#[test]
fn idleness_ends_with_a_message_only() {
    let mut thread = BoardroomThread::new_at("t".to_string(), TurnPolicy::Open, at(0));
    for now in [601, 602, 100_000] {
        assert!(thread.is_idle_at(at(now), minutes(10)));
    }
    thread.record_human_message_at(at(100_000));
    assert!(!thread.is_idle_at(at(100_000), minutes(0)));
    assert!(thread.is_idle_at(at(100_001), minutes(0)));
}

#[test]
fn a_cloned_thread_is_the_same() {
    let mut thread = BoardroomThread::new_at("t".to_string(), TurnPolicy::Open, at(3));
    thread.add_participant("a".to_string());
    thread.record_bot_message_at(at(4));
    let copy = thread.clone();
    assert_eq!(copy.thread_id, "t");
    assert_eq!(copy.participants.to_vec(), vec!["a"]);
    assert_eq!(copy.status, ThreadStatus::Active);
    assert_eq!(copy.bot_streak, 1);
    assert_eq!(copy.last_activity, at(4));
}

#[test]
fn keys_name_threads() {
    assert_eq!(BOARDROOM_AGENT_ID, 0);
    assert_eq!(thread_key("42"), "boardroom:thread:42");
    assert_eq!(thread_id_of_key("boardroom:thread:42"), Some("42".to_string()));
    assert_eq!(thread_id_of_key("boardroom:thread:"), Some("".to_string()));
    assert_eq!(thread_id_of_key("boardroom:room:42"), None);
    assert_eq!(thread_id_of_key("board"), None);
}

#[test]
fn errors_name_the_thread() {
    assert_eq!(message(unreadable_thread("7", "eof")), "Failed to deserialize thread 7: eof");
    assert_eq!(message(unwritable_thread("7", "eof")), "Failed to serialize thread 7: eof");
}

#[test]
fn stored_threads_are_loaded() {
    let mut thread = BoardroomThread::new_at("1".to_string(), TurnPolicy::Open, at(9));
    thread.add_participant("a".to_string());
    let registry = BoardroomRegistry::new(
        config(),
        vec![
            (thread_key("1"), Ok(thread)),
            ("other".to_string(), Err("not a thread".to_string())),
            (
                thread_key("2"),
                Ok(BoardroomThread::new_at("2".to_string(), TurnPolicy::MentionOnly, at(1))),
            ),
        ],
    )
    .unwrap();
    assert_eq!(registry.thread_count(), 2);
    let first = registry.get_thread("1").unwrap();
    assert_eq!(first.turn_policy, TurnPolicy::Open);
    assert_eq!(first.status, ThreadStatus::Active);
    assert_eq!(first.last_activity, at(9));
    assert!(first.participants.contains("a"));
    assert_eq!(registry.get_thread("2").unwrap().status, ThreadStatus::Open);
    assert!(registry.get_thread("other").is_none());
}

#[test]
fn the_first_unreadable_thread_stops_loading() {
    let error = BoardroomRegistry::new(
        config(),
        vec![
            ("x".to_string(), Err("zero".to_string())),
            (thread_key("1"), Err("one".to_string())),
            (thread_key("2"), Err("two".to_string())),
        ],
    )
    .err()
    .unwrap();
    assert_eq!(message(error), "Failed to deserialize thread 1: one");
}

#[test]
fn a_thread_is_created_once() {
    let mut registry = registry();
    match registry.get_or_create_thread_at("t".to_string(), None, at(5)) {
        ThreadLookup::Create { key, thread } => {
            assert_eq!(key, "boardroom:thread:t");
            assert_eq!(thread.turn_policy, TurnPolicy::MentionOnly);
            assert_eq!(thread.last_activity, at(5));
            // Not there before it was put in.
            assert!(registry.get_thread("t").is_none());
            registry.put_thread("t".to_string(), thread);
        }
        ThreadLookup::Found(_) => panic!("too early"),
    }
    match registry.get_or_create_thread("t".to_string(), Some(TurnPolicy::Open)) {
        ThreadLookup::Found(thread) => {
            assert_eq!(thread.turn_policy, TurnPolicy::MentionOnly);
            assert_eq!(thread.last_activity, at(5));
        }
        ThreadLookup::Create { .. } => panic!("twice"),
    }
    match registry.get_or_create_thread("u".to_string(), Some(TurnPolicy::Open)) {
        ThreadLookup::Create { thread, .. } => assert_eq!(thread.turn_policy, TurnPolicy::Open),
        ThreadLookup::Found(_) => panic!("never created"),
    }
}

#[test]
fn a_removed_thread_is_gone() {
    let mut registry = registry();
    create(&mut registry, "t", at(0));
    let (existed, action) = registry.remove_thread("t");
    assert!(existed);
    assert!(matches!(action, StorageAction::Delete(key) if key == "boardroom:thread:t"));
    let (existed, action) = registry.remove_thread("t");
    assert!(!existed);
    assert!(matches!(action, StorageAction::Keep));
    assert_eq!(registry.thread_count(), 0);
}

#[test]
fn participants_join_threads_that_exist() {
    let mut registry = registry();
    create(&mut registry, "t", at(0));
    let (known, action) = registry.add_participant("t", "a".to_string());
    assert!(known);
    assert!(matches!(action, StorageAction::Save { key, .. } if key == "boardroom:thread:t"));
    assert!(registry.get_thread("t").unwrap().participants.contains("a"));
    let (known, action) = registry.add_participant("u", "a".to_string());
    assert!(!known);
    assert!(matches!(action, StorageAction::Keep));
    assert_eq!(registry.thread_count(), 1);
}

#[test]
fn the_registry_trips_the_breaker() {
    let mut registry = registry();
    create(&mut registry, "t", at(0));
    create(&mut registry, "u", at(0));
    assert!(!registry.record_bot_message_at("t", at(1)).0);
    assert!(!registry.record_bot_message("t").0);
    let (tripped, action) = registry.record_bot_message_at("t", at(3));
    assert!(tripped);
    assert!(matches!(action, StorageAction::Save { key, .. } if key == "boardroom:thread:t"));
    assert_eq!(registry.get_thread("t").unwrap().last_activity, at(3));
    assert_eq!(registry.get_thread("u").unwrap().bot_streak, 0);
    let action = registry.record_human_message("t");
    assert!(matches!(action, StorageAction::Save { .. }));
    assert!(!registry.record_bot_message_at("t", at(4)).0);
    assert_eq!(registry.get_thread("t").unwrap().bot_streak, 1);
    let (tripped, action) = registry.record_bot_message("none");
    assert!(!tripped);
    assert!(matches!(action, StorageAction::Keep));
    assert!(matches!(registry.record_human_message_at("none", at(1)), StorageAction::Keep));
}

#[test]
fn idle_threads_are_cleaned_up() {
    let mut registry = registry();
    create(&mut registry, "old", at(0));
    create(&mut registry, "edge", at(1));
    create(&mut registry, "new", at(300));
    let removed = registry.cleanup_idle_threads_at(at(601));
    assert_eq!(removed, vec!["old"]);
    assert_eq!(registry.thread_count(), 2);
    assert!(registry.get_thread("edge").is_some());
    assert!(registry.cleanup_idle_threads_at(at(601)).is_empty());
    // By now all of them are.
    let mut removed = registry.cleanup_idle_threads();
    removed.sort();
    assert_eq!(removed, vec!["edge", "new"]);
    assert_eq!(registry.thread_count(), 0);
}
