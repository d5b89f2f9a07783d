use openfang_channels::gateway::{
    gateway_handshake, gateway_heartbeat, with_version, GatewayAction, GatewayEvent, GatewayRun,
    GatewaySession, GatewaySettings,
};
use openfang_channels::json::Json;
use openfang_channels::text_map::TextMap;
use openfang_channels::time::Timestamp;
use openfang_channels::types::ChannelContent;

const NOW: Timestamp = Timestamp { seconds: 100, nanos: 0 };

fn settings() -> GatewaySettings {
    GatewaySettings {
        token: "tok".to_string(),
        allowed_guilds: vec![],
        allowed_users: vec![],
        ignore_bots: true,
        intents: 37376,
        default: false,
        passive_channels: vec![],
        peers: TextMap::new(),
        topic_filter: None,
    }
}

fn run() -> (GatewayRun, GatewaySession) {
    (GatewayRun::new(settings(), "wss://gateway".to_string()), GatewaySession::new())
}

fn text(run: &mut GatewayRun, session: &mut GatewaySession, text: &str) -> GatewayAction {
    run.step(session, GatewayEvent::Text(text.to_string()), false)
}

fn ready(run: &mut GatewayRun, session: &mut GatewaySession) {
    let action = text(
        run,
        session,
        r#"{"op": 0, "s": 7, "t": "READY", "d": {"user": {"id": "b1", "username": "bot"},
            "session_id": "sid", "resume_gateway_url": "wss://resume"}}"#,
    );
    assert!(matches!(action, GatewayAction::Receive));
}

fn handshake(action: GatewayAction) -> Json {
    match action {
        GatewayAction::SendHandshake(text) => Json::parse(&text).unwrap(),
        _ => panic!("no handshake"),
    }
}

fn slept(action: GatewayAction) -> u64 {
    match action {
        GatewayAction::Sleep(ms) => ms,
        _ => panic!("no wait"),
    }
}

fn connect(action: GatewayAction) -> String {
    match action {
        GatewayAction::Connect(url) => url,
        _ => panic!("no connection"),
    }
}

const HELLO: &str = r#"{"op": 10, "d": {"heartbeat_interval": 41250}}"#;

#[test]
fn a_run_connects_first() {
    let (mut run, mut session) = run();
    assert_eq!(connect(run.step(&mut session, GatewayEvent::Started, false)), "wss://gateway");
    assert!(matches!(
        run.step(&mut session, GatewayEvent::Connected, false),
        GatewayAction::Receive
    ));
}

#[test]
fn a_new_session_identifies() {
    let (mut run, mut session) = run();
    let message = handshake(text(&mut run, &mut session, HELLO));
    assert_eq!(run.heartbeat_interval(), Some(41250));
    assert_eq!(message.field_number("op"), Some(2));
    let d = message.field("d").unwrap();
    assert_eq!(d.field_text("token"), Some("tok"));
    assert_eq!(d.field_number("intents"), Some(37376));
    let properties = d.field("properties").unwrap();
    assert_eq!(properties.field_text("os"), Some("linux"));
    assert_eq!(properties.field_text("browser"), Some("openfang"));
    assert_eq!(properties.field_text("device"), Some("openfang"));
    assert!(matches!(
        run.step(&mut session, GatewayEvent::HandshakeSent(true), false),
        GatewayAction::Receive
    ));
}

#[test]
fn the_heartbeat_interval_has_a_default() {
    let (mut run, mut session) = run();
    text(&mut run, &mut session, r#"{"op": 10}"#);
    assert_eq!(run.heartbeat_interval(), Some(45000));
    run.step(&mut session, GatewayEvent::Connected, false);
    assert_eq!(run.heartbeat_interval(), None);
}

#[test]
fn a_known_session_is_resumed() {
    let (mut run, mut session) = run();
    ready(&mut run, &mut session);
    assert_eq!(session.bot_user_id, Some("b1".to_string()));
    assert_eq!(run.sequence(), Some(7));
    assert_eq!(slept(run.step(&mut session, GatewayEvent::Disconnected, false)), 1000);
    assert_eq!(
        connect(run.step(&mut session, GatewayEvent::Slept, false)),
        "wss://resume/?v=10&encoding=json"
    );
    run.step(&mut session, GatewayEvent::Connected, false);
    let message = handshake(text(&mut run, &mut session, HELLO));
    assert_eq!(message.field_number("op"), Some(6));
    let d = message.field("d").unwrap();
    assert_eq!(d.field_text("token"), Some("tok"));
    assert_eq!(d.field_text("session_id"), Some("sid"));
    assert_eq!(d.field_number("seq"), Some(7));
}

#[test]
fn handshakes_need_both_session_and_sequence() {
    let op = |session_id: Option<String>, sequence: Option<u64>| {
        gateway_handshake(&settings(), &session_id, sequence).field_number("op")
    };
    assert_eq!(op(Some("s".to_string()), Some(0)), Some(6));
    assert_eq!(op(Some("s".to_string()), None), Some(2));
    assert_eq!(op(None, Some(0)), Some(2));
    assert_eq!(op(None, None), Some(2));
}

#[test]
fn a_ready_event_without_a_resume_url_keeps_the_old_one() {
    let (mut run, mut session) = run();
    ready(&mut run, &mut session);
    text(&mut run, &mut session, r#"{"op": 0, "t": "READY", "d": {}}"#);
    assert_eq!(session.bot_user_id, Some("".to_string()));
    assert_eq!(session.session_id, Some("".to_string()));
    assert_eq!(session.resume_gateway_url, Some("wss://resume".to_string()));
}

#[test]
fn an_invalid_session_is_started_anew() {
    let (mut run, mut session) = run();
    ready(&mut run, &mut session);
    assert_eq!(slept(text(&mut run, &mut session, r#"{"op": 9, "d": false}"#)), 1000);
    assert_eq!(session.session_id, None);
    assert_eq!(run.sequence(), None);
    assert_eq!(session.bot_user_id, Some("b1".to_string()));
    run.step(&mut session, GatewayEvent::Connected, false);
    let hello = r#"{"op": 10, "s": 3, "d": {}}"#;
    let message = handshake(text(&mut run, &mut session, hello));
    assert_eq!(message.field_number("op"), Some(2));
}

#[test]
fn a_resumable_session_is_kept() {
    let (mut run, mut session) = run();
    ready(&mut run, &mut session);
    assert_eq!(slept(text(&mut run, &mut session, r#"{"op": 9, "d": true}"#)), 1000);
    assert_eq!(session.session_id, Some("sid".to_string()));
    assert_eq!(run.sequence(), Some(7));
}

#[test]
fn a_request_to_reconnect_is_followed() {
    let (mut run, mut session) = run();
    assert_eq!(slept(text(&mut run, &mut session, r#"{"op": 7, "d": null}"#)), 1000);
    assert_eq!(connect(run.step(&mut session, GatewayEvent::Slept, false)), "wss://gateway");
}

#[test]
fn waits_double_up_to_a_minute() {
    let (mut run, mut session) = run();
    let mut waits = vec![];
    for _ in 0..8 {
        waits.push(slept(run.step(&mut session, GatewayEvent::ConnectFailed, false)));
        connect(run.step(&mut session, GatewayEvent::Slept, false));
    }
    assert_eq!(waits, vec![1000, 2000, 4000, 8000, 16000, 32000, 60000, 60000]);
    run.step(&mut session, GatewayEvent::Connected, false);
    assert_eq!(slept(run.step(&mut session, GatewayEvent::Disconnected, false)), 1000);
    assert_eq!(slept(run.step(&mut session, GatewayEvent::ConnectFailed, false)), 2000);
}

#[test]
fn heartbeats_are_answered() {
    let (mut run, mut session) = run();
    let mut beat = || match run.step(
        &mut session,
        GatewayEvent::Text(r#"{"op": 1, "d": null}"#.to_string()),
        false,
    ) {
        GatewayAction::SendHeartbeat(text) => text,
        _ => panic!("no heartbeat"),
    };
    assert_eq!(beat(), r#"{"d":null,"op":1}"#);
    text(&mut run, &mut session, r#"{"op": 11, "s": 12}"#);
    assert_eq!(run.sequence(), Some(12));
    match text(&mut run, &mut session, r#"{"op": 1}"#) {
        GatewayAction::SendHeartbeat(text) => assert_eq!(text, r#"{"d":12,"op":1}"#),
        _ => panic!("no heartbeat"),
    }
    assert!(matches!(
        run.step(&mut session, GatewayEvent::HeartbeatSent, false),
        GatewayAction::Receive
    ));
    assert_eq!(gateway_heartbeat(Some(3)).field_number("d"), Some(3));
}

fn message(kind: &str, author: &str) -> String {
    format!(
        r#"{{"op": 0, "s": 8, "t": "{kind}", "d": {{"id": "m", "channel_id": "c",
            "content": "hello", "author": {{"id": "{author}", "username": "alice",
            "discriminator": "0"}}, "timestamp": "2024-01-01T00:00:00+00:00"}}}}"#
    )
}

#[test]
fn new_and_edited_messages_are_delivered() {
    for kind in ["MESSAGE_CREATE", "MESSAGE_UPDATE"] {
        let (mut run, mut session) = run();
        ready(&mut run, &mut session);
        match text(&mut run, &mut session, &message(kind, "u1")) {
            GatewayAction::Deliver(msg) => {
                assert_eq!(msg.sender.display_name, "alice");
                assert!(matches!(msg.content, ChannelContent::Text(ref t) if t == "hello"));
            }
            _ => panic!("{kind} was not delivered"),
        }
        assert_eq!(run.sequence(), Some(8));
        assert!(matches!(
            run.step(&mut session, GatewayEvent::Delivered(true), false),
            GatewayAction::Receive
        ));
        assert!(matches!(
            run.step(&mut session, GatewayEvent::Delivered(false), false),
            GatewayAction::Stop
        ));
    }
}

#[test]
fn own_messages_are_not_delivered() {
    let (mut run, mut session) = run();
    // Before READY the bot does not know itself.
    let own = message("MESSAGE_CREATE", "b1");
    assert!(matches!(text(&mut run, &mut session, &own), GatewayAction::Deliver(_)));
    ready(&mut run, &mut session);
    assert!(matches!(text(&mut run, &mut session, &own), GatewayAction::Receive));
}

#[test]
fn settings_filter_messages() {
    let mut settings = settings();
    settings.allowed_users = vec!["u2".to_string()];
    settings.peers.insert("a".to_string(), "p".to_string());
    let copy = settings.clone();
    assert_eq!(copy.allowed_users, vec!["u2"]);
    assert!(copy.peers.get("a").is_some_and(|id| id == "p"));
    let mut run = GatewayRun::new(copy, "u".to_string());
    let mut session = GatewaySession::new();
    let refused = text(&mut run, &mut session, &message("MESSAGE_CREATE", "u1"));
    assert!(matches!(refused, GatewayAction::Receive));
    let heard = text(&mut run, &mut session, &message("MESSAGE_CREATE", "u2"));
    assert!(matches!(heard, GatewayAction::Deliver(_)));
}

#[test]
fn other_messages_are_passed_over() {
    let (mut run, mut session) = run();
    for unknown in [
        "no document",
        "{}",
        r#"{"op": 3}"#,
        r#"{"op": "10"}"#,
        r#"{"op": 0, "t": "RESUMED", "d": {}}"#,
        r#"{"op": 0, "t": "TYPING_START"}"#,
        r#"{"op": 0}"#,
    ] {
        assert!(matches!(text(&mut run, &mut session, unknown), GatewayAction::Receive));
    }
    assert_eq!(run.sequence(), None);
    assert!(matches!(run.step(&mut session, GatewayEvent::Other, false), GatewayAction::Receive));
}

#[test]
fn a_failed_handshake_reconnects() {
    let (mut run, mut session) = run();
    assert_eq!(slept(run.step(&mut session, GatewayEvent::HandshakeSent(false), false)), 1000);
}

#[test]
fn shutdown_ends_the_run() {
    let (mut run, mut session) = run();
    for event in [GatewayEvent::Started, GatewayEvent::Slept, GatewayEvent::Disconnected] {
        assert!(matches!(run.step(&mut session, event, true), GatewayAction::Stop));
    }
    assert!(matches!(
        run.step(&mut session, GatewayEvent::ShutdownChanged, true),
        GatewayAction::Close
    ));
    assert!(matches!(
        run.step(&mut session, GatewayEvent::ShutdownChanged, false),
        GatewayAction::Receive
    ));
    assert!(matches!(
        run.step(&mut session, GatewayEvent::Text(r#"{"op": 7}"#.to_string()), true),
        GatewayAction::Stop
    ));
}

#[test]
fn a_message_without_a_time_gets_the_given_one() {
    let (mut run, mut session) = run();
    let payload = Json::parse(
        r#"{"op": 0, "t": "MESSAGE_CREATE", "d": {"channel_id": "c", "content": "x",
            "author": {"id": "u"}}}"#,
    )
    .unwrap();
    match run.receive_at(&mut session, &payload, false, NOW) {
        GatewayAction::Deliver(msg) => assert_eq!(msg.timestamp, NOW),
        _ => panic!("not delivered"),
    }
    let event = GatewayEvent::Text(payload.render());
    match run.step_at(&mut session, event, false, NOW) {
        GatewayAction::Deliver(msg) => assert_eq!(msg.timestamp, NOW),
        _ => panic!("not delivered"),
    }
}

#[test]
fn urls_carry_version_and_encoding() {
    assert_eq!(with_version("wss://x"), "wss://x/?v=10&encoding=json");
}
