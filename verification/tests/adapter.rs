use openfang_channels::adapter::{
    created_thread, gateway_url_of, thread_history, ApiRequest, DiscordAdapter, Method,
};
use openfang_channels::boardroom::BoardroomRegistry;
use openfang_channels::classifier::DomainClassifier;
use openfang_channels::gateway::{GatewayAction, GatewayEvent};
use openfang_channels::json::Json;
use openfang_channels::reaction::ReactionCoordinator;
use openfang_channels::registry::AdapterRegistry;
use openfang_channels::score::Score;
use openfang_channels::text_map::TextMap;
use openfang_channels::topic::TopicFilter;
use openfang_channels::types::{
    BoardroomConfig, ChannelContent, ChannelUser, ReactionConfig, TopicFilterConfig, TurnPolicy,
};
use std::sync::Arc;

fn adapter() -> DiscordAdapter {
    DiscordAdapter::new(
        "tok".to_string(),
        vec![],
        vec![],
        true,
        37376,
        true,
        vec![],
        TextMap::new(),
    )
}

fn user() -> ChannelUser {
    ChannelUser {
        platform_id: "c7".to_string(),
        display_name: "alice".to_string(),
        openfang_user: None,
    }
}

fn check(request: &ApiRequest, method: Method, url: &str) {
    assert_eq!(request.method, method);
    assert_eq!(request.url, url);
    assert_eq!(request.authorization, "Bot tok");
}

#[test]
fn requests_without_a_body() {
    let adapter = adapter();
    let bare = |request: ApiRequest, method: Method, url: &str| {
        check(&request, method, url);
        assert!(request.body.is_none());
    };
    bare(adapter.get_gateway_url(), Method::Get, "https://discord.com/api/v10/gateway/bot");
    bare(
        adapter.api_send_typing("c"),
        Method::Post,
        "https://discord.com/api/v10/channels/c/typing",
    );
    bare(
        adapter.send_typing(&user()),
        Method::Post,
        "https://discord.com/api/v10/channels/c7/typing",
    );
    bare(
        adapter.api_fetch_thread_history("t", 50),
        Method::Get,
        "https://discord.com/api/v10/channels/t/messages?limit=50",
    );
    bare(
        adapter.api_join_thread("t"),
        Method::Put,
        "https://discord.com/api/v10/channels/t/thread-members/@me",
    );
}

#[test]
fn reactions_are_percent_encoded() {
    let url = "https://discord.com/api/v10/channels/c/messages/m/reactions/%F0%9F%91%8D/@me";
    check(&adapter().api_add_reaction("c", "m", "\u{1f44d}"), Method::Put, url);
    check(&adapter().api_remove_reaction("c", "m", "\u{1f44d}"), Method::Delete, url);
    check(
        &adapter().api_add_reaction("c", "m", "a-Z_0.~:1/ ?"),
        Method::Put,
        "https://discord.com/api/v10/channels/c/messages/m/reactions/a-Z_0.~%3A1%2F%20%3F/@me",
    );
}

#[test]
fn threads_are_created() {
    let request = adapter().api_create_thread("c", "Room", None, None);
    check(&request, Method::Post, "https://discord.com/api/v10/channels/c/threads");
    assert_eq!(request.body.unwrap().to_string(), r#"{"name":"Room","type":11}"#);
    let request = adapter().api_create_thread("c", "Room", Some(60), Some("m"));
    assert_eq!(
        request.body.unwrap().to_string(),
        r#"{"auto_archive_duration":60,"message_id":"m","name":"Room","type":11}"#
    );
}

#[test]
fn texts_are_posted_in_pieces() {
    let requests = adapter().api_send_message("c", "hi \"you\"");
    assert_eq!(requests.len(), 1);
    check(&requests[0], Method::Post, "https://discord.com/api/v10/channels/c/messages");
    assert_eq!(requests[0].body.as_ref().unwrap()["content"].as_str(), Some("hi \"you\""));
    let long = "\u{e9}".repeat(4001);
    let requests = adapter().api_send_message("c", &long);
    assert_eq!(requests.len(), 3);
    let mut joined = String::new();
    for request in &requests {
        let piece = request.body.as_ref().unwrap()["content"].as_str().unwrap();
        assert!(piece.chars().count() <= 2000);
        joined.push_str(piece);
    }
    assert_eq!(joined, long);
}

#[test]
fn contents_are_sent_as_text() {
    let sent = |content: ChannelContent| {
        let requests = adapter().send(&user(), content);
        assert_eq!(requests.len(), 1);
        assert_eq!(requests[0].url, "https://discord.com/api/v10/channels/c7/messages");
        requests[0].body.as_ref().unwrap()["content"].as_str().unwrap().to_string()
    };
    assert_eq!(sent(ChannelContent::Text("hello".to_string())), "hello");
    assert_eq!(
        sent(ChannelContent::Command { name: "a".to_string(), args: vec![] }),
        "(Unsupported content type)"
    );
}

#[test]
fn the_gateway_url_is_read() {
    let reply = Json::parse(r#"{"url": "wss://gateway.discord.gg", "shards": 1}"#).unwrap();
    assert_eq!(
        gateway_url_of(&reply),
        Ok("wss://gateway.discord.gg/?v=10&encoding=json".to_string())
    );
    assert_eq!(gateway_url_of(&Json::Null), Err("Missing 'url' in gateway response".to_string()));
}

#[test]
fn the_new_thread_is_read() {
    assert_eq!(
        created_thread(Ok(Json::parse(r#"{"id": "42"}"#).unwrap())),
        Ok("42".to_string())
    );
    assert_eq!(
        created_thread(Ok(Json::parse(r#"{"id": 42}"#).unwrap())),
        Err("Missing thread ID in response".to_string())
    );
    assert_eq!(
        created_thread(Err("no".to_string())),
        Err("Discord createThread failed: no".to_string())
    );
}

#[test]
fn the_history_is_passed_on() {
    let reply: Vec<serde_json::Value> = serde_json::from_str("[null, 1.5]").unwrap();
    assert_eq!(thread_history(Ok(reply.clone())), Ok(reply));
    assert_eq!(
        thread_history(Err("no".to_string())).err(),
        Some("Discord fetchThreadHistory failed: no".to_string())
    );
}

#[test]
fn a_wiped_token_is_gone() {
    let mut adapter = adapter();
    let mut run = adapter.start("wss://g".to_string());
    adapter.wipe_token();
    assert_eq!(adapter.get_gateway_url().authorization, "Bot ");
    // The run has a token of its own.
    let hello = GatewayEvent::Text(r#"{"op": 10}"#.to_string());
    match run.step(&mut adapter.session, hello, false) {
        GatewayAction::SendHandshake(text) => assert!(text.contains(r#""token":"tok""#)),
        _ => panic!("no handshake"),
    }
    run.wipe_token();
    let hello = GatewayEvent::Text(r#"{"op": 10}"#.to_string());
    match run.step(&mut adapter.session, hello, false) {
        GatewayAction::SendHandshake(text) => assert!(text.contains(r#""token":"""#)),
        _ => panic!("no handshake"),
    }
}

#[test]
fn a_run_goes_by_the_settings_at_its_start() {
    let mut adapter = adapter();
    adapter.set_topic_filter(TopicFilter::new(TopicFilterConfig {
        keywords: vec!["tea".to_string()],
        negative_keywords: vec![],
        min_length: 0,
    }));
    let mut run = adapter.start("wss://g".to_string());
    let message = r#"{"op": 0, "t": "MESSAGE_CREATE", "d": {"channel_id": "c", "content": "Tea?",
        "author": {"id": "u"}}}"#;
    let action =
        run.step(&mut adapter.session, GatewayEvent::Text(message.to_string()), false);
    match action {
        GatewayAction::Deliver(msg) => {
            let relevance = msg.metadata.get("topic_relevance").and_then(|v| v.as_str());
            assert_eq!(relevance, Some("Yes"));
            let default = msg.metadata.get("is_default_agent").and_then(|v| v.as_bool());
            assert_eq!(default, Some(true));
        }
        _ => panic!("not delivered"),
    }
}

#[test]
fn the_ladder_is_attached() {
    let config = ReactionConfig {
        coordination_window_ms: 400,
        classifier_model: "model".to_string(),
        classifier_threshold: Score { bits: 0 },
        cleanup_reactions: false,
    };
    let boardroom = BoardroomRegistry::new(
        BoardroomConfig {
            default_turn_policy: TurnPolicy::Open,
            max_bot_streak: 1,
            idle_timeout_minutes: 1,
        },
        vec![],
    )
    .unwrap();
    let mut adapter = adapter();
    adapter.set_boardroom_registry(Arc::new(boardroom));
    adapter.set_reaction_coordinator(Arc::new(ReactionCoordinator::new(config.clone())));
    adapter.set_classifier(Arc::new(DomainClassifier::new(config)));
    adapter.set_adapter_registry(Arc::new(AdapterRegistry::new()));
    assert_eq!(adapter.name(), "discord");
    assert!(adapter.session.bot_user_id.is_none());
}
