use openfang_channels::adapter::DiscordAdapter;
use openfang_channels::discord::{
    parse_content, parse_discord_message, parse_discord_message_at, was_mentioned,
};
use openfang_channels::json::Json;
use openfang_channels::text_map::TextMap;
use openfang_channels::time::Timestamp;
use openfang_channels::topic::TopicFilter;
use openfang_channels::types::{ChannelContent, ChannelMessage, ChannelType, TopicFilterConfig};

fn json(text: &str) -> Json {
    Json::parse(text).unwrap()
}

fn bot(id: &str) -> Option<String> {
    Some(id.to_string())
}

fn no_peers() -> TextMap<String> {
    TextMap::new()
}

/// With the lists that a bot without further settings has.
fn parse(
    d: &Json,
    bot_id: &Option<String>,
    guilds: &[String],
    users: &[String],
    ignore_bots: bool,
) -> Option<ChannelMessage> {
    parse_discord_message(d, bot_id, guilds, users, ignore_bots, false, &[], &no_peers(), None)
}

fn flag(message: &ChannelMessage, key: &str) -> Option<bool> {
    message.metadata.get(key).and_then(|v| v.as_bool())
}

#[test]
fn test_parse_discord_message_basic() {
    let bot_id = bot("bot123");
    let d = json(
        r#"{
            "id": "msg1",
            "channel_id": "ch1",
            "content": "Hello agent!",
            "author": {
                "id": "user456",
                "username": "alice",
                "discriminator": "0",
                "bot": false
            },
            "timestamp": "2024-01-01T00:00:00+00:00"
        }"#,
    );

    let msg =
        parse_discord_message(&d, &bot_id, &[], &[], true, false, &[], &no_peers(), None).unwrap();
    assert_eq!(msg.channel, ChannelType::Discord);
    assert_eq!(msg.sender.display_name, "alice");
    assert_eq!(msg.sender.platform_id, "ch1");
    assert!(matches!(msg.content, ChannelContent::Text(ref t) if t == "Hello agent!"));
}

#[test]
fn test_parse_discord_message_filters_bot() {
    let bot_id = bot("bot123");
    let d = json(
        r#"{
            "id": "msg1",
            "channel_id": "ch1",
            "content": "My own message",
            "author": {
                "id": "bot123",
                "username": "openfang",
                "discriminator": "0"
            },
            "timestamp": "2024-01-01T00:00:00+00:00"
        }"#,
    );

    let msg = parse_discord_message(&d, &bot_id, &[], &[], true, false, &[], &no_peers(), None);
    assert!(msg.is_none());
}

#[test]
fn test_parse_discord_message_filters_other_bots() {
    let bot_id = bot("bot123");
    let d = json(
        r#"{
            "id": "msg1",
            "channel_id": "ch1",
            "content": "Bot message",
            "author": {
                "id": "other_bot",
                "username": "somebot",
                "discriminator": "0",
                "bot": true
            },
            "timestamp": "2024-01-01T00:00:00+00:00"
        }"#,
    );

    let msg = parse_discord_message(&d, &bot_id, &[], &[], true, false, &[], &no_peers(), None);
    assert!(msg.is_none());
}

#[test]
fn test_parse_discord_ignore_bots_false_allows_other_bots() {
    let bot_id = bot("bot123");
    let d = json(
        r#"{
            "id": "msg1",
            "channel_id": "ch1",
            "content": "Bot message",
            "author": {
                "id": "other_bot",
                "username": "somebot",
                "discriminator": "0",
                "bot": true
            },
            "timestamp": "2024-01-01T00:00:00+00:00"
        }"#,
    );

    // With ignore_bots=false, other bots' messages should be allowed
    let msg = parse_discord_message(&d, &bot_id, &[], &[], false, false, &[], &no_peers(), None);
    assert!(msg.is_some());
    let msg = msg.unwrap();
    assert_eq!(msg.sender.display_name, "somebot");
    assert!(matches!(msg.content, ChannelContent::Text(ref t) if t == "Bot message"));
}

#[test]
fn test_parse_discord_ignore_bots_false_still_filters_self() {
    let bot_id = bot("bot123");
    let d = json(
        r#"{
            "id": "msg1",
            "channel_id": "ch1",
            "content": "My own message",
            "author": {
                "id": "bot123",
                "username": "openfang",
                "discriminator": "0",
                "bot": true
            },
            "timestamp": "2024-01-01T00:00:00+00:00"
        }"#,
    );

    // Even with ignore_bots=false, the bot's own messages must still be filtered
    let msg = parse_discord_message(&d, &bot_id, &[], &[], false, false, &[], &no_peers(), None);
    assert!(msg.is_none());
}

#[test]
fn test_parse_discord_message_guild_filter() {
    let bot_id = bot("bot123");
    let d = json(
        r#"{
            "id": "msg1",
            "channel_id": "ch1",
            "guild_id": "999",
            "content": "Hello",
            "author": {
                "id": "user1",
                "username": "bob",
                "discriminator": "0"
            },
            "timestamp": "2024-01-01T00:00:00+00:00"
        }"#,
    );

    // Not in allowed guilds
    let msg = parse_discord_message(
        &d,
        &bot_id,
        &["111".into(), "222".into()],
        &[],
        true,
        false,
        &[],
        &no_peers(),
        None,
    );
    assert!(msg.is_none());

    // In allowed guilds
    let msg = parse_discord_message(
        &d,
        &bot_id,
        &["999".into()],
        &[],
        true,
        false,
        &[],
        &no_peers(),
        None,
    );
    assert!(msg.is_some());
}

#[test]
fn test_parse_discord_command() {
    let bot_id = None;
    let d = json(
        r#"{
            "id": "msg1",
            "channel_id": "ch1",
            "content": "/agent hello-world",
            "author": {
                "id": "user1",
                "username": "alice",
                "discriminator": "0"
            },
            "timestamp": "2024-01-01T00:00:00+00:00"
        }"#,
    );

    let msg = parse(&d, &bot_id, &[], &[], true).unwrap();
    match &msg.content {
        ChannelContent::Command { name, args } => {
            assert_eq!(name, "agent");
            assert_eq!(args, &["hello-world"]);
        }
        other => panic!("Expected Command, got {other:?}"),
    }
}

#[test]
fn test_parse_discord_empty_content() {
    let bot_id = None;
    let d = json(
        r#"{
            "id": "msg1",
            "channel_id": "ch1",
            "content": "",
            "author": {
                "id": "user1",
                "username": "alice",
                "discriminator": "0"
            },
            "timestamp": "2024-01-01T00:00:00+00:00"
        }"#,
    );

    let msg = parse(&d, &bot_id, &[], &[], true);
    assert!(msg.is_none());
}

#[test]
fn test_parse_discord_discriminator() {
    let bot_id = None;
    let d = json(
        r#"{
            "id": "msg1",
            "channel_id": "ch1",
            "content": "Hi",
            "author": {
                "id": "user1",
                "username": "alice",
                "discriminator": "1234"
            },
            "timestamp": "2024-01-01T00:00:00+00:00"
        }"#,
    );

    let msg = parse(&d, &bot_id, &[], &[], true).unwrap();
    assert_eq!(msg.sender.display_name, "alice#1234");
}

#[test]
fn test_parse_discord_message_update() {
    let bot_id = bot("bot123");
    let d = json(
        r#"{
            "id": "msg1",
            "channel_id": "ch1",
            "content": "Edited message content",
            "author": {
                "id": "user456",
                "username": "alice",
                "discriminator": "0",
                "bot": false
            },
            "timestamp": "2024-01-01T00:00:00+00:00",
            "edited_timestamp": "2024-01-01T00:01:00+00:00"
        }"#,
    );

    // MESSAGE_UPDATE uses the same parse function as MESSAGE_CREATE
    let msg = parse(&d, &bot_id, &[], &[], true).unwrap();
    assert_eq!(msg.channel, ChannelType::Discord);
    assert!(matches!(msg.content, ChannelContent::Text(ref t) if t == "Edited message content"));
}

#[test]
fn test_parse_discord_allowed_users_filter() {
    let bot_id = bot("bot123");
    let d = json(
        r#"{
            "id": "msg1",
            "channel_id": "ch1",
            "content": "Hello",
            "author": {
                "id": "user999",
                "username": "bob",
                "discriminator": "0"
            },
            "timestamp": "2024-01-01T00:00:00+00:00"
        }"#,
    );

    // Not in allowed users
    let msg = parse(&d, &bot_id, &[], &["user111".into(), "user222".into()], true);
    assert!(msg.is_none());

    // In allowed users
    let msg = parse(&d, &bot_id, &[], &["user999".into()], true);
    assert!(msg.is_some());

    // Empty allowed_users = allow all
    let msg = parse(&d, &bot_id, &[], &[], true);
    assert!(msg.is_some());
}

#[test]
fn test_parse_discord_mention_detection() {
    let bot_id = bot("bot123");

    // Message with bot mentioned in mentions array
    let d = json(
        r#"{
            "id": "msg1",
            "channel_id": "ch1",
            "guild_id": "guild1",
            "content": "Hey <@bot123> help me",
            "mentions": [{"id": "bot123", "username": "openfang"}],
            "author": {
                "id": "user1",
                "username": "alice",
                "discriminator": "0"
            },
            "timestamp": "2024-01-01T00:00:00+00:00"
        }"#,
    );

    let msg = parse(&d, &bot_id, &[], &[], true).unwrap();
    assert!(msg.is_group);
    assert_eq!(msg.metadata.get("was_mentioned").and_then(|v| v.as_bool()), Some(true));

    // Message without mention in group
    let d2 = json(
        r#"{
            "id": "msg2",
            "channel_id": "ch1",
            "guild_id": "guild1",
            "content": "Just chatting",
            "author": {
                "id": "user1",
                "username": "alice",
                "discriminator": "0"
            },
            "timestamp": "2024-01-01T00:00:00+00:00"
        }"#,
    );

    let msg2 = parse(&d2, &bot_id, &[], &[], true).unwrap();
    assert!(msg2.is_group);
    assert!(!msg2.metadata.contains_key("was_mentioned"));
}

#[test]
fn test_parse_discord_dm_not_group() {
    let bot_id = None;
    let d = json(
        r#"{
            "id": "msg1",
            "channel_id": "dm-ch1",
            "content": "Hello",
            "author": {
                "id": "user1",
                "username": "alice",
                "discriminator": "0"
            },
            "timestamp": "2024-01-01T00:00:00+00:00"
        }"#,
    );

    let msg = parse(&d, &bot_id, &[], &[], true).unwrap();
    assert!(!msg.is_group);
}

#[test]
fn test_discord_adapter_creation() {
    let adapter = DiscordAdapter::new(
        "test-token".to_string(),
        vec!["123".to_string(), "456".to_string()],
        vec![],
        true,
        37376,
        false,
        vec![],
        TextMap::new(),
    );
    assert_eq!(adapter.name(), "discord");
    assert_eq!(adapter.channel_type(), ChannelType::Discord);
}

fn from_bot(id: &str, content: &str) -> Json {
    Json::object()
        .with("channel_id", Json::Text("ch1".to_string()))
        .with("content", Json::Text(content.to_string()))
        .with(
            "author",
            Json::object()
                .with("id", Json::Text(id.to_string()))
                .with("bot", Json::Bool(true)),
        )
}

#[test]
fn peer_bots_are_heard_only_when_they_mention() {
    let mut peers = TextMap::new();
    peers.insert("helper".to_string(), "peer7".to_string());
    let heard = |d: &Json, ignore_bots: bool| {
        parse_discord_message(d, &bot("b1"), &[], &[], ignore_bots, false, &[], &peers, None)
            .is_some()
    };
    for ignore_bots in [true, false] {
        assert!(!heard(&from_bot("peer7", "hello"), ignore_bots));
        assert!(heard(&from_bot("peer7", "hello <@b1>"), ignore_bots));
        assert!(heard(&from_bot("peer7", "hello <@!b1>"), ignore_bots));
    }
    // The agent's name is not the Discord ID.
    assert!(!heard(&from_bot("helper", "hello <@b1>"), true));
    assert!(heard(&from_bot("helper", "hello"), false));
}

#[test]
fn passive_channels_need_a_mention() {
    let passive = vec!["ch1".to_string()];
    let heard = |d: &Json| {
        parse_discord_message(d, &bot("b1"), &[], &[], false, false, &passive, &no_peers(), None)
            .is_some()
    };
    assert!(!heard(&from_bot("u", "hello")));
    assert!(!heard(&from_bot("u", "hello <@b2>")));
    assert!(heard(&from_bot("u", "hello <@b1>")));
    let elsewhere = from_bot("u", "hello").with("channel_id", Json::Text("ch2".to_string()));
    assert!(heard(&elsewhere));
}

#[test]
fn mentions_are_found_in_list_and_text() {
    let d = json(r#"{"content": "hi", "mentions": [{"id": "x"}, 3, {"id": "b1"}]}"#);
    assert!(was_mentioned(&d, "b1"));
    assert!(was_mentioned(&d, "x"));
    assert!(!was_mentioned(&d, "b"));
    assert!(!was_mentioned(&json(r#"{"content": "<@b1"}"#), "b1"));
    assert!(was_mentioned(&json(r#"{"content": "<@!b1>"}"#), "b1"));
    assert!(!was_mentioned(&json(r#"{"mentions": {"id": "b1"}}"#), "b1"));
}

#[test]
fn incomplete_payloads_are_dropped() {
    let dropped = |text: &str| parse(&json(text), &None, &[], &[], false).is_none();
    assert!(dropped("null"));
    assert!(dropped("{}"));
    assert!(dropped(r#"{"content": "x", "channel_id": "c"}"#));
    assert!(dropped(r#"{"content": "x", "channel_id": "c", "author": null}"#));
    assert!(dropped(r#"{"content": "x", "channel_id": "c", "author": {"id": 5}}"#));
    assert!(dropped(r#"{"content": "x", "author": {"id": "u"}}"#));
    assert!(dropped(r#"{"content": 1, "channel_id": "c", "author": {"id": "u"}}"#));
    assert!(!dropped(r#"{"content": "x", "channel_id": "c", "author": {"id": "u"}}"#));
}

#[test]
fn what_is_missing_is_filled_in() {
    let now = Timestamp { seconds: 77, nanos: 5 };
    let d = json(r#"{"content": "x", "channel_id": "c", "author": {"id": "u"}}"#);
    let msg =
        parse_discord_message_at(&d, &None, &[], &[], true, true, &[], &no_peers(), None, now)
            .unwrap();
    assert_eq!(msg.platform_message_id, "0");
    assert_eq!(msg.sender.display_name, "Unknown#0000");
    assert_eq!(msg.sender.openfang_user, None);
    assert_eq!(msg.timestamp, now);
    assert_eq!(msg.target_agent, None);
    assert_eq!(msg.thread_id, None);
    assert_eq!(flag(&msg, "is_default_agent"), Some(true));
    assert!(!msg.metadata.contains_key("topic_relevance"));
}

#[test]
fn stated_times_are_kept() {
    let now = Timestamp { seconds: 77, nanos: 5 };
    let time = |text: &str| {
        let d = json(r#"{"content": "x", "channel_id": "c", "author": {"id": "u"}}"#)
            .with("timestamp", Json::Text(text.to_string()));
        parse_discord_message_at(&d, &None, &[], &[], true, false, &[], &no_peers(), None, now)
            .unwrap()
            .timestamp
    };
    assert_eq!(time("2024-01-01T00:00:00+00:00"), Timestamp { seconds: 1_704_067_200, nanos: 0 });
    assert_eq!(
        time("2024-01-01T02:00:00.25+02:00"),
        Timestamp { seconds: 1_704_067_200, nanos: 250_000_000 }
    );
    assert_eq!(time("yesterday"), now);
}

#[test]
fn messages_without_a_time_get_the_current_one() {
    let d = json(r#"{"content": "x", "channel_id": "c", "author": {"id": "u"}}"#);
    let msg = parse(&d, &None, &[], &[], true).unwrap();
    assert!(msg.timestamp.seconds > 1_600_000_000);
}

#[test]
fn a_filter_judges_the_topic() {
    let filter = TopicFilter::new(TopicFilterConfig {
        keywords: vec!["Rust".to_string()],
        negative_keywords: vec![],
        min_length: 1,
    });
    let relevance = |content: &str| {
        let d = from_bot("u", content);
        let msg = parse_discord_message(
            &d,
            &None,
            &[],
            &[],
            false,
            false,
            &[],
            &no_peers(),
            Some(&filter),
        )
        .unwrap();
        assert_eq!(flag(&msg, "is_default_agent"), Some(false));
        msg.metadata.get("topic_relevance").and_then(|v| v.as_str()).unwrap().to_string()
    };
    assert_eq!(relevance("I like RUST"), "Yes");
    assert_eq!(relevance("I like tea"), "Unknown");
}

#[test]
fn a_message_outside_servers_passes_every_list_of_servers() {
    let d = from_bot("u", "x");
    assert!(parse(&d, &None, &["g".to_string()], &[], false).is_some());
    let d = d.with("guild_id", Json::Text("h".to_string()));
    assert!(parse(&d, &None, &["g".to_string()], &[], false).is_none());
}

#[test]
fn commands_have_names_and_arguments() {
    let command = |text: &str| match parse_content(text) {
        ChannelContent::Command { name, args } => (name, args),
        other => panic!("{other:?}"),
    };
    let none: Vec<String> = vec![];
    assert_eq!(command("/a  b\tc\n"), ("a".to_string(), vec!["b".to_string(), "c".to_string()]));
    assert_eq!(command("/a"), ("a".to_string(), none.clone()));
    assert_eq!(command("/"), ("".to_string(), none.clone()));
    assert_eq!(command("/ b"), ("".to_string(), vec!["b".to_string()]));
    assert_eq!(command("/a\tb"), ("a\tb".to_string(), none));
    assert!(matches!(parse_content(" /a"), ChannelContent::Text(ref t) if t == " /a"));
}
