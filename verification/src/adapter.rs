//! The Discord adapter: its settings, and the requests that it makes to the REST
//! API.
//!
//! A method that talks to the API says which request is to be made; what the
//! reply comes to is said by a function of its own.

use crate::boardroom::{BoardroomRegistry, BoardroomView};
use crate::classifier::{ClassifierView, DomainClassifier};
use crate::discord::peer_ids;
use crate::gateway::{
    versioned_url, wipe, with_version, GatewayRun, GatewaySession, GatewaySettings, RunView, SessionView,
    SettingsView, INITIAL_BACKOFF_MS,
};
use crate::json::{json_view, Json, JsonView};
use crate::reaction::{CoordinatorView, ReactionCoordinator};
use crate::registry::AdapterRegistry;
use crate::text::{decimal, decimal_text, join, join3, texts};
use crate::text_map::TextMap;
use crate::topic::TopicFilter;
use crate::types::{
    law_pieces_restore_the_text, pieces, split_message, ChannelContent, ChannelType, ChannelUser,
    ContentView,
};
use std::sync::Arc;
use vstd::prelude::*;
use vstd::utf8::encode_utf8;

verus! {

/// What the URLs of the REST API begin with.
pub const DISCORD_API_BASE: &'static str = "https://discord.com/api/v10";

/// Longest message that Discord takes, in characters.
pub const DISCORD_MSG_LIMIT: usize = 2000;

/// Discord's number for public threads.
pub const PUBLIC_THREAD: u64 = 11;

/// The method of a request.
#[derive(Debug, Clone, Copy, PartialEq, Eq, Structural)]
pub enum Method {
    Get,
    Post,
    Put,
    Delete,
}

/// A request to the REST API.
pub struct ApiRequest {
    pub method: Method,
    pub url: String,
    /// The `Authorization` header.
    pub authorization: String,
    /// The JSON body, where there is one.
    pub body: Option<serde_json::Value>,
}

/// The model of an [`ApiRequest`].
pub struct RequestView {
    pub method: Method,
    pub url: Seq<char>,
    pub authorization: Seq<char>,
    pub body: Option<JsonView>,
}

impl View for ApiRequest {
    type V = RequestView;

    open spec fn view(&self) -> RequestView {
        RequestView {
            method: self.method,
            url: self.url@,
            authorization: self.authorization@,
            body: match self.body {
                Some(value) => Some(json_view(value)),
                None => None,
            },
        }
    }
}

/// The models of requests.
pub open spec fn request_views(requests: Seq<ApiRequest>) -> Seq<RequestView> {
    requests.map_values(|r: ApiRequest| r@)
}

/// The URL of a channel's messages, threads or the like.
pub open spec fn channel_url(channel_id: Seq<char>, rest: Seq<char>) -> Seq<char> {
    DISCORD_API_BASE@ + "/channels/"@ + channel_id + rest
}

/// The bytes that a percent-encoded text shows as they are: ASCII letters and
/// digits, `-`, `.`, `_` and `~`.
pub open spec fn unreserved(byte: u8) -> bool {
    ||| 0x30 <= byte <= 0x39
    ||| 0x41 <= byte <= 0x5a
    ||| 0x61 <= byte <= 0x7a
    ||| byte == 0x2d
    ||| byte == 0x2e
    ||| byte == 0x5f
    ||| byte == 0x7e
}

/// A hexadecimal digit, in upper case.
pub open spec fn hex_digit(digit: int) -> char {
    if digit < 10 {
        (0x30 + digit) as char
    } else {
        (0x41 - 10 + digit) as char
    }
}

/// How percent-encoding shows a byte.
pub open spec fn encoded_byte(byte: u8) -> Seq<char> {
    if unreserved(byte) {
        seq![byte as char]
    } else {
        seq!['%', hex_digit(byte as int / 16), hex_digit(byte as int % 16)]
    }
}

/// How percent-encoding shows a sequence of bytes.
pub open spec fn percent_encoded(bytes: Seq<u8>) -> Seq<char> {
    bytes.map_values(|byte: u8| encoded_byte(byte)).flatten()
}

/// The URL of the bot's own reaction to a message.
pub open spec fn reaction_url(
    channel_id: Seq<char>,
    message_id: Seq<char>,
    emoji: Seq<char>,
) -> Seq<char> {
    channel_url(
        channel_id,
        "/messages/"@ + message_id + "/reactions/"@ + percent_encoded(encode_utf8(emoji))
            + "/@me"@,
    )
}

/// A field that is there only where it has a value.
pub open spec fn with_optional(
    entries: Map<Seq<char>, JsonView>,
    key: Seq<char>,
    value: Option<JsonView>,
) -> Map<Seq<char>, JsonView> {
    match value {
        Some(value) => entries.insert(key, value),
        None => entries,
    }
}

/// The body of a request for a new thread.
pub open spec fn thread_body(
    name: Seq<char>,
    auto_archive_duration: Option<u64>,
    message_id: Option<Seq<char>>,
) -> JsonView {
    let named = Map::empty().insert("name"@, JsonView::Text(name)).insert(
        "type"@,
        JsonView::Number(Some(PUBLIC_THREAD)),
    );
    let timed = with_optional(
        named,
        "auto_archive_duration"@,
        match auto_archive_duration {
            Some(duration) => Some(JsonView::Number(Some(duration))),
            None => None,
        },
    );
    JsonView::Object(
        with_optional(
            timed,
            "message_id"@,
            match message_id {
                Some(id) => Some(JsonView::Text(id)),
                None => None,
            },
        ),
    )
}

/// The body of a request to post a text.
pub open spec fn message_body(text: Seq<char>) -> JsonView {
    JsonView::Object(Map::empty().insert("content"@, JsonView::Text(text)))
}

/// The text that is posted for a content.
pub open spec fn sent_text(content: ContentView) -> Seq<char> {
    match content {
        ContentView::Text(text) => text,
        _ => "(Unsupported content type)"@,
    }
}

/// The model of a [`DiscordAdapter`].
pub struct AdapterView {
    pub settings: SettingsView,
    pub session: SessionView,
    pub boardroom_registry: Option<BoardroomView>,
    pub reaction_coordinator: Option<CoordinatorView>,
    pub classifier: Option<ClassifierView>,
    pub adapter_registry: Option<Map<(Option<Seq<char>>, Seq<char>), u64>>,
}

impl AdapterView {
    /// A request with the bot's token.
    pub open spec fn request(
        self,
        method: Method,
        url: Seq<char>,
        body: Option<JsonView>,
    ) -> RequestView {
        RequestView { method, url, authorization: "Bot "@ + self.settings.token, body }
    }

    /// The requests that post a text: one for each of its pieces.
    pub open spec fn posts(self, channel_id: Seq<char>, text: Seq<char>) -> Seq<RequestView> {
        pieces(text, DISCORD_MSG_LIMIT as nat).map_values(
            |piece: Seq<char>|
                self.request(
                    Method::Post,
                    channel_url(channel_id, "/messages"@),
                    Some(message_body(piece)),
                ),
        )
    }
}

/// Discord Gateway adapter.
pub struct DiscordAdapter {
    settings: GatewaySettings,
    /// What is known of the bot's session.
    pub session: GatewaySession,
    /// Boardroom registry for thread management.
    boardroom_registry: Option<Arc<BoardroomRegistry>>,
    /// Reaction coordinator for Tier 2-3 ladder coordination.
    reaction_coordinator: Option<Arc<ReactionCoordinator>>,
    /// Domain classifier for Tier 3 ambiguous cases.
    classifier: Option<Arc<DomainClassifier>>,
    /// Adapter registry for multi-bot token mapping.
    adapter_registry: Option<Arc<AdapterRegistry>>,
}

impl View for DiscordAdapter {
    type V = AdapterView;

    closed spec fn view(&self) -> AdapterView {
        AdapterView {
            settings: self.settings@,
            session: self.session@,
            boardroom_registry: match self.boardroom_registry {
                Some(registry) => Some(registry@),
                None => None,
            },
            reaction_coordinator: match self.reaction_coordinator {
                Some(coordinator) => Some(coordinator@),
                None => None,
            },
            classifier: match self.classifier {
                Some(classifier) => Some(classifier@),
                None => None,
            },
            adapter_registry: match self.adapter_registry {
                Some(registry) => Some(registry@),
                None => None,
            },
        }
    }
}

impl DiscordAdapter {
    pub fn new(
        token: String,
        allowed_guilds: Vec<String>,
        allowed_users: Vec<String>,
        ignore_bots: bool,
        intents: u64,
        default: bool,
        passive_channels: Vec<String>,
        peers: TextMap<String>,
    ) -> (adapter: Self)
        ensures
            adapter@ == (AdapterView {
                settings: SettingsView {
                    token: token@,
                    allowed_guilds: texts(allowed_guilds@),
                    allowed_users: texts(allowed_users@),
                    ignore_bots,
                    intents,
                    default,
                    passive_channels: texts(passive_channels@),
                    peers: peer_ids(peers@),
                    topic_filter: None,
                },
                session: SessionView {
                    bot_user_id: None,
                    session_id: None,
                    resume_gateway_url: None,
                },
                boardroom_registry: None,
                reaction_coordinator: None,
                classifier: None,
                adapter_registry: None,
            }),
    {
        DiscordAdapter {
            settings: GatewaySettings {
                token,
                allowed_guilds,
                allowed_users,
                ignore_bots,
                intents,
                default,
                passive_channels,
                peers,
                topic_filter: None,
            },
            session: GatewaySession::new(),
            boardroom_registry: None,
            reaction_coordinator: None,
            classifier: None,
            adapter_registry: None,
        }
    }

    fn request(&self, method: Method, url: String, body: Option<Json>) -> (r: ApiRequest)
        requires
            body matches Some(json) ==> json.whole(),
        ensures
            r@ == self@.request(
                method,
                url@,
                match body {
                    Some(json) => Some(json@),
                    None => None,
                },
            ),
    {
        ApiRequest {
            method,
            url,
            authorization: join("Bot ", self.settings.token.as_str()),
            body: match body {
                Some(json) => Some(json.to_value()),
                None => None,
            },
        }
    }

    /// Get the WebSocket gateway URL from the Discord API.
    pub fn get_gateway_url(&self) -> (r: ApiRequest)
        ensures
            r@ == self@.request(Method::Get, DISCORD_API_BASE@ + "/gateway/bot"@, None),
    {
        self.request(Method::Get, join(DISCORD_API_BASE, "/gateway/bot"), None)
    }

    /// Send a message to a Discord channel via REST API.
    pub fn api_send_message(&self, channel_id: &str, text: &str) -> (requests: Vec<ApiRequest>)
        ensures
            request_views(requests@) == self@.posts(channel_id@, text@),
    {
        let chunks = split_message(text, DISCORD_MSG_LIMIT);
        let mut requests: Vec<ApiRequest> = Vec::new();
        let ghost all = texts(chunks@);
        let ghost posts = self@.posts(channel_id@, text@);
        for i in 0..chunks.len()
            invariant
                all == texts(chunks@),
                all == pieces(text@, DISCORD_MSG_LIMIT as nat),
                posts == self@.posts(channel_id@, text@),
                requests@.len() == i,
                forall|j: int| 0 <= j < i ==> (#[trigger] requests@[j])@ == posts[j],
        {
            assert(all[i as int] == chunks@[i as int]@);
            let body = Json::object().with("content", Json::Text(chunks[i].clone()));
            let url = messages_url(channel_id, "/messages");
            requests.push(self.request(Method::Post, url, Some(body)));
        }
        assert(request_views(requests@) =~= posts);
        requests
    }

    /// Send typing indicator to a Discord channel.
    pub fn api_send_typing(&self, channel_id: &str) -> (r: ApiRequest)
        ensures
            r@ == self@.request(Method::Post, channel_url(channel_id@, "/typing"@), None),
    {
        self.request(Method::Post, messages_url(channel_id, "/typing"), None)
    }

    /// Create a Discord thread in a channel.
    pub fn api_create_thread(
        &self,
        channel_id: &str,
        name: &str,
        auto_archive_duration: Option<u64>,
        message_id: Option<&str>,
    ) -> (r: ApiRequest)
        ensures
            r@ == self@.request(
                Method::Post,
                channel_url(channel_id@, "/threads"@),
                Some(
                    thread_body(
                        name@,
                        auto_archive_duration,
                        match message_id {
                            Some(id) => Some(id@),
                            None => None,
                        },
                    ),
                ),
            ),
    {
        let mut body = Json::object().with("name", Json::Text(name.to_owned())).with(
            "type",
            Json::Number(Some(PUBLIC_THREAD)),
        );
        if let Some(duration) = auto_archive_duration {
            body = body.with("auto_archive_duration", Json::Number(Some(duration)));
        }
        if let Some(id) = message_id {
            body = body.with("message_id", Json::Text(id.to_owned()));
        }
        self.request(Method::Post, messages_url(channel_id, "/threads"), Some(body))
    }

    /// Fetch message history from a Discord thread.
    pub fn api_fetch_thread_history(&self, thread_id: &str, limit: u32) -> (r: ApiRequest)
        ensures
            r@ == self@.request(
                Method::Get,
                channel_url(thread_id@, "/messages?limit="@ + decimal(limit as nat)),
                None,
            ),
    {
        let rest = join("/messages?limit=", decimal_text(limit as u64).as_str());
        self.request(Method::Get, messages_url(thread_id, rest.as_str()), None)
    }

    /// Join a Discord thread (bot joins thread).
    pub fn api_join_thread(&self, thread_id: &str) -> (r: ApiRequest)
        ensures
            r@ == self@.request(
                Method::Put,
                channel_url(thread_id@, "/thread-members/@me"@),
                None,
            ),
    {
        self.request(Method::Put, messages_url(thread_id, "/thread-members/@me"), None)
    }

    /// Add a reaction to a Discord message.
    pub fn api_add_reaction(&self, channel_id: &str, message_id: &str, emoji: &str) -> (r:
        ApiRequest)
        ensures
            r@ == self@.request(
                Method::Put,
                reaction_url(channel_id@, message_id@, emoji@),
                None,
            ),
    {
        self.request(Method::Put, own_reaction_url(channel_id, message_id, emoji), None)
    }

    /// Remove a reaction from a Discord message.
    pub fn api_remove_reaction(&self, channel_id: &str, message_id: &str, emoji: &str) -> (r:
        ApiRequest)
        ensures
            r@ == self@.request(
                Method::Delete,
                reaction_url(channel_id@, message_id@, emoji@),
                None,
            ),
    {
        self.request(Method::Delete, own_reaction_url(channel_id, message_id, emoji), None)
    }

    /// Set boardroom registry.
    pub fn set_boardroom_registry(&mut self, registry: Arc<BoardroomRegistry>)
        ensures
            final(self)@ == (AdapterView {
                boardroom_registry: Some(registry@),
                ..old(self)@
            }),
    {
        self.boardroom_registry = Some(registry);
    }

    /// Set topic filter.
    pub fn set_topic_filter(&mut self, filter: TopicFilter)
        ensures
            final(self)@ == (AdapterView {
                settings: SettingsView { topic_filter: Some(filter@), ..old(self)@.settings },
                ..old(self)@
            }),
    {
        self.settings.topic_filter = Some(filter);
    }

    /// Set reaction coordinator.
    pub fn set_reaction_coordinator(&mut self, coordinator: Arc<ReactionCoordinator>)
        ensures
            final(self)@ == (AdapterView {
                reaction_coordinator: Some(coordinator@),
                ..old(self)@
            }),
    {
        self.reaction_coordinator = Some(coordinator);
    }

    /// Set domain classifier.
    pub fn set_classifier(&mut self, classifier: Arc<DomainClassifier>)
        ensures
            final(self)@ == (AdapterView { classifier: Some(classifier@), ..old(self)@ }),
    {
        self.classifier = Some(classifier);
    }

    /// Set adapter registry.
    pub fn set_adapter_registry(&mut self, registry: Arc<AdapterRegistry>)
        ensures
            final(self)@ == (AdapterView { adapter_registry: Some(registry@), ..old(self)@ }),
    {
        self.adapter_registry = Some(registry);
    }

    /// The adapter's name.
    pub fn name(&self) -> (r: &str)
        ensures
            r@ == "discord"@,
    {
        "discord"
    }

    /// The platform that the adapter serves.
    pub fn channel_type(&self) -> (r: ChannelType)
        ensures
            r@ is None,
    {
        ChannelType::Discord
    }

    /// Begin a run of the gateway connection at a gateway URL, with the settings
    /// as they are now.
    pub fn start(&self, gateway_url: String) -> (run: GatewayRun)
        ensures
            run@ == (RunView {
                settings: self@.settings,
                connect_url: gateway_url@,
                backoff_ms: INITIAL_BACKOFF_MS,
                sequence: None,
                heartbeat_interval: None,
            }),
    {
        GatewayRun::new(self.settings.clone(), gateway_url)
    }

    /// Send a content to the channel that a user's platform ID names.
    pub fn send(&self, user: &ChannelUser, content: ChannelContent) -> (requests: Vec<ApiRequest>)
        ensures
            request_views(requests@) == self@.posts(user@.platform_id, sent_text(content@)),
    {
        match content {
            ChannelContent::Text(text) => self.api_send_message(
                user.platform_id.as_str(),
                text.as_str(),
            ),
            _ => self.api_send_message(user.platform_id.as_str(), "(Unsupported content type)"),
        }
    }

    /// Send typing indicator to the channel that a user's platform ID names.
    pub fn send_typing(&self, user: &ChannelUser) -> (r: ApiRequest)
        ensures
            r@ == self@.request(
                Method::Post,
                channel_url(user@.platform_id, "/typing"@),
                None,
            ),
    {
        self.api_send_typing(user.platform_id.as_str())
    }

    /// Wipe the bot token out of memory.
    pub fn wipe_token(&mut self)
        ensures
            final(self)@ == (AdapterView {
                settings: SettingsView { token: Seq::empty(), ..old(self)@.settings },
                ..old(self)@
            }),
    {
        wipe(&mut self.settings.token);
    }
}

fn messages_url(channel_id: &str, rest: &str) -> (url: String)
    ensures
        url@ == channel_url(channel_id@, rest@),
{
    let mut url = join3(DISCORD_API_BASE, "/channels/", channel_id);
    url.append(rest);
    url
}

fn own_reaction_url(channel_id: &str, message_id: &str, emoji: &str) -> (url: String)
    ensures
        url@ == reaction_url(channel_id@, message_id@, emoji@),
{
    let encoded = percent_encode(emoji);
    let mut rest = join3("/messages/", message_id, "/reactions/");
    rest.append(encoded.as_str());
    rest.append("/@me");
    messages_url(channel_id, rest.as_str())
}

/// The gateway URL that the reply to [`DiscordAdapter::get_gateway_url`] names.
pub fn gateway_url_of(reply: &Json) -> (r: Result<String, String>)
    ensures
        match (r, reply@.field("url"@).as_text()) {
            (Ok(url), Some(stated)) => url@ == versioned_url(stated),
            (Err(message), None) => message@ == "Missing 'url' in gateway response"@,
            _ => false,
        },
{
    match reply.field_text("url") {
        Some(url) => Ok(with_version(url)),
        None => Err("Missing 'url' in gateway response".to_owned()),
    }
}

/// The ID of a thread that was asked for by [`DiscordAdapter::api_create_thread`].
/// The reply is a document, or the text with which the request was refused.
pub fn created_thread(reply: Result<Json, String>) -> (r: Result<String, String>)
    ensures
        match reply {
            Ok(document) => match (r, document@.field("id"@).as_text()) {
                (Ok(id), Some(stated)) => id@ == stated,
                (Err(message), None) => message@ == "Missing thread ID in response"@,
                _ => false,
            },
            Err(text) => r matches Err(message) && message@ == "Discord createThread failed: "@
                + text@,
        },
{
    match reply {
        Ok(document) => match document.field_text("id") {
            Some(id) => Ok(id.to_owned()),
            None => Err("Missing thread ID in response".to_owned()),
        },
        Err(text) => Err(join("Discord createThread failed: ", text.as_str())),
    }
}

/// The messages that were asked for by
/// [`DiscordAdapter::api_fetch_thread_history`]. The reply is a list of values,
/// or the text with which the request was refused.
pub fn thread_history(reply: Result<Vec<serde_json::Value>, String>) -> (r: Result<
    Vec<serde_json::Value>,
    String,
>)
    ensures
        match reply {
            Ok(messages) => r matches Ok(passed) && passed@ == messages@,
            Err(text) => r matches Err(message) && message@
                == "Discord fetchThreadHistory failed: "@ + text@,
        },
{
    match reply {
        Ok(messages) => Ok(messages),
        Err(text) => Err(join("Discord fetchThreadHistory failed: ", text.as_str())),
    }
}

/// The texts of the messages that are posted for a text make up the text, and
/// each is within Discord's limit.
pub proof fn law_posts_carry_the_text(
    adapter: AdapterView,
    channel_id: Seq<char>,
    text: Seq<char>,
)
    ensures
        ({
            let posts = adapter.posts(channel_id, text);
            let parts = posts.map_values(
                |r: RequestView| r.body.unwrap().field("content"@).as_text().unwrap(),
            );
            &&& parts.flatten() == text
            &&& forall|i: int| 0 <= i < parts.len() ==> (#[trigger] parts[i]).len()
                <= DISCORD_MSG_LIMIT
            &&& forall|i: int|
                0 <= i < posts.len() ==> (#[trigger] posts[i]).authorization == "Bot "@
                    + adapter.settings.token
        }),
{
    let all = pieces(text, DISCORD_MSG_LIMIT as nat);
    let posts = adapter.posts(channel_id, text);
    let parts = posts.map_values(
        |r: RequestView| r.body.unwrap().field("content"@).as_text().unwrap(),
    );
    law_pieces_restore_the_text(text, DISCORD_MSG_LIMIT as nat);
    assert forall|i: int| 0 <= i < all.len() implies parts[i] == all[i] by {
        assert(posts[i].body == Some(message_body(all[i])));
    }
    assert(parts =~= all);
}

/// A percent-encoded text stays within one part of a URL: it holds nothing but
/// unreserved characters and percent signs.
pub proof fn law_encoded_text_is_unreserved(bytes: Seq<u8>)
    ensures
        forall|i: int|
            0 <= i < percent_encoded(bytes).len() ==> {
                ||| #[trigger] percent_encoded(bytes)[i] == '%'
                ||| (percent_encoded(bytes)[i] as u32) < 128 && unreserved(
                    percent_encoded(bytes)[i] as u8,
                )
            },
    decreases bytes.len(),
{
    let parts = bytes.map_values(|byte: u8| encoded_byte(byte));
    if bytes.len() > 0 {
        let rest = bytes.drop_first();
        law_encoded_text_is_unreserved(rest);
        assert(parts.drop_first() =~= rest.map_values(|byte: u8| encoded_byte(byte)));
        let head = encoded_byte(bytes[0]);
        assert(parts[0] == head);
        assert(percent_encoded(bytes) =~= head + percent_encoded(rest));
        assert forall|i: int| 0 <= i < percent_encoded(bytes).len() implies {
            ||| #[trigger] percent_encoded(bytes)[i] == '%'
            ||| (percent_encoded(bytes)[i] as u32) < 128 && unreserved(
                percent_encoded(bytes)[i] as u8,
            )
        } by {
            if i >= head.len() {
                assert(percent_encoded(bytes)[i] == percent_encoded(rest)[i - head.len()]);
            } else {
                assert(percent_encoded(bytes)[i] == head[i]);
            }
        }
    }
}

/// A request has the method, address and body that were asked for, and carries the
/// bot's token.
pub proof fn law_requests_carry_the_token(
    adapter: AdapterView,
    method: Method,
    url: Seq<char>,
    body: Option<JsonView>,
)
    ensures
        ({
            let request = adapter.request(method, url, body);
            &&& request.method == method
            &&& request.url == url
            &&& request.body == body
            &&& request.authorization == "Bot "@ + adapter.settings.token
        }),
{
}

/// The addresses of the API name the channel, and that of a reaction names the
/// message and the encoded emoji as well.
pub proof fn law_addresses_name_their_channel(
    channel_id: Seq<char>,
    rest: Seq<char>,
    message_id: Seq<char>,
    emoji: Seq<char>,
)
    ensures
        channel_url(channel_id, rest) == "https://discord.com/api/v10"@ + "/channels/"@ + channel_id
            + rest,
        reaction_url(channel_id, message_id, emoji) == "https://discord.com/api/v10"@
            + "/channels/"@ + channel_id + ("/messages/"@ + message_id + "/reactions/"@
            + percent_encoded(encode_utf8(emoji)) + "/@me"@),
        DISCORD_API_BASE@ == "https://discord.com/api/v10"@,
{
}

/// A text is posted piece by piece, in order: each request posts one piece as the
/// content of a message in the channel.
pub proof fn law_posts_go_to_the_channel(
    adapter: AdapterView,
    channel_id: Seq<char>,
    text: Seq<char>,
    i: int,
)
    requires
        0 <= i < adapter.posts(channel_id, text).len(),
    ensures
        adapter.posts(channel_id, text).len() == pieces(text, 2000).len(),
        ({
            let post = adapter.posts(channel_id, text)[i];
            &&& post.method == Method::Post
            &&& post.url == "https://discord.com/api/v10"@ + "/channels/"@ + channel_id
                + "/messages"@
            &&& post.authorization == "Bot "@ + adapter.settings.token
            &&& post.body == Some(
                JsonView::Object(
                    map!["content"@ => JsonView::Text(pieces(text, 2000)[i])],
                ),
            )
        }),
{
    assert(DISCORD_MSG_LIMIT as nat == 2000);
}

/// A new thread is public and has the name that was asked for; how long it is kept
/// and which message it starts from are said exactly where they were asked for.
pub proof fn law_new_threads_are_public(
    name: Seq<char>,
    duration: u64,
    message_id: Seq<char>,
)
    ensures
        thread_body(name, None, None) == JsonView::Object(
            map!["name"@ => JsonView::Text(name), "type"@ => JsonView::Number(Some(11))],
        ),
        thread_body(name, Some(duration), None) == JsonView::Object(
            map![
                "name"@ => JsonView::Text(name),
                "type"@ => JsonView::Number(Some(11)),
                "auto_archive_duration"@ => JsonView::Number(Some(duration)),
            ],
        ),
        thread_body(name, None, Some(message_id)) == JsonView::Object(
            map![
                "name"@ => JsonView::Text(name),
                "type"@ => JsonView::Number(Some(11)),
                "message_id"@ => JsonView::Text(message_id),
            ],
        ),
        thread_body(name, Some(duration), Some(message_id)) == JsonView::Object(
            map![
                "name"@ => JsonView::Text(name),
                "type"@ => JsonView::Number(Some(11)),
                "auto_archive_duration"@ => JsonView::Number(Some(duration)),
                "message_id"@ => JsonView::Text(message_id),
            ],
        ),
{
}

/// A text is sent as it is, and for anything else a note that it cannot be.
pub proof fn law_texts_are_sent_as_they_are(
    text: Seq<char>,
    name: Seq<char>,
    args: Seq<Seq<char>>,
)
    ensures
        sent_text(ContentView::Text(text)) == text,
        sent_text(ContentView::Command { name, args }) == "(Unsupported content type)"@,
{
}

/// Percent-encoding goes byte by byte: letters, digits and four marks stay, and any
/// other byte becomes a percent sign and its two hexadecimal digits in upper case.
pub proof fn law_bytes_are_encoded_one_by_one(bytes: Seq<u8>, byte: u8)
    ensures
        percent_encoded(Seq::empty()) == Seq::<char>::empty(),
        percent_encoded(seq![byte] + bytes) == encoded_byte(byte) + percent_encoded(bytes),
        ({
            let stays = 0x30 <= byte <= 0x39 || 0x41 <= byte <= 0x5a || 0x61 <= byte <= 0x7a
                || byte == 0x2d || byte == 0x2e || byte == 0x5f || byte == 0x7e;
            &&& stays ==> encoded_byte(byte) == seq![byte as char]
            &&& !stays ==> {
                let high = encoded_byte(byte)[1] as int;
                let low = encoded_byte(byte)[2] as int;
                &&& encoded_byte(byte).len() == 3
                &&& encoded_byte(byte)[0] == '%'
                &&& 0x30 <= high <= 0x39 || 0x41 <= high <= 0x46
                &&& 0x30 <= low <= 0x39 || 0x41 <= low <= 0x46
                &&& byte == 16 * (if high <= 0x39 {
                    high - 0x30
                } else {
                    high - 0x41 + 10
                }) + (if low <= 0x39 {
                    low - 0x30
                } else {
                    low - 0x41 + 10
                })
            }
        }),
{
    let none = Seq::<u8>::empty().map_values(|byte: u8| encoded_byte(byte));
    assert(none =~= Seq::empty());
    assert(none.flatten() =~= Seq::empty());
    let parts = (seq![byte] + bytes).map_values(|byte: u8| encoded_byte(byte));
    assert(parts.drop_first() =~= bytes.map_values(|byte: u8| encoded_byte(byte)));
    assert(parts[0] == encoded_byte(byte));
    assert(percent_encoded(seq![byte] + bytes) =~= encoded_byte(byte) + percent_encoded(bytes));
}

/// The model of a request shows all that it holds.
pub proof fn law_models_of_requests(request: ApiRequest, requests: Seq<ApiRequest>, i: int)
    ensures
        request@.method == request.method,
        request@.url == request.url@,
        request@.authorization == request.authorization@,
        request.body matches Some(value) ==> request@.body == Some(json_view(value)),
        request.body is None ==> request@.body is None,
        request_views(requests).len() == requests.len(),
        0 <= i < requests.len() ==> request_views(requests)[i] == requests[i]@,
{
}

/// `urlencoding::encode`: every byte of the text's UTF-8 form is shown as
/// [`encoded_byte`] says.
#[verifier::external_body]
fn percent_encode(text: &str) -> (r: String)
    ensures
        r@ == percent_encoded(encode_utf8(text@)),
{
    urlencoding::encode(text).into_owned()
}

} // verus!
