//! Discord messages: which of them reach the agent, and as what.

use crate::json::{items_view, lemma_items_view, Json, JsonView};
use crate::text::{
    before, chars_before, contains, contains_text, has_text, join3, lemma_before, optional_text, same_text,
    starts_with, tail, texts, words, words_of,
};
use crate::text_map::TextMap;
use crate::time::{parse_rfc3339, rfc3339_instant, utc_now, Timestamp};
use crate::topic::{TopicFilter, TopicView};
use crate::types::{
    documents, ChannelContent, ChannelMessage, ChannelType, ChannelUser, ContentView, MessageView,
    UserView,
};
use vstd::prelude::*;

verus! {

/// What decides which messages reach the agent.
pub struct FilterView {
    /// The bot's own user ID, where it is known.
    pub bot_user_id: Option<Seq<char>>,
    /// Servers whose messages count; all of them where there is none.
    pub allowed_guilds: Seq<Seq<char>>,
    /// Users whose messages count; all of them where there is none.
    pub allowed_users: Seq<Seq<char>>,
    /// Whether messages of unknown bots are dropped.
    pub ignore_bots: bool,
    /// Whether the agent is the default one.
    pub default: bool,
    /// Channels in which only mentions count.
    pub passive_channels: Seq<Seq<char>>,
    /// Discord user IDs of the peer bots, by agent ID.
    pub peers: Map<Seq<char>, Seq<char>>,
    /// What judges the topic of a message.
    pub topic_filter: Option<TopicView>,
}

/// The values of a map of texts.
pub open spec fn peer_ids(peers: Map<Seq<char>, String>) -> Map<Seq<char>, Seq<char>> {
    peers.map_values(|id: String| id@)
}

/// The model of what decides which messages reach the agent.
pub open spec fn filter_view(
    bot_user_id: Option<String>,
    allowed_guilds: Seq<String>,
    allowed_users: Seq<String>,
    ignore_bots: bool,
    default: bool,
    passive_channels: Seq<String>,
    peers: Map<Seq<char>, String>,
    topic_filter: Option<&TopicFilter>,
) -> FilterView {
    FilterView {
        bot_user_id: optional_text(bot_user_id),
        allowed_guilds: texts(allowed_guilds),
        allowed_users: texts(allowed_users),
        ignore_bots,
        default,
        passive_channels: texts(passive_channels),
        peers: peer_ids(peers),
        topic_filter: match topic_filter {
            Some(filter) => Some(filter@),
            None => None,
        },
    }
}

/// The model of an optional message.
pub open spec fn optional_message(message: Option<ChannelMessage>) -> Option<MessageView> {
    match message {
        Some(message) => Some(message@),
        None => None,
    }
}

/// The text under a key, or `default` where there is none.
pub open spec fn text_or(d: JsonView, key: Seq<char>, default: Seq<char>) -> Seq<char> {
    match d.field(key).as_text() {
        Some(text) => text,
        None => default,
    }
}

/// The text of a message.
pub open spec fn content_text(d: JsonView) -> Seq<char> {
    text_or(d, "content"@, ""@)
}

/// A message has an author, a text and a channel.
pub open spec fn complete(d: JsonView) -> bool {
    &&& d.field("author"@).field("id"@).as_text() is Some
    &&& content_text(d).len() > 0
    &&& d.field("channel_id"@).as_text() is Some
}

/// The ID of a message's author.
pub open spec fn author_id(d: JsonView) -> Seq<char> {
    text_or(d.field("author"@), "id"@, ""@)
}

/// The ID of a message's channel.
pub open spec fn channel_id(d: JsonView) -> Seq<char> {
    text_or(d, "channel_id"@, ""@)
}

/// One of the users that a message's list of mentions names has the ID.
pub open spec fn listed_in_mentions(d: JsonView, id: Seq<char>) -> bool {
    match d.field("mentions"@).as_items() {
        Some(items) => names_id(items, id),
        None => false,
    }
}

/// One of the documents has the ID.
pub open spec fn names_id(items: Seq<JsonView>, id: Seq<char>) -> bool {
    exists|i: int| 0 <= i < items.len() && (#[trigger] items[i]).field("id"@).as_text() == Some(id)
}

/// The message mentions the bot: in its list of mentions, or in its text as
/// `<@id>` or `<@!id>`.
pub open spec fn mentions_bot(d: JsonView, bot_user_id: Option<Seq<char>>) -> bool {
    match bot_user_id {
        Some(id) => {
            ||| listed_in_mentions(d, id)
            ||| contains(content_text(d), "<@"@ + id + ">"@)
            ||| contains(content_text(d), "<@!"@ + id + ">"@)
        },
        None => false,
    }
}

/// The message comes from a bot.
pub open spec fn from_bot(d: JsonView) -> bool {
    d.field("author"@).field("bot"@).as_flag() == Some(true)
}

/// A user is one of the peer bots.
pub open spec fn is_peer(peers: Map<Seq<char>, Seq<char>>, id: Seq<char>) -> bool {
    exists|agent: Seq<char>| #[trigger] peers.dom().contains(agent) && peers[agent] == id
}

/// The message reaches the agent.
pub open spec fn accepted(d: JsonView, filter: FilterView) -> bool {
    let mentioned = mentions_bot(d, filter.bot_user_id);
    &&& complete(d)
    &&& filter.bot_user_id != Some(author_id(d))
    &&& from_bot(d) ==> if is_peer(filter.peers, author_id(d)) {
        mentioned
    } else {
        !filter.ignore_bots
    }
    &&& filter.passive_channels.contains(channel_id(d)) ==> mentioned
    &&& filter.allowed_users.len() > 0 ==> filter.allowed_users.contains(author_id(d))
    &&& match d.field("guild_id"@).as_text() {
        Some(guild) => filter.allowed_guilds.len() > 0 ==> filter.allowed_guilds.contains(guild),
        None => true,
    }
}

/// The name to show for a message's author.
pub open spec fn display_name(d: JsonView) -> Seq<char> {
    let username = text_or(d.field("author"@), "username"@, "Unknown"@);
    let discriminator = text_or(d.field("author"@), "discriminator"@, "0000"@);
    if discriminator == "0"@ {
        username
    } else {
        username + "#"@ + discriminator
    }
}

/// The time of a message: the one that it states, or `now`.
pub open spec fn message_time(d: JsonView, now: Timestamp) -> Timestamp {
    match d.field("timestamp"@).as_text() {
        Some(text) => match rfc3339_instant(text) {
            Some((seconds, nanos)) => Timestamp { seconds, nanos },
            None => now,
        },
        None => now,
    }
}

/// What a text says: a command where it begins with a slash. The command's name
/// ends before the first space; the words after that space are its arguments.
pub open spec fn content_of(text: Seq<char>) -> ContentView {
    if "/"@.is_prefix_of(text) {
        let end = before(text, ' ');
        ContentView::Command {
            name: text.subrange(1, end as int),
            args: if end < text.len() {
                words_of(text.skip(end as int + 1))
            } else {
                Seq::empty()
            },
        }
    } else {
        ContentView::Text(text)
    }
}

/// What is noted with a message.
pub open spec fn notes(
    mentioned: bool,
    default: bool,
    relevance: Option<Seq<char>>,
) -> Map<Seq<char>, JsonView> {
    let mention = if mentioned {
        Map::empty().insert("was_mentioned"@, JsonView::Bool(true))
    } else {
        Map::empty()
    };
    let marked = mention.insert("is_default_agent"@, JsonView::Bool(default));
    match relevance {
        Some(name) => marked.insert("topic_relevance"@, JsonView::Text(name)),
        None => marked,
    }
}

/// How relevant a message is, where a filter judges it.
pub open spec fn relevance_name(filter: Option<TopicView>, text: Seq<char>) -> Option<Seq<char>> {
    match filter {
        Some(topic) => Some(topic.relevance(text).name()),
        None => None,
    }
}

/// The message that a payload stands for.
pub open spec fn message_of(d: JsonView, filter: FilterView, now: Timestamp) -> MessageView {
    MessageView {
        channel: None,
        platform_message_id: text_or(d, "id"@, "0"@),
        sender: UserView {
            platform_id: channel_id(d),
            display_name: display_name(d),
            openfang_user: None,
        },
        content: content_of(content_text(d)),
        target_agent: None,
        timestamp: message_time(d, now),
        is_group: d.field("guild_id"@).as_text() is Some,
        thread_id: None,
        metadata: notes(
            mentions_bot(d, filter.bot_user_id),
            filter.default,
            relevance_name(filter.topic_filter, content_text(d)),
        ),
    }
}

/// What becomes of a payload: the message, if it reaches the agent.
pub open spec fn parsed(d: JsonView, filter: FilterView, now: Timestamp) -> Option<MessageView> {
    if accepted(d, filter) {
        Some(message_of(d, filter, now))
    } else {
        None
    }
}

fn names_user(items: &Vec<Json>, id: &str) -> (r: bool)
    ensures
        r == names_id(items_view(items@), id@),
{
    proof {
        lemma_items_view(items@);
    }
    for i in 0..items.len()
        invariant
            items_view(items@).len() == items@.len(),
            forall|j: int|
                0 <= j < items@.len() ==> items_view(items@)[j] == #[trigger] items@[j].view(),
            forall|j: int|
                0 <= j < i ==> (#[trigger] items_view(items@)[j]).field("id"@).as_text() != Some(
                    id@,
                ),
    {
        assert(items_view(items@)[i as int] == items@[i as int].view());
        if let Some(text) = items[i].field_text("id") {
            if same_text(text, id) {
                return true;
            }
        }
    }
    false
}

/// Whether a payload mentions a bot.
pub fn was_mentioned(d: &Json, bot_user_id: &str) -> (r: bool)
    ensures
        r == mentions_bot(d@, Some(bot_user_id@)),
{
    let listed = match d.field_items("mentions") {
        Some(items) => names_user(items, bot_user_id),
        None => false,
    };
    let text = match d.field_text("content") {
        Some(text) => text,
        None => "",
    };
    listed || contains_text(text, join3("<@", bot_user_id, ">").as_str()) || contains_text(
        text,
        join3("<@!", bot_user_id, ">").as_str(),
    )
}

fn is_peer_bot(peers: &TextMap<String>, id: &str) -> (r: bool)
    ensures
        r == is_peer(peer_ids(peers@), id@),
{
    let agents = peers.keys();
    let ghost all = texts(agents@);
    for i in 0..agents.len()
        invariant
            all == texts(agents@),
            all.to_set() == peers@.dom(),
            forall|j: int|
                0 <= j < i ==> peer_ids(peers@)[#[trigger] all[j]] != id@,
    {
        assert(all[i as int] == agents@[i as int]@);
        assert(all.to_set().contains(all[i as int]));
        if let Some(peer) = peers.get(agents[i].as_str()) {
            if same_text(peer.as_str(), id) {
                assert(peer_ids(peers@).dom().contains(all[i as int]));
                return true;
            }
        }
    }
    assert forall|agent: Seq<char>| #[trigger]
        peer_ids(peers@).dom().contains(agent) implies peer_ids(peers@)[agent] != id@ by {
        assert(all.to_set().contains(agent));
        let j = choose|j: int| 0 <= j < all.len() && all[j] == agent;
        assert(peer_ids(peers@)[all[j]] != id@);
    }
    false
}

/// What a text says.
pub fn parse_content(text: &str) -> (content: ChannelContent)
    ensures
        content@ == content_of(text@),
{
    if starts_with(text, "/") {
        proof {
            reveal_strlit("/");
            assert("/"@[0] == text@.subrange(0, 1)[0]);
        }
        let end: usize = chars_before(text, ' ');
        let name = text.substring_char(1, end).to_owned();
        let args = if end < text.unicode_len() {
            words(tail(text, end + 1).as_str())
        } else {
            Vec::new()
        };
        assert(end == text@.len() ==> texts(args@) =~= Seq::empty());
        ChannelContent::Command { name, args }
    } else {
        ChannelContent::Text(text.to_owned())
    }
}

/// Whether a payload reaches the agent; if it does, whether it mentions the bot.
fn passes_filter(
    d: &Json,
    bot_user_id: &Option<String>,
    allowed_guilds: &[String],
    allowed_users: &[String],
    ignore_bots: bool,
    default: bool,
    passive_channels: &[String],
    peers: &TextMap<String>,
    topic_filter: Option<&TopicFilter>,
) -> (r: Option<bool>)
    ensures
        r is Some <==> accepted(
            d@,
            filter_view(
                *bot_user_id,
                allowed_guilds@,
                allowed_users@,
                ignore_bots,
                default,
                passive_channels@,
                peers@,
                topic_filter,
            ),
        ),
        r matches Some(mentioned) ==> mentioned == mentions_bot(d@, optional_text(*bot_user_id)),
{
    proof {
        reveal_strlit("");
    }
    let author = match d.field("author") {
        Some(author) => author,
        None => return None,
    };
    let author_id = match author.field_text("id") {
        Some(id) => id,
        None => return None,
    };
    let content_text = match d.field_text("content") {
        Some(text) => text,
        None => "",
    };
    if content_text.unicode_len() == 0 {
        return None;
    }
    let channel_id = match d.field_text("channel_id") {
        Some(id) => id,
        None => return None,
    };
    assert(complete(d@));

    // Filter out bot's own messages
    if let Some(bot) = bot_user_id {
        if same_text(author_id, bot.as_str()) {
            return None;
        }
    }

    // Needed for peer bot filtering and passive channels
    let mentioned = match bot_user_id {
        Some(bot) => was_mentioned(d, bot.as_str()),
        None => false,
    };

    // Three-tier bot filter
    if let Some(true) = author.field_flag("bot") {
        // Own bot already filtered above, so this is another bot
        if is_peer_bot(peers, author_id) {
            // Known peer bot: allow only if @mentioned
            if !mentioned {
                return None;
            }
        } else {
            // Unknown bot: apply ignore_bots setting
            if ignore_bots {
                return None;
            }
        }
    }

    // Passive channel handling
    if has_text(passive_channels, channel_id) && !mentioned {
        return None;
    }

    // Filter by allowed users
    if allowed_users.len() > 0 && !has_text(allowed_users, author_id) {
        return None;
    }

    // Filter by allowed guilds
    if allowed_guilds.len() > 0 {
        if let Some(guild) = d.field_text("guild_id") {
            if !has_text(allowed_guilds, guild) {
                return None;
            }
        }
    }
    Some(mentioned)
}

fn text_field<'a>(d: &'a Json, key: &str, default: &'a str) -> (text: &'a str)
    ensures
        text@ == text_or(d@, key@, default@),
{
    match d.field_text(key) {
        Some(text) => text,
        None => default,
    }
}

fn sender_name(d: &Json) -> (name: String)
    requires
        complete(d@),
    ensures
        name@ == display_name(d@),
{
    match d.field("author") {
        Some(author) => {
            let username = text_field(author, "username", "Unknown");
            let discriminator = text_field(author, "discriminator", "0000");
            if same_text(discriminator, "0") {
                username.to_owned()
            } else {
                join3(username, "#", discriminator)
            }
        },
        None => String::new(),
    }
}

fn time_of(d: &Json, now: Timestamp) -> (time: Timestamp)
    requires
        now.valid(),
    ensures
        time == message_time(d@, now),
        time.valid(),
{
    let stated = match d.field_text("timestamp") {
        Some(text) => parse_rfc3339(text),
        None => None,
    };
    match stated {
        Some(time) => time,
        None => now,
    }
}

fn metadata_of(mentioned: bool, default: bool, text: &str, topic_filter: Option<&TopicFilter>) -> (
    metadata: TextMap<Json>)
    ensures
        documents(metadata@) == notes(
            mentioned,
            default,
            relevance_name(
                match topic_filter {
                    Some(filter) => Some(filter@),
                    None => None,
                },
                text@,
            ),
        ),
{
    let mut metadata: TextMap<Json> = TextMap::new();
    assert(documents(metadata@) =~= Map::empty());
    if mentioned {
        metadata.insert("was_mentioned".to_owned(), Json::Bool(true));
        assert(documents(metadata@) =~= Map::empty().insert(
            "was_mentioned"@,
            JsonView::Bool(true),
        ));
    }
    let ghost mention = documents(metadata@);
    metadata.insert("is_default_agent".to_owned(), Json::Bool(default));
    assert(documents(metadata@) =~= mention.insert("is_default_agent"@, JsonView::Bool(default)));
    // Tier 1: Topic filter classification
    if let Some(filter) = topic_filter {
        let ghost marked = documents(metadata@);
        let relevance = filter.evaluate(text);
        metadata.insert("topic_relevance".to_owned(), Json::Text(relevance.to_string()));
        assert(documents(metadata@) =~= marked.insert(
            "topic_relevance"@,
            JsonView::Text(relevance.name()),
        ));
    }
    metadata
}

/// Parse a Discord `MESSAGE_CREATE` or `MESSAGE_UPDATE` payload into a message,
/// where it reaches the agent.
pub fn parse_discord_message(
    d: &Json,
    bot_user_id: &Option<String>,
    allowed_guilds: &[String],
    allowed_users: &[String],
    ignore_bots: bool,
    default: bool,
    passive_channels: &[String],
    peers: &TextMap<String>,
    topic_filter: Option<&TopicFilter>,
) -> (r: Option<ChannelMessage>)
    ensures
        exists|now: Timestamp|
            now.on_clock() && optional_message(r) == #[trigger] parsed(
                d@,
                filter_view(
                    *bot_user_id,
                    allowed_guilds@,
                    allowed_users@,
                    ignore_bots,
                    default,
                    passive_channels@,
                    peers@,
                    topic_filter,
                ),
                now,
            ),
        r matches Some(message) ==> message.timestamp.valid(),
{
    let now = utc_now();
    parse_discord_message_at(
        d,
        bot_user_id,
        allowed_guilds,
        allowed_users,
        ignore_bots,
        default,
        passive_channels,
        peers,
        topic_filter,
        now,
    )
}

/// Parse a Discord payload at a given time, which is that of a message that
/// states none.
pub fn parse_discord_message_at(
    d: &Json,
    bot_user_id: &Option<String>,
    allowed_guilds: &[String],
    allowed_users: &[String],
    ignore_bots: bool,
    default: bool,
    passive_channels: &[String],
    peers: &TextMap<String>,
    topic_filter: Option<&TopicFilter>,
    now: Timestamp,
) -> (r: Option<ChannelMessage>)
    requires
        now.valid(),
    ensures
        optional_message(r) == parsed(
            d@,
            filter_view(
                    *bot_user_id,
                    allowed_guilds@,
                    allowed_users@,
                    ignore_bots,
                    default,
                    passive_channels@,
                    peers@,
                    topic_filter,
                ),
            now,
        ),
        r matches Some(message) ==> message.timestamp.valid(),
{
    let mentioned = match passes_filter(
        d,
        bot_user_id,
        allowed_guilds,
        allowed_users,
        ignore_bots,
        default,
        passive_channels,
        peers,
        topic_filter,
    ) {
        Some(mentioned) => mentioned,
        None => return None,
    };
    let content_text = text_field(d, "content", "");
    Some(
        ChannelMessage {
            channel: ChannelType::Discord,
            platform_message_id: text_field(d, "id", "0").to_owned(),
            sender: ChannelUser {
                platform_id: text_field(d, "channel_id", "").to_owned(),
                display_name: sender_name(d),
                openfang_user: None,
            },
            content: parse_content(content_text),
            target_agent: None,
            timestamp: time_of(d, now),
            // A message in a server channel is a group message
            is_group: d.field_text("guild_id").is_some(),
            thread_id: None,
            metadata: metadata_of(mentioned, default, content_text, topic_filter),
        },
    )
}

/// The bot's own messages never reach the agent, whatever else holds.
pub proof fn law_own_messages_are_dropped(d: JsonView, filter: FilterView, now: Timestamp)
    requires
        filter.bot_user_id == Some(author_id(d)),
    ensures
        parsed(d, filter, now) is None,
{
}

/// A message of a peer bot reaches the agent only where it mentions it, and one
/// of any other bot only where bots are not ignored.
pub proof fn law_bots_are_filtered(d: JsonView, filter: FilterView, now: Timestamp)
    requires
        from_bot(d),
        parsed(d, filter, now) is Some,
    ensures
        is_peer(filter.peers, author_id(d)) ==> mentions_bot(d, filter.bot_user_id),
        !is_peer(filter.peers, author_id(d)) ==> !filter.ignore_bots,
{
}

/// In a passive channel only messages that mention the bot reach the agent.
pub proof fn law_passive_channels_need_a_mention(d: JsonView, filter: FilterView, now: Timestamp)
    requires
        filter.passive_channels.contains(channel_id(d)),
        parsed(d, filter, now) is Some,
    ensures
        mentions_bot(d, filter.bot_user_id),
{
}

/// An empty list of users or of servers restricts nothing: what reaches the
/// agent under some list reaches it under the empty one. A message outside any
/// server passes every list of servers.
pub proof fn law_empty_lists_allow_all(
    d: JsonView,
    filter: FilterView,
    users: Seq<Seq<char>>,
    guilds: Seq<Seq<char>>,
)
    ensures
        accepted(d, FilterView { allowed_users: users, ..filter }) ==> accepted(
            d,
            FilterView { allowed_users: Seq::empty(), ..filter },
        ),
        accepted(d, FilterView { allowed_guilds: guilds, ..filter }) ==> accepted(
            d,
            FilterView { allowed_guilds: Seq::empty(), ..filter },
        ),
        d.field("guild_id"@).as_text() is None ==> (accepted(
            d,
            FilterView { allowed_guilds: guilds, ..filter },
        ) <==> accepted(d, FilterView { allowed_guilds: Seq::empty(), ..filter })),
{
}

/// A message that reaches the agent says in which channel it was posted, is a
/// group message exactly where it was posted in a server, and is noted as a
/// mention exactly where it mentions the bot.
pub proof fn law_messages_keep_their_origin(d: JsonView, filter: FilterView, now: Timestamp)
    ensures
        parsed(d, filter, now) matches Some(message) ==> {
            &&& Some(message.sender.platform_id) == d.field("channel_id"@).as_text()
            &&& message.is_group <==> d.field("guild_id"@).as_text() is Some
            &&& message.metadata.dom().contains("was_mentioned"@) <==> mentions_bot(
                d,
                filter.bot_user_id,
            )
            &&& message.metadata.dom().contains("topic_relevance"@)
                <==> filter.topic_filter is Some
            &&& message.metadata.dom().contains("is_default_agent"@)
            &&& message.metadata["is_default_agent"@] == JsonView::Bool(filter.default)
        },
{
    reveal_strlit("was_mentioned");
    reveal_strlit("is_default_agent");
    reveal_strlit("topic_relevance");
    assert("was_mentioned"@.len() == 13);
    assert("is_default_agent"@.len() == 16);
    assert("topic_relevance"@.len() == 15);
}

/// Nothing but the listed fields of a payload counts: a payload that agrees with
/// another on them, such as an edited copy of it, becomes the same message.
pub proof fn law_other_fields_do_not_count(
    d: JsonView,
    other: JsonView,
    filter: FilterView,
    now: Timestamp,
)
    requires
        d.field("author"@) == other.field("author"@),
        d.field("content"@) == other.field("content"@),
        d.field("channel_id"@) == other.field("channel_id"@),
        d.field("guild_id"@) == other.field("guild_id"@),
        d.field("mentions"@) == other.field("mentions"@),
        d.field("id"@) == other.field("id"@),
        d.field("timestamp"@) == other.field("timestamp"@),
    ensures
        parsed(d, filter, now) == parsed(other, filter, now),
{
}

/// A slash, a name without spaces, a space and any rest make a command of that
/// name whose arguments are the words of the rest; without the rest it has none.
pub proof fn law_commands_have_names_and_arguments(name: Seq<char>, rest: Seq<char>)
    requires
        !name.contains(' '),
    ensures
        content_of("/"@ + name + " "@ + rest) == (ContentView::Command {
            name,
            args: words_of(rest),
        }),
        content_of("/"@ + name) == (ContentView::Command { name, args: Seq::empty() }),
{
    reveal_strlit("/");
    reveal_strlit(" ");
    let text = "/"@ + name + " "@ + rest;
    let end = 1 + name.len();
    assert("/"@.is_prefix_of(text));
    assert forall|i: int| 0 <= i < end implies text[i] != ' ' by {
        if i > 0 {
            assert(text[i] == name[i - 1]);
        }
    }
    lemma_before(text, ' ', end as int);
    assert(text.subrange(1, end as int) =~= name);
    assert(text.skip(end as int + 1) =~= rest);
    let bare = "/"@ + name;
    assert("/"@.is_prefix_of(bare));
    assert forall|i: int| 0 <= i < end implies bare[i] != ' ' by {
        if i > 0 {
            assert(bare[i] == name[i - 1]);
        }
    }
    lemma_before(bare, ' ', end as int);
    assert(bare.subrange(1, end as int) =~= name);
}

/// The lists of users and of servers are never passed by: a message that reaches
/// the agent comes from a listed user, where there is a list of users, and from a
/// listed server, where there is a list of servers and the message has one,
/// whatever else it holds.
pub proof fn law_lists_are_never_passed_by(
    d: JsonView,
    filter: FilterView,
    now: Timestamp,
    guild: Seq<char>,
)
    requires
        parsed(d, filter, now) is Some,
    ensures
        filter.allowed_users.len() > 0 ==> {
            &&& d.field("author"@).field("id"@) matches JsonView::Text(author)
            &&& filter.allowed_users.contains(author)
        },
        filter.allowed_guilds.len() > 0 && d.field("guild_id"@) == JsonView::Text(guild)
            ==> filter.allowed_guilds.contains(guild),
{
}

/// A payload without the ID of an author, without a text or with an empty one, or
/// without the ID of a channel, never becomes a message.
pub proof fn law_incomplete_payloads_are_dropped(d: JsonView, filter: FilterView, now: Timestamp)
    requires
        !(d.field("author"@).field("id"@) is Text) || !(d.field("content"@) is Text) || d.field(
            "content"@,
        ) == JsonView::Text(Seq::empty()) || !(d.field("channel_id"@) is Text),
    ensures
        parsed(d, filter, now) is None,
{
    reveal_strlit("");
}

/// A payload mentions the bot exactly where its list of mentions names the bot's ID
/// or its text holds the ID as `<@id>` or `<@!id>`. A bot that does not know its ID
/// is never mentioned.
pub proof fn law_mentions_are_by_id(d: JsonView, id: Seq<char>, text: Seq<char>)
    requires
        d.field("content"@) == JsonView::Text(text),
    ensures
        ({
            let listed = exists|i: int|
                0 <= i < d.field("mentions"@)->Array_0.len() && (
                #[trigger] d.field("mentions"@)->Array_0[i]).field("id"@) == JsonView::Text(id);
            mentions_bot(d, Some(id)) <==> (d.field("mentions"@) is Array && listed) || contains(
                text,
                "<@"@ + id + ">"@,
            ) || contains(text, "<@!"@ + id + ">"@)
        }),
        !mentions_bot(d, None),
{
    if let JsonView::Array(items) = d.field("mentions"@) {
        if names_id(items, id) {
            let i = choose|i: int|
                0 <= i < items.len() && (#[trigger] items[i]).field("id"@).as_text() == Some(id);
            assert(d.field("mentions"@)->Array_0[i].field("id"@) == JsonView::Text(id));
        }
        if exists|i: int|
            0 <= i < d.field("mentions"@)->Array_0.len() && (
            #[trigger] d.field("mentions"@)->Array_0[i]).field("id"@) == JsonView::Text(id) {
            let i = choose|i: int|
                0 <= i < d.field("mentions"@)->Array_0.len() && (
                #[trigger] d.field("mentions"@)->Array_0[i]).field("id"@) == JsonView::Text(id);
            assert(items[i].field("id"@).as_text() == Some(id));
        }
    }
}

/// A complete payload becomes a message exactly where its author is not the bot
/// itself; is no bot, or a peer that mentions the bot, or an unknown one where bots
/// are not ignored; mentions the bot, if the channel is passive; and passes the
/// lists of users and servers.
pub proof fn law_messages_are_heard(
    d: JsonView,
    filter: FilterView,
    now: Timestamp,
    author: Seq<char>,
    text: Seq<char>,
    channel: Seq<char>,
)
    requires
        d.field("author"@).field("id"@) == JsonView::Text(author),
        d.field("content"@) == JsonView::Text(text),
        text.len() > 0,
        d.field("channel_id"@) == JsonView::Text(channel),
    ensures
        ({
            let mentioned = mentions_bot(d, filter.bot_user_id);
            let bot = d.field("author"@).field("bot"@) == JsonView::Bool(true);
            let peer = exists|agent: Seq<char>| #[trigger]
                filter.peers.dom().contains(agent) && filter.peers[agent] == author;
            parsed(d, filter, now) is Some <==> {
                &&& filter.bot_user_id != Some(author)
                &&& bot && peer ==> mentioned
                &&& bot && !peer ==> !filter.ignore_bots
                &&& filter.passive_channels.contains(channel) ==> mentioned
                &&& filter.allowed_users.len() == 0 || filter.allowed_users.contains(author)
                &&& filter.allowed_guilds.len() == 0 || (d.field(
                    "guild_id"@,
                ) matches JsonView::Text(guild) ==> filter.allowed_guilds.contains(guild))
            }
        }),
{
}

/// A message says what its payload says: its ID, the channel to answer in, the name
/// of its author with the number behind it where that is not zero, its time where
/// one can be read, and whether it was posted in a server. What the payload leaves
/// out is filled in: the ID zero, an unknown author, and the current time.
pub proof fn law_messages_say_what_payloads_say(
    d: JsonView,
    filter: FilterView,
    now: Timestamp,
    text: Seq<char>,
    name: Seq<char>,
    number: Seq<char>,
    stated: Seq<char>,
)
    requires
        parsed(d, filter, now) is Some,
    ensures
        ({
            let message = parsed(d, filter, now)->0;
            let author = d.field("author"@);
            &&& message.channel is None
            &&& message.target_agent is None
            &&& message.thread_id is None
            &&& message.sender.openfang_user is None
            &&& d.field("id"@) == JsonView::Text(text) ==> message.platform_message_id == text
            &&& !(d.field("id"@) is Text) ==> message.platform_message_id == "0"@
            &&& JsonView::Text(message.sender.platform_id) == d.field("channel_id"@)
            &&& message.is_group <==> d.field("guild_id"@) is Text
            &&& (author.field("username"@) == JsonView::Text(name) || (!(author.field(
                "username"@,
            ) is Text) && name == "Unknown"@)) && (author.field("discriminator"@)
                == JsonView::Text(number) || (!(author.field("discriminator"@) is Text) && number
                == "0000"@)) ==> message.sender.display_name == if number == "0"@ {
                name
            } else {
                name + "#"@ + number
            }
            &&& d.field("timestamp"@) == JsonView::Text(stated) ==> match rfc3339_instant(stated) {
                Some(instant) => message.timestamp.seconds == instant.0 && message.timestamp.nanos
                    == instant.1,
                None => message.timestamp == now,
            }
            &&& !(d.field("timestamp"@) is Text) ==> message.timestamp == now
        }),
{
}

/// A text that does not begin with a slash is kept as it is; one that does is a
/// command whose name and arguments are those of
/// [`law_commands_have_names_and_arguments`], and no other text is one.
pub proof fn law_texts_are_kept(
    d: JsonView,
    filter: FilterView,
    now: Timestamp,
    text: Seq<char>,
)
    requires
        parsed(d, filter, now) is Some,
        d.field("content"@) == JsonView::Text(text),
    ensures
        parsed(d, filter, now)->0.content == content_of(text),
        text[0] != '/' ==> content_of(text) == ContentView::Text(text),
        text[0] == '/' ==> content_of(text) is Command,
{
    reveal_strlit("");
    reveal_strlit("/");
    assert(text.len() > 0);
    if text[0] == '/' {
        assert(text.subrange(0, 1) =~= "/"@);
    } else {
        assert(text.subrange(0, 1)[0] != "/"@[0]);
    }
}

/// What is noted with a message is whether it mentions the bot, whether the agent
/// is the default one and how relevant a filter found it, and nothing else.
pub proof fn law_notes_are_complete(
    d: JsonView,
    filter: FilterView,
    now: Timestamp,
    key: Seq<char>,
    text: Seq<char>,
)
    requires
        parsed(d, filter, now) is Some,
        d.field("content"@) == JsonView::Text(text),
    ensures
        ({
            let notes = parsed(d, filter, now)->0.metadata;
            &&& notes.dom().contains("was_mentioned"@) <==> mentions_bot(d, filter.bot_user_id)
            &&& notes.dom().contains("was_mentioned"@) ==> notes["was_mentioned"@]
                == JsonView::Bool(true)
            &&& notes.dom().contains("is_default_agent"@)
            &&& notes["is_default_agent"@] == JsonView::Bool(filter.default)
            &&& notes.dom().contains("topic_relevance"@) <==> filter.topic_filter is Some
            &&& filter.topic_filter matches Some(topic) ==> notes["topic_relevance"@]
                == JsonView::Text(topic.relevance(text).name())
            &&& notes.dom().contains(key) ==> key == "was_mentioned"@ || key
                == "is_default_agent"@ || key == "topic_relevance"@
        }),
{
    law_messages_keep_their_origin(d, filter, now);
    reveal_strlit("was_mentioned");
    reveal_strlit("is_default_agent");
    reveal_strlit("topic_relevance");
    assert("was_mentioned"@.len() == 13);
    assert("is_default_agent"@.len() == 16);
    assert("topic_relevance"@.len() == 15);
}

/// What decides which messages reach the agent is what was given, unchanged.
pub proof fn law_filters_are_as_given(
    bot_user_id: Option<String>,
    allowed_guilds: Seq<String>,
    allowed_users: Seq<String>,
    ignore_bots: bool,
    default: bool,
    passive_channels: Seq<String>,
    peers: Map<Seq<char>, String>,
    topic_filter: Option<&TopicFilter>,
    agent: Seq<char>,
)
    ensures
        ({
            let filter = filter_view(
                bot_user_id,
                allowed_guilds,
                allowed_users,
                ignore_bots,
                default,
                passive_channels,
                peers,
                topic_filter,
            );
            &&& filter.bot_user_id == optional_text(bot_user_id)
            &&& filter.allowed_guilds == texts(allowed_guilds)
            &&& filter.allowed_users == texts(allowed_users)
            &&& filter.ignore_bots == ignore_bots
            &&& filter.default == default
            &&& filter.passive_channels == texts(passive_channels)
            &&& filter.peers.dom().contains(agent) <==> peers.dom().contains(agent)
            &&& peers.dom().contains(agent) ==> filter.peers[agent] == peers[agent]@
            &&& topic_filter matches Some(topic) ==> filter.topic_filter == Some(topic@)
            &&& topic_filter is None ==> filter.topic_filter is None
        }),
{
}

} // verus!
