//! Messages, users and configuration shared by the modules of the library.

use crate::json::{Json, JsonView};
use crate::score::Score;
use crate::text::{optional_text, texts};
use crate::text_map::TextMap;
use crate::time::Timestamp;
use vstd::prelude::*;

verus! {

/// A messaging platform.
#[derive(Debug, Clone, PartialEq, Eq)]
pub enum ChannelType {
    Discord,
    /// Any other platform, by its name.
    Custom(String),
}

impl View for ChannelType {
    type V = Option<Seq<char>>;

    /// `None` for Discord, the name for any other platform.
    open spec fn view(&self) -> Option<Seq<char>> {
        match self {
            ChannelType::Discord => None,
            ChannelType::Custom(name) => Some(name@),
        }
    }
}

/// An agent, by the number of its UUID.
#[derive(Debug, Clone, Copy, PartialEq, Eq, Structural)]
pub struct AgentId {
    pub value: u128,
}

/// A user of a channel.
#[derive(Debug, Clone)]
pub struct ChannelUser {
    /// Where replies go: on Discord, the channel ID.
    pub platform_id: String,
    /// Name to show.
    pub display_name: String,
    /// The user's account, where one is linked.
    pub openfang_user: Option<String>,
}

/// The model of a [`ChannelUser`].
pub struct UserView {
    pub platform_id: Seq<char>,
    pub display_name: Seq<char>,
    pub openfang_user: Option<Seq<char>>,
}

impl View for ChannelUser {
    type V = UserView;

    open spec fn view(&self) -> UserView {
        UserView {
            platform_id: self.platform_id@,
            display_name: self.display_name@,
            openfang_user: optional_text(self.openfang_user),
        }
    }
}

/// What a message says.
#[derive(Debug, Clone)]
pub enum ChannelContent {
    Text(String),
    Command { name: String, args: Vec<String> },
}

/// The model of a [`ChannelContent`].
pub enum ContentView {
    Text(Seq<char>),
    Command { name: Seq<char>, args: Seq<Seq<char>> },
}

impl View for ChannelContent {
    type V = ContentView;

    open spec fn view(&self) -> ContentView {
        match self {
            ChannelContent::Text(text) => ContentView::Text(text@),
            ChannelContent::Command { name, args } => ContentView::Command {
                name: name@,
                args: texts(args@),
            },
        }
    }
}

/// A message that arrived on a channel.
pub struct ChannelMessage {
    pub channel: ChannelType,
    pub platform_message_id: String,
    pub sender: ChannelUser,
    pub content: ChannelContent,
    pub target_agent: Option<AgentId>,
    pub timestamp: Timestamp,
    pub is_group: bool,
    pub thread_id: Option<String>,
    pub metadata: TextMap<Json>,
}

/// The model of a [`ChannelMessage`].
pub struct MessageView {
    pub channel: Option<Seq<char>>,
    pub platform_message_id: Seq<char>,
    pub sender: UserView,
    pub content: ContentView,
    pub target_agent: Option<AgentId>,
    pub timestamp: Timestamp,
    pub is_group: bool,
    pub thread_id: Option<Seq<char>>,
    pub metadata: Map<Seq<char>, JsonView>,
}

/// The documents of a map, by their models.
pub open spec fn documents(map: Map<Seq<char>, Json>) -> Map<Seq<char>, JsonView> {
    map.map_values(|json: Json| json@)
}

impl View for ChannelMessage {
    type V = MessageView;

    open spec fn view(&self) -> MessageView {
        MessageView {
            channel: self.channel@,
            platform_message_id: self.platform_message_id@,
            sender: self.sender@,
            content: self.content@,
            target_agent: self.target_agent,
            timestamp: self.timestamp,
            is_group: self.is_group,
            thread_id: optional_text(self.thread_id),
            metadata: documents(self.metadata@),
        }
    }
}

/// Who may speak in a boardroom thread.
#[derive(Debug, Clone, Copy, PartialEq, Eq, Structural)]
pub enum TurnPolicy {
    /// An agent speaks only when it is mentioned.
    MentionOnly,
    /// Any agent may speak.
    Open,
}

/// How the answer to a delegated task is posted.
#[derive(Debug, Clone, Copy, PartialEq, Eq, Structural)]
pub enum ReplyMode {
    /// The specialist answers in its own name.
    DirectReply,
    /// The default agent passes the answer on.
    RelayReply,
}

/// A specialist that tasks can be delegated to.
#[derive(Debug, Clone)]
pub struct RoutingRosterEntry {
    pub agent_id: String,
    pub role: String,
    pub domains: Vec<String>,
}

/// The model of a [`RoutingRosterEntry`].
pub struct RosterView {
    pub agent_id: Seq<char>,
    pub role: Seq<char>,
    pub domains: Seq<Seq<char>>,
}

impl View for RoutingRosterEntry {
    type V = RosterView;

    open spec fn view(&self) -> RosterView {
        RosterView { agent_id: self.agent_id@, role: self.role@, domains: texts(self.domains@) }
    }
}

/// Settings of a topic filter.
#[derive(Debug, Clone)]
pub struct TopicFilterConfig {
    /// Words that make a message relevant.
    pub keywords: Vec<String>,
    /// Words that make a message irrelevant, whatever else it says.
    pub negative_keywords: Vec<String>,
    /// Messages of fewer bytes are not judged.
    pub min_length: usize,
}

/// Settings of reaction coordination and domain classification.
#[derive(Debug, Clone)]
pub struct ReactionConfig {
    /// How long reactions are collected, in milliseconds.
    pub coordination_window_ms: u64,
    /// Name of the model that classifies.
    pub classifier_model: String,
    /// The confidence that a classification has to exceed.
    pub classifier_threshold: Score,
    /// Whether the reactions of agents that did not win are removed.
    pub cleanup_reactions: bool,
}

/// The model of a [`ReactionConfig`].
pub struct ReactionConfigView {
    pub coordination_window_ms: u64,
    pub classifier_model: Seq<char>,
    pub classifier_threshold: Score,
    pub cleanup_reactions: bool,
}

impl View for ReactionConfig {
    type V = ReactionConfigView;

    open spec fn view(&self) -> ReactionConfigView {
        ReactionConfigView {
            coordination_window_ms: self.coordination_window_ms,
            classifier_model: self.classifier_model@,
            classifier_threshold: self.classifier_threshold,
            cleanup_reactions: self.cleanup_reactions,
        }
    }
}

/// Settings of the boardroom.
#[derive(Debug, Clone, Copy)]
pub struct BoardroomConfig {
    /// Policy of threads for which none was asked.
    pub default_turn_policy: TurnPolicy,
    /// Consecutive bot messages that trip the circuit breaker.
    pub max_bot_streak: u32,
    /// Minutes after which an inactive thread is idle.
    pub idle_timeout_minutes: u32,
}

/// A text in pieces of at most `limit` characters: every piece but the last has
/// exactly `limit`, and a text within the limit is one piece.
pub open spec fn pieces(text: Seq<char>, limit: nat) -> Seq<Seq<char>>
    decreases text.len(),
{
    if text.len() <= limit || limit == 0 {
        seq![text]
    } else {
        seq![text.take(limit as int)] + pieces(text.skip(limit as int), limit)
    }
}

/// Splits a message into pieces of at most `limit` characters.
pub fn split_message(text: &str, limit: usize) -> (r: Vec<String>)
    requires
        limit > 0,
    ensures
        texts(r@) == pieces(text@, limit as nat),
{
    let size: usize = text.unicode_len();
    let mut out: Vec<String> = Vec::new();
    let mut from: usize = 0;
    assert(text@.skip(0) =~= text@);
    assert(texts(out@) + pieces(text@, limit as nat) =~= pieces(text@, limit as nat));
    while size - from > limit
        invariant
            limit > 0,
            size == text@.len(),
            from <= size,
            pieces(text@, limit as nat) == texts(out@) + pieces(
                text@.skip(from as int),
                limit as nat,
            ),
        decreases size - from,
    {
        let ghost done = out@;
        let ghost rest = text@.skip(from as int);
        let piece = text.substring_char(from, from + limit);
        out.push(piece.to_owned());
        assert(piece@ =~= rest.take(limit as int));
        assert(rest.skip(limit as int) =~= text@.skip(from + limit));
        assert(texts(out@) =~= texts(done) + seq![piece@]);
        assert(texts(out@) + pieces(text@.skip(from + limit), limit as nat) =~= texts(done) + (
        seq![piece@] + pieces(text@.skip(from + limit), limit as nat)));
        from = from + limit;
    }
    let ghost done = out@;
    let last = text.substring_char(from, size);
    out.push(last.to_owned());
    assert(last@ =~= text@.skip(from as int));
    assert(texts(out@) =~= texts(done) + seq![last@]);
    out
}

/// The pieces of a split message, put together again, are the message; none is
/// longer than the limit.
pub proof fn law_pieces_restore_the_text(text: Seq<char>, limit: nat)
    requires
        limit > 0,
    ensures
        pieces(text, limit).flatten() == text,
        forall|i: int|
            0 <= i < pieces(text, limit).len() ==> (#[trigger] pieces(text, limit)[i]).len()
                <= limit,
    decreases text.len(),
{
    if text.len() <= limit {
        let rest = pieces(text, limit).drop_first();
        assert(rest =~= Seq::empty());
        assert(rest.flatten() =~= Seq::empty());
        assert(pieces(text, limit).flatten() =~= text);
    } else {
        let rest = text.skip(limit as int);
        law_pieces_restore_the_text(rest, limit);
        let all = pieces(text, limit);
        assert(all.drop_first() =~= pieces(rest, limit));
        assert(all.flatten() =~= text.take(limit as int) + rest);
        assert forall|i: int| 0 <= i < all.len() implies (#[trigger] all[i]).len() <= limit by {
            if i > 0 {
                assert(all[i] == pieces(rest, limit)[i - 1]);
            }
        }
        assert(text.take(limit as int) + rest =~= text);
    }
}

/// A message within the limit is one piece; every piece of a longer one but the
/// last is as long as the limit allows, and the last one is not empty.
pub proof fn law_pieces_are_as_long_as_allowed(text: Seq<char>, limit: nat)
    requires
        limit > 0,
    ensures
        pieces(text, limit).len() > 0,
        text.len() <= limit ==> pieces(text, limit) == seq![text],
        forall|i: int|
            0 <= i < pieces(text, limit).len() - 1 ==> (#[trigger] pieces(text, limit)[i]).len()
                == limit,
        text.len() > 0 ==> pieces(text, limit).last().len() > 0,
    decreases text.len(),
{
    if text.len() > limit {
        let rest = text.skip(limit as int);
        law_pieces_are_as_long_as_allowed(rest, limit);
        let all = pieces(text, limit);
        assert forall|i: int| 0 <= i < all.len() - 1 implies (#[trigger] all[i]).len() == limit by {
            if i > 0 {
                assert(all[i] == pieces(rest, limit)[i - 1]);
            }
        }
        assert(all.last() == pieces(rest, limit).last());
    }
}

/// Two platforms are the same exactly where both are Discord or both have the same
/// name.
pub proof fn law_platforms_differ(a: String, b: String)
    ensures
        ChannelType::Discord@ != ChannelType::Custom(a)@,
        ChannelType::Custom(a)@ == ChannelType::Custom(b)@ <==> a@ == b@,
{
}

/// The model of a message shows all that it holds.
pub proof fn law_models_of_messages(
    message: ChannelMessage,
    user: ChannelUser,
    text: String,
    name: String,
    args: Vec<String>,
    key: Seq<char>,
)
    ensures
        message@.channel == message.channel@,
        message@.platform_message_id == message.platform_message_id@,
        message@.sender == message.sender@,
        message@.content == message.content@,
        message@.target_agent == message.target_agent,
        message@.timestamp == message.timestamp,
        message@.is_group == message.is_group,
        message@.thread_id == optional_text(message.thread_id),
        message@.metadata.dom().contains(key) <==> message.metadata@.dom().contains(key),
        message.metadata@.dom().contains(key) ==> message@.metadata[key]
            == message.metadata@[key].view(),
        user@.platform_id == user.platform_id@,
        user@.display_name == user.display_name@,
        user@.openfang_user == optional_text(user.openfang_user),
        ChannelContent::Text(text)@ == ContentView::Text(text@),
        (ChannelContent::Command { name, args })@ == (ContentView::Command {
            name: name@,
            args: texts(args@),
        }),
{
}

/// The models of settings show all that they hold.
pub proof fn law_models_of_settings(entry: RoutingRosterEntry, config: ReactionConfig)
    ensures
        entry@.agent_id == entry.agent_id@,
        entry@.role == entry.role@,
        entry@.domains == texts(entry.domains@),
        config@.coordination_window_ms == config.coordination_window_ms,
        config@.classifier_model == config.classifier_model@,
        config@.classifier_threshold == config.classifier_threshold,
        config@.cleanup_reactions == config.cleanup_reactions,
{
}

} // verus!
