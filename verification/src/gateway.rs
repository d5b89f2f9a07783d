//! The Discord gateway connection, as a state machine.
//!
//! [`GatewayRun::step`] takes what happened and says what to do next: connect,
//! wait, receive, send, deliver a message or stop. Whoever runs it does that and
//! reports back.

use crate::discord::{author_id, parse_discord_message_at, parsed, peer_ids, text_or, FilterView};
use crate::json::{json_of_text, json_text, Json, JsonView};
use crate::text::{copy_texts, join, optional_text, same_text, texts};
use crate::text_map::TextMap;
use crate::time::{utc_now, Timestamp};
use crate::topic::{TopicFilter, TopicView};
use crate::types::{ChannelMessage, MessageView};
use vstd::arithmetic::power2::{lemma2_to64, lemma_pow2_unfold, pow2};
use vstd::prelude::*;

verus! {

/// Wait before the first new attempt to connect, in milliseconds.
pub const INITIAL_BACKOFF_MS: u64 = 1000;

/// Longest wait before a new attempt to connect, in milliseconds.
pub const MAX_BACKOFF_MS: u64 = 60000;

/// Heartbeat interval where the gateway names none, in milliseconds.
pub const DEFAULT_HEARTBEAT_MS: u64 = 45000;

/// Gateway opcode: an event.
pub const DISPATCH: u64 = 0;

/// Gateway opcode: a heartbeat, or a request for one.
pub const HEARTBEAT: u64 = 1;

/// Gateway opcode: starts a session.
pub const IDENTIFY: u64 = 2;

/// Gateway opcode: resumes a session.
pub const RESUME: u64 = 6;

/// Gateway opcode: the server asks for a new connection.
pub const RECONNECT: u64 = 7;

/// Gateway opcode: the session is not valid.
pub const INVALID_SESSION: u64 = 9;

/// Gateway opcode: greeting of the server.
pub const HELLO: u64 = 10;

/// Gateway opcode: a heartbeat was received.
pub const HEARTBEAT_ACK: u64 = 11;

/// Stands for the opcode of a payload that has none.
pub const NO_OPCODE: u64 = 999;

/// What a connection goes by.
pub struct GatewaySettings {
    /// The bot token.
    pub token: String,
    /// Servers whose messages count; all of them where there is none.
    pub allowed_guilds: Vec<String>,
    /// Users whose messages count; all of them where there is none.
    pub allowed_users: Vec<String>,
    /// Whether messages of unknown bots are dropped.
    pub ignore_bots: bool,
    /// The events that the bot subscribes to, as bits.
    pub intents: u64,
    /// Whether the agent is the default one of the channel.
    pub default: bool,
    /// Channel IDs where this bot is passive (only responds to direct @mentions).
    pub passive_channels: Vec<String>,
    /// Map of agent IDs to Discord user IDs for peer bot filtering.
    pub peers: TextMap<String>,
    /// Topic filter for Tier 1 ladder classification.
    pub topic_filter: Option<TopicFilter>,
}

/// The model of [`GatewaySettings`].
pub struct SettingsView {
    pub token: Seq<char>,
    pub allowed_guilds: Seq<Seq<char>>,
    pub allowed_users: Seq<Seq<char>>,
    pub ignore_bots: bool,
    pub intents: u64,
    pub default: bool,
    pub passive_channels: Seq<Seq<char>>,
    pub peers: Map<Seq<char>, Seq<char>>,
    pub topic_filter: Option<TopicView>,
}

impl View for GatewaySettings {
    type V = SettingsView;

    open spec fn view(&self) -> SettingsView {
        SettingsView {
            token: self.token@,
            allowed_guilds: texts(self.allowed_guilds@),
            allowed_users: texts(self.allowed_users@),
            ignore_bots: self.ignore_bots,
            intents: self.intents,
            default: self.default,
            passive_channels: texts(self.passive_channels@),
            peers: peer_ids(self.peers@),
            topic_filter: match self.topic_filter {
                Some(filter) => Some(filter@),
                None => None,
            },
        }
    }
}

impl SettingsView {
    /// What decides which messages reach the agent.
    pub open spec fn filter(self, bot_user_id: Option<Seq<char>>) -> FilterView {
        FilterView {
            bot_user_id,
            allowed_guilds: self.allowed_guilds,
            allowed_users: self.allowed_users,
            ignore_bots: self.ignore_bots,
            default: self.default,
            passive_channels: self.passive_channels,
            peers: self.peers,
            topic_filter: self.topic_filter,
        }
    }
}

impl Clone for GatewaySettings {
    fn clone(&self) -> (r: Self)
        ensures
            r@ == self@,
    {
        let peers = self.peers.copied();
        assert(peer_ids(peers@) =~= peer_ids(self.peers@));
        GatewaySettings {
            token: self.token.clone(),
            allowed_guilds: copy_texts(&self.allowed_guilds),
            allowed_users: copy_texts(&self.allowed_users),
            ignore_bots: self.ignore_bots,
            intents: self.intents,
            default: self.default,
            passive_channels: copy_texts(&self.passive_channels),
            peers,
            topic_filter: match &self.topic_filter {
                Some(filter) => Some(filter.clone()),
                None => None,
            },
        }
    }
}

/// What is known of the bot's session, over all its connections.
pub struct GatewaySession {
    /// Bot's own user ID (populated after READY event).
    pub bot_user_id: Option<String>,
    /// Session ID for resume (populated after READY event).
    pub session_id: Option<String>,
    /// Resume gateway URL.
    pub resume_gateway_url: Option<String>,
}

/// The model of a [`GatewaySession`].
pub struct SessionView {
    pub bot_user_id: Option<Seq<char>>,
    pub session_id: Option<Seq<char>>,
    pub resume_gateway_url: Option<Seq<char>>,
}

impl View for GatewaySession {
    type V = SessionView;

    open spec fn view(&self) -> SessionView {
        SessionView {
            bot_user_id: optional_text(self.bot_user_id),
            session_id: optional_text(self.session_id),
            resume_gateway_url: optional_text(self.resume_gateway_url),
        }
    }
}

impl GatewaySession {
    /// A session of which nothing is known yet.
    pub fn new() -> (session: Self)
        ensures
            session@ == (SessionView {
                bot_user_id: None,
                session_id: None,
                resume_gateway_url: None,
            }),
    {
        GatewaySession { bot_user_id: None, session_id: None, resume_gateway_url: None }
    }
}

/// Something that happened to a connection.
pub enum GatewayEvent {
    /// The run begins.
    Started,
    /// The connection stands.
    Connected,
    /// The connection could not be made.
    ConnectFailed,
    /// The wait is over.
    Slept,
    /// A text message arrived.
    Text(String),
    /// A message of another kind arrived.
    Other,
    /// The connection was closed or broke.
    Disconnected,
    /// The request to shut down was made or withdrawn.
    ShutdownChanged,
    /// The answer to the greeting was sent, or could not be.
    HandshakeSent(bool),
    /// A heartbeat was sent, or could not be.
    HeartbeatSent,
    /// A message was delivered, or nobody receives messages any more.
    Delivered(bool),
}

/// What to do next.
pub enum GatewayAction {
    /// Connect to a URL.
    Connect(String),
    /// Wait for some milliseconds.
    Sleep(u64),
    /// Wait for a message or for a change of the request to shut down.
    Receive,
    /// Send a text as the answer to the greeting.
    SendHandshake(String),
    /// Send a text as a heartbeat.
    SendHeartbeat(String),
    /// Deliver a message to the agent.
    Deliver(ChannelMessage),
    /// Close the connection and end.
    Close,
    /// End.
    Stop,
}

/// The model of a [`GatewayAction`].
pub enum ActionView {
    Connect(Seq<char>),
    Sleep(u64),
    Receive,
    SendHandshake(Seq<char>),
    SendHeartbeat(Seq<char>),
    Deliver(MessageView),
    Close,
    Stop,
}

impl View for GatewayAction {
    type V = ActionView;

    open spec fn view(&self) -> ActionView {
        match self {
            GatewayAction::Connect(url) => ActionView::Connect(url@),
            GatewayAction::Sleep(ms) => ActionView::Sleep(*ms),
            GatewayAction::Receive => ActionView::Receive,
            GatewayAction::SendHandshake(text) => ActionView::SendHandshake(text@),
            GatewayAction::SendHeartbeat(text) => ActionView::SendHeartbeat(text@),
            GatewayAction::Deliver(message) => ActionView::Deliver(message@),
            GatewayAction::Close => ActionView::Close,
            GatewayAction::Stop => ActionView::Stop,
        }
    }
}

/// The model of a [`GatewayRun`].
pub struct RunView {
    pub settings: SettingsView,
    /// Where the next connection goes.
    pub connect_url: Seq<char>,
    /// The next wait before an attempt to connect.
    pub backoff_ms: u64,
    /// Number of the last event, over all connections.
    pub sequence: Option<u64>,
    /// Heartbeat interval of the connection.
    pub heartbeat_interval: Option<u64>,
}

/// What a step comes to.
pub struct Outcome {
    pub run: RunView,
    pub session: SessionView,
    pub action: ActionView,
}

/// The wait after the next failure.
pub open spec fn doubled(backoff_ms: u64) -> u64 {
    if 2 * backoff_ms <= MAX_BACKOFF_MS {
        (2 * backoff_ms) as u64
    } else {
        MAX_BACKOFF_MS
    }
}

/// A gateway URL with the protocol version and encoding.
pub open spec fn versioned_url(url: Seq<char>) -> Seq<char> {
    url + "/?v=10&encoding=json"@
}

/// The message that starts a session.
pub open spec fn identify_message(settings: SettingsView) -> JsonView {
    JsonView::Object(
        Map::empty().insert("op"@, JsonView::Number(Some(IDENTIFY))).insert(
            "d"@,
            JsonView::Object(
                Map::empty().insert("token"@, JsonView::Text(settings.token)).insert(
                    "intents"@,
                    JsonView::Number(Some(settings.intents)),
                ).insert(
                    "properties"@,
                    JsonView::Object(
                        Map::empty().insert("os"@, JsonView::Text("linux"@)).insert(
                            "browser"@,
                            JsonView::Text("openfang"@),
                        ).insert("device"@, JsonView::Text("openfang"@)),
                    ),
                ),
            ),
        ),
    )
}

/// The message that resumes a session.
pub open spec fn resume_message(
    settings: SettingsView,
    session_id: Seq<char>,
    sequence: u64,
) -> JsonView {
    JsonView::Object(
        Map::empty().insert("op"@, JsonView::Number(Some(RESUME))).insert(
            "d"@,
            JsonView::Object(
                Map::empty().insert("token"@, JsonView::Text(settings.token)).insert(
                    "session_id"@,
                    JsonView::Text(session_id),
                ).insert("seq"@, JsonView::Number(Some(sequence))),
            ),
        ),
    )
}

/// The answer to the greeting: a session is resumed where one is known, with the
/// number of its last event, and started otherwise.
pub open spec fn handshake(
    settings: SettingsView,
    session_id: Option<Seq<char>>,
    sequence: Option<u64>,
) -> JsonView {
    match (session_id, sequence) {
        (Some(id), Some(number)) => resume_message(settings, id, number),
        _ => identify_message(settings),
    }
}

/// A heartbeat, with the number of the last event.
pub open spec fn heartbeat(sequence: Option<u64>) -> JsonView {
    JsonView::Object(
        Map::empty().insert("op"@, JsonView::Number(Some(HEARTBEAT))).insert(
            "d"@,
            match sequence {
                Some(number) => JsonView::Number(Some(number)),
                None => JsonView::Null,
            },
        ),
    )
}

/// The number under a key, or `default` where there is none.
pub open spec fn number_or(d: JsonView, key: Seq<char>, default: u64) -> u64 {
    match d.field(key).as_number() {
        Some(number) => number,
        None => default,
    }
}

/// The session after the READY event.
pub open spec fn ready_session(session: SessionView, d: JsonView) -> SessionView {
    SessionView {
        bot_user_id: Some(text_or(d.field("user"@), "id"@, ""@)),
        session_id: Some(text_or(d, "session_id"@, ""@)),
        resume_gateway_url: if text_or(d, "resume_gateway_url"@, ""@).len() > 0 {
            Some(text_or(d, "resume_gateway_url"@, ""@))
        } else {
            session.resume_gateway_url
        },
    }
}

impl RunView {
    /// Nothing but to receive the next message.
    pub open spec fn receive(self, session: SessionView) -> Outcome {
        Outcome { run: self, session, action: ActionView::Receive }
    }

    /// A connection is to be made, unless the run is to shut down.
    pub open spec fn connect(self, session: SessionView, shutdown: bool) -> Outcome {
        Outcome {
            run: self,
            session,
            action: if shutdown {
                ActionView::Stop
            } else {
                ActionView::Connect(self.connect_url)
            },
        }
    }

    /// The next attempt to connect is to be waited for.
    pub open spec fn wait(self, session: SessionView) -> Outcome {
        Outcome {
            run: RunView { backoff_ms: doubled(self.backoff_ms), ..self },
            session,
            action: ActionView::Sleep(self.backoff_ms),
        }
    }

    /// A new connection is needed: at the resume URL, where one is known.
    pub open spec fn reconnect(self, session: SessionView, shutdown: bool) -> Outcome {
        if shutdown {
            Outcome { run: self, session, action: ActionView::Stop }
        } else {
            RunView {
                connect_url: match session.resume_gateway_url {
                    Some(url) => versioned_url(url),
                    None => self.connect_url,
                },
                ..self
            }.wait(session)
        }
    }

    /// The run with the number of the event that a payload brings.
    pub open spec fn counted(self, payload: JsonView) -> RunView {
        match payload.field("s"@).as_number() {
            Some(number) => RunView { sequence: Some(number), ..self },
            None => self,
        }
    }

    /// What an event of the gateway comes to.
    pub open spec fn dispatched(
        self,
        session: SessionView,
        payload: JsonView,
        now: Timestamp,
    ) -> Outcome {
        let name = text_or(payload, "t"@, ""@);
        let d = payload.field("d"@);
        if name == "READY"@ {
            self.receive(ready_session(session, d))
        } else if name == "MESSAGE_CREATE"@ || name == "MESSAGE_UPDATE"@ {
            match parsed(d, self.settings.filter(session.bot_user_id), now) {
                Some(message) => Outcome {
                    run: self,
                    session,
                    action: ActionView::Deliver(message),
                },
                None => self.receive(session),
            }
        } else {
            self.receive(session)
        }
    }

    /// What a payload comes to.
    pub open spec fn received(
        self,
        session: SessionView,
        payload: JsonView,
        shutdown: bool,
        now: Timestamp,
    ) -> Outcome {
        let run = self.counted(payload);
        let op = number_or(payload, "op"@, NO_OPCODE);
        if op == HELLO {
            Outcome {
                run: RunView {
                    heartbeat_interval: Some(
                        number_or(
                            payload.field("d"@),
                            "heartbeat_interval"@,
                            DEFAULT_HEARTBEAT_MS,
                        ),
                    ),
                    ..run
                },
                session,
                action: ActionView::SendHandshake(
                    json_text(handshake(run.settings, session.session_id, run.sequence)),
                ),
            }
        } else if op == DISPATCH {
            run.dispatched(session, payload, now)
        } else if op == HEARTBEAT {
            Outcome {
                run,
                session,
                action: ActionView::SendHeartbeat(json_text(heartbeat(run.sequence))),
            }
        } else if op == RECONNECT {
            run.reconnect(session, shutdown)
        } else if op == INVALID_SESSION {
            if payload.field("d"@).as_flag() == Some(true) {
                run.reconnect(session, shutdown)
            } else {
                RunView { sequence: None, ..run }.reconnect(
                    SessionView { session_id: None, ..session },
                    shutdown,
                )
            }
        } else {
            run.receive(session)
        }
    }

    /// What an event comes to.
    pub open spec fn stepped(
        self,
        session: SessionView,
        event: GatewayEvent,
        shutdown: bool,
        now: Timestamp,
    ) -> Outcome {
        match event {
            GatewayEvent::Started | GatewayEvent::Slept => self.connect(session, shutdown),
            GatewayEvent::Connected => RunView {
                backoff_ms: INITIAL_BACKOFF_MS,
                heartbeat_interval: None,
                ..self
            }.receive(session),
            GatewayEvent::ConnectFailed => self.wait(session),
            GatewayEvent::Text(text) => match json_of_text(text@) {
                Ok(payload) => self.received(session, payload, shutdown, now),
                Err(_) => self.receive(session),
            },
            GatewayEvent::Other | GatewayEvent::HeartbeatSent => self.receive(session),
            GatewayEvent::Disconnected => self.reconnect(session, shutdown),
            GatewayEvent::ShutdownChanged => if shutdown {
                Outcome { run: self, session, action: ActionView::Close }
            } else {
                self.receive(session)
            },
            GatewayEvent::HandshakeSent(sent) => if sent {
                self.receive(session)
            } else {
                self.reconnect(session, shutdown)
            },
            GatewayEvent::Delivered(delivered) => if delivered {
                self.receive(session)
            } else {
                Outcome { run: self, session, action: ActionView::Stop }
            },
        }
    }
}

/// A gateway URL with the protocol version and encoding.
pub fn with_version(url: &str) -> (r: String)
    ensures
        r@ == versioned_url(url@),
{
    join(url, "/?v=10&encoding=json")
}

/// The answer to the greeting of the gateway.
pub fn gateway_handshake(
    settings: &GatewaySettings,
    session_id: &Option<String>,
    sequence: Option<u64>,
) -> (r: Json)
    ensures
        r@ == handshake(settings@, optional_text(*session_id), sequence),
        r.whole(),
{
    match (session_id, sequence) {
        (Some(id), Some(number)) => {
            let d = Json::object().with("token", Json::Text(settings.token.clone())).with(
                "session_id",
                Json::Text(id.clone()),
            ).with("seq", Json::Number(Some(number)));
            Json::object().with("op", Json::Number(Some(RESUME))).with("d", d)
        },
        _ => {
            let properties = Json::object().with("os", Json::Text("linux".to_owned())).with(
                "browser",
                Json::Text("openfang".to_owned()),
            ).with("device", Json::Text("openfang".to_owned()));
            let d = Json::object().with("token", Json::Text(settings.token.clone())).with(
                "intents",
                Json::Number(Some(settings.intents)),
            ).with("properties", properties);
            Json::object().with("op", Json::Number(Some(IDENTIFY))).with("d", d)
        },
    }
}

/// A heartbeat.
pub fn gateway_heartbeat(sequence: Option<u64>) -> (r: Json)
    ensures
        r@ == heartbeat(sequence),
        r.whole(),
{
    let d = match sequence {
        Some(number) => Json::Number(Some(number)),
        None => Json::Null,
    };
    Json::object().with("op", Json::Number(Some(HEARTBEAT))).with("d", d)
}

/// A run of the gateway connection, over all its connections.
pub struct GatewayRun {
    settings: GatewaySettings,
    connect_url: String,
    backoff_ms: u64,
    sequence: Option<u64>,
    heartbeat_interval: Option<u64>,
}

impl View for GatewayRun {
    type V = RunView;

    closed spec fn view(&self) -> RunView {
        RunView {
            settings: self.settings@,
            connect_url: self.connect_url@,
            backoff_ms: self.backoff_ms,
            sequence: self.sequence,
            heartbeat_interval: self.heartbeat_interval,
        }
    }
}

impl GatewayRun {
    #[verifier::type_invariant]
    spec fn inv(&self) -> bool {
        INITIAL_BACKOFF_MS <= self.backoff_ms <= MAX_BACKOFF_MS
    }

    /// A run that begins at the given gateway URL.
    pub fn new(settings: GatewaySettings, gateway_url: String) -> (run: Self)
        ensures
            run@ == (RunView {
                settings: settings@,
                connect_url: gateway_url@,
                backoff_ms: INITIAL_BACKOFF_MS,
                sequence: None,
                heartbeat_interval: None,
            }),
    {
        GatewayRun {
            settings,
            connect_url: gateway_url,
            backoff_ms: INITIAL_BACKOFF_MS,
            sequence: None,
            heartbeat_interval: None,
        }
    }

    /// Number of the last event.
    pub fn sequence(&self) -> (r: Option<u64>)
        ensures
            r == self@.sequence,
    {
        self.sequence
    }

    /// Heartbeat interval of the connection, in milliseconds.
    pub fn heartbeat_interval(&self) -> (r: Option<u64>)
        ensures
            r == self@.heartbeat_interval,
    {
        self.heartbeat_interval
    }

    /// Wipe the bot token out of memory.
    pub fn wipe_token(&mut self)
        ensures
            final(self)@ == (RunView {
                settings: SettingsView { token: Seq::empty(), ..old(self)@.settings },
                ..old(self)@
            }),
    {
        proof {
            use_type_invariant(&*self);
        }
        let mut token = String::new();
        std::mem::swap(&mut token, &mut self.settings.token);
        wipe(&mut token);
        assert(self.settings.token@ =~= Seq::empty());
    }

    fn wait(&mut self) -> (action: GatewayAction)
        ensures
            forall|session: SessionView|
                #![trigger old(self)@.wait(session)]
                final(self)@ == old(self)@.wait(session).run && action@ == old(self)@.wait(
                    session,
                ).action,
    {
        proof {
            use_type_invariant(&*self);
        }
        let ms: u64 = self.backoff_ms;
        self.backoff_ms = if 2 * ms <= MAX_BACKOFF_MS {
            2 * ms
        } else {
            MAX_BACKOFF_MS
        };
        GatewayAction::Sleep(ms)
    }

    fn reconnect(&mut self, session: &GatewaySession, shutdown: bool) -> (action: GatewayAction)
        ensures
            final(self)@ == old(self)@.reconnect(session@, shutdown).run,
            action@ == old(self)@.reconnect(session@, shutdown).action,
    {
        proof {
            use_type_invariant(&*self);
        }
        if shutdown {
            return GatewayAction::Stop;
        }
        // Try resume URL if available
        if let Some(url) = &session.resume_gateway_url {
            self.connect_url = with_version(url.as_str());
        }
        let ghost moved = self@;
        let action = self.wait();
        assert(moved.wait(session@) == old(self)@.reconnect(session@, shutdown));
        action
    }

    fn dispatch(&mut self, session: &mut GatewaySession, payload: &Json, now: Timestamp) -> (
        action: GatewayAction)
        requires
            now.valid(),
        ensures
            final(self)@ == old(self)@.dispatched(old(session)@, payload@, now).run,
            final(session)@ == old(self)@.dispatched(old(session)@, payload@, now).session,
            action@ == old(self)@.dispatched(old(session)@, payload@, now).action,
    {
        proof {
            reveal_strlit("");
        }
        let name = match payload.field_text("t") {
            Some(name) => name,
            None => "",
        };
        let none = Json::Null;
        let d = match payload.field("d") {
            Some(d) => d,
            None => &none,
        };
        assert(d@ == payload@.field("d"@));
        if same_text(name, "READY") {
            let user_id = match d.field("user") {
                Some(user) => match user.field_text("id") {
                    Some(id) => id,
                    None => "",
                },
                None => "",
            };
            let session_id = match d.field_text("session_id") {
                Some(id) => id,
                None => "",
            };
            let resume_url = match d.field_text("resume_gateway_url") {
                Some(url) => url,
                None => "",
            };
            session.bot_user_id = Some(user_id.to_owned());
            session.session_id = Some(session_id.to_owned());
            if resume_url.unicode_len() > 0 {
                session.resume_gateway_url = Some(resume_url.to_owned());
            }
            assert(session@ == ready_session(old(session)@, d@));
            GatewayAction::Receive
        } else if same_text(name, "MESSAGE_CREATE") || same_text(name, "MESSAGE_UPDATE") {
            let message = parse_discord_message_at(
                d,
                &session.bot_user_id,
                self.settings.allowed_guilds.as_slice(),
                self.settings.allowed_users.as_slice(),
                self.settings.ignore_bots,
                self.settings.default,
                self.settings.passive_channels.as_slice(),
                &self.settings.peers,
                self.settings.topic_filter.as_ref(),
                now,
            );
            match message {
                Some(message) => GatewayAction::Deliver(message),
                None => GatewayAction::Receive,
            }
        } else {
            GatewayAction::Receive
        }
    }

    /// Takes a payload of the gateway at a given time.
    pub fn receive_at(
        &mut self,
        session: &mut GatewaySession,
        payload: &Json,
        shutdown: bool,
        now: Timestamp,
    ) -> (action: GatewayAction)
        requires
            now.valid(),
        ensures
            final(self)@ == old(self)@.received(old(session)@, payload@, shutdown, now).run,
            final(session)@ == old(self)@.received(
                old(session)@,
                payload@,
                shutdown,
                now,
            ).session,
            action@ == old(self)@.received(old(session)@, payload@, shutdown, now).action,
    {
        proof {
            use_type_invariant(&*self);
        }
        let op: u64 = match payload.field_number("op") {
            Some(op) => op,
            None => NO_OPCODE,
        };
        if let Some(number) = payload.field_number("s") {
            self.sequence = Some(number);
        }
        assert(self@ == old(self)@.counted(payload@));
        if op == HELLO {
            let stated = match payload.field("d") {
                Some(d) => d.field_number("heartbeat_interval"),
                None => None,
            };
            let interval: u64 = match stated {
                Some(interval) => interval,
                None => DEFAULT_HEARTBEAT_MS,
            };
            self.heartbeat_interval = Some(interval);
            // RESUME if there is a session, otherwise IDENTIFY
            let answer = gateway_handshake(&self.settings, &session.session_id, self.sequence);
            GatewayAction::SendHandshake(answer.render())
        } else if op == DISPATCH {
            self.dispatch(session, payload, now)
        } else if op == HEARTBEAT {
            // Server requests immediate heartbeat
            GatewayAction::SendHeartbeat(gateway_heartbeat(self.sequence).render())
        } else if op == RECONNECT {
            self.reconnect(session, shutdown)
        } else if op == INVALID_SESSION {
            let resumable = match payload.field_flag("d") {
                Some(flag) => flag,
                None => false,
            };
            if !resumable {
                session.session_id = None;
                self.sequence = None;
            }
            self.reconnect(session, shutdown)
        } else {
            GatewayAction::Receive
        }
    }

    /// Takes an event at a given time.
    pub fn step_at(
        &mut self,
        session: &mut GatewaySession,
        event: GatewayEvent,
        shutdown: bool,
        now: Timestamp,
    ) -> (action: GatewayAction)
        requires
            now.valid(),
        ensures
            final(self)@ == old(self)@.stepped(old(session)@, event, shutdown, now).run,
            final(session)@ == old(self)@.stepped(old(session)@, event, shutdown, now).session,
            action@ == old(self)@.stepped(old(session)@, event, shutdown, now).action,
    {
        proof {
            use_type_invariant(&*self);
        }
        match event {
            GatewayEvent::Started | GatewayEvent::Slept => if shutdown {
                GatewayAction::Stop
            } else {
                GatewayAction::Connect(self.connect_url.clone())
            },
            GatewayEvent::Connected => {
                self.backoff_ms = INITIAL_BACKOFF_MS;
                self.heartbeat_interval = None;
                GatewayAction::Receive
            },
            GatewayEvent::ConnectFailed => {
                let action = self.wait();
                assert(old(self)@.wait(session@).session == session@);
                action
            },
            GatewayEvent::Text(text) => match Json::parse(text.as_str()) {
                Ok(payload) => self.receive_at(session, &payload, shutdown, now),
                Err(_) => GatewayAction::Receive,
            },
            GatewayEvent::Other | GatewayEvent::HeartbeatSent => GatewayAction::Receive,
            GatewayEvent::Disconnected => self.reconnect(session, shutdown),
            GatewayEvent::ShutdownChanged => if shutdown {
                GatewayAction::Close
            } else {
                GatewayAction::Receive
            },
            GatewayEvent::HandshakeSent(sent) => if sent {
                GatewayAction::Receive
            } else {
                self.reconnect(session, shutdown)
            },
            GatewayEvent::Delivered(delivered) => if delivered {
                GatewayAction::Receive
            } else {
                GatewayAction::Stop
            },
        }
    }

    /// Takes an event: changes the run and the session, and says what to do next.
    /// `shutdown` says whether the run is to end.
    pub fn step(&mut self, session: &mut GatewaySession, event: GatewayEvent, shutdown: bool) -> (
        action: GatewayAction)
        ensures
            exists|now: Timestamp|
                #![trigger now.on_clock()]
                now.on_clock() && ({
                    let outcome = old(self)@.stepped(old(session)@, event, shutdown, now);
                    &&& final(self)@ == outcome.run
                    &&& final(session)@ == outcome.session
                    &&& action@ == outcome.action
                }),
    {
        let now = utc_now();
        self.step_at(session, event, shutdown, now)
    }
}

/// The run after a number of attempts to connect that failed, with the waits
/// between them.
pub open spec fn after_failures(
    run: RunView,
    session: SessionView,
    failures: nat,
    now: Timestamp,
) -> RunView
    decreases failures,
{
    if failures == 0 {
        run
    } else {
        let failed = after_failures(run, session, (failures - 1) as nat, now).stepped(
            session,
            GatewayEvent::ConnectFailed,
            false,
            now,
        );
        failed.run.stepped(session, GatewayEvent::Slept, false, now).run
    }
}

/// The wait before the next attempt doubles with each failure, from the initial
/// wait up to the longest one, and a connection that stands resets it.
pub proof fn law_waits_double_up_to_the_longest(
    run: RunView,
    session: SessionView,
    failures: nat,
    now: Timestamp,
)
    ensures
        ({
            let connected = run.stepped(session, GatewayEvent::Connected, false, now).run;
            let later = after_failures(connected, session, failures, now);
            &&& connected.backoff_ms == INITIAL_BACKOFF_MS
            &&& later.backoff_ms == if INITIAL_BACKOFF_MS * pow2(failures) <= MAX_BACKOFF_MS {
                INITIAL_BACKOFF_MS * pow2(failures)
            } else {
                MAX_BACKOFF_MS as int
            }
            &&& later.stepped(session, GatewayEvent::ConnectFailed, false, now).action
                == ActionView::Sleep(later.backoff_ms)
            &&& later.connect_url == run.connect_url
        }),
    decreases failures,
{
    if failures == 0 {
        lemma2_to64();
    } else {
        law_waits_double_up_to_the_longest(run, session, (failures - 1) as nat, now);
        lemma_pow2_unfold(failures);
    }
}

/// Whatever happens, the settings stay as they are, the wait stays between the
/// initial and the longest one, and the bot's user ID and resume URL, once known,
/// are never forgotten.
pub proof fn law_every_step_keeps_what_is_known(
    run: RunView,
    session: SessionView,
    event: GatewayEvent,
    shutdown: bool,
    now: Timestamp,
)
    requires
        INITIAL_BACKOFF_MS <= run.backoff_ms <= MAX_BACKOFF_MS,
    ensures
        ({
            let outcome = run.stepped(session, event, shutdown, now);
            &&& outcome.run.settings == run.settings
            &&& INITIAL_BACKOFF_MS <= outcome.run.backoff_ms <= MAX_BACKOFF_MS
            &&& session.bot_user_id is Some ==> outcome.session.bot_user_id is Some
            &&& session.resume_gateway_url is Some ==> outcome.session.resume_gateway_url is Some
        }),
{
}

/// A lost connection costs neither the session nor the number of its last event.
pub proof fn law_sessions_outlive_connections(
    run: RunView,
    session: SessionView,
    shutdown: bool,
    now: Timestamp,
)
    ensures
        ({
            let lost = run.stepped(session, GatewayEvent::Disconnected, shutdown, now);
            let again = lost.run.stepped(lost.session, GatewayEvent::Connected, shutdown, now);
            &&& lost.session == session
            &&& again.session == session
            &&& again.run.sequence == run.sequence
        }),
{
}

/// A session is resumed exactly where both its ID and the number of its last
/// event are known, and the message then carries both; otherwise a session is
/// started. Either way the bot's token is sent.
pub proof fn law_known_sessions_are_resumed(
    settings: SettingsView,
    session_id: Option<Seq<char>>,
    sequence: Option<u64>,
)
    ensures
        ({
            let message = handshake(settings, session_id, sequence);
            let d = message.field("d"@);
            &&& d.field("token"@).as_text() == Some(settings.token)
            &&& if session_id is Some && sequence is Some {
                &&& message.field("op"@).as_number() == Some(RESUME)
                &&& d.field("session_id"@).as_text() == session_id
                &&& d.field("seq"@).as_number() == sequence
            } else {
                &&& message.field("op"@).as_number() == Some(IDENTIFY)
                &&& d.field("intents"@).as_number() == Some(settings.intents)
            }
        }),
{
    reveal_strlit("op");
    reveal_strlit("d");
    reveal_strlit("token");
    reveal_strlit("session_id");
    reveal_strlit("seq");
    reveal_strlit("intents");
    reveal_strlit("properties");
    assert("op"@.len() == 2 && "d"@.len() == 1 && "token"@.len() == 5 && "session_id"@.len() == 10
        && "seq"@.len() == 3 && "intents"@.len() == 7 && "properties"@.len() == 10);
}

/// After an invalid session that cannot be resumed, the next connection starts a
/// new session, whatever was known before.
pub proof fn law_lost_sessions_are_started_anew(
    run: RunView,
    session: SessionView,
    payload: JsonView,
    hello: JsonView,
    now: Timestamp,
)
    requires
        number_or(payload, "op"@, NO_OPCODE) == INVALID_SESSION,
        payload.field("d"@).as_flag() != Some(true),
        number_or(hello, "op"@, NO_OPCODE) == HELLO,
    ensures
        ({
            let lost = run.received(session, payload, false, now);
            let again = lost.run.stepped(lost.session, GatewayEvent::Connected, false, now);
            &&& lost.action is Sleep
            &&& lost.run.sequence is None
            &&& lost.session.session_id is None
            &&& again.run.received(again.session, hello, false, now).action
                == ActionView::SendHandshake(json_text(identify_message(run.settings)))
        }),
{
}

/// What the READY event says of a session is what the session is resumed with
/// once the connection is lost: at its resume URL, where it names one, with its
/// ID and the number of the last event.
pub proof fn law_ready_sessions_are_resumed(
    run: RunView,
    session: SessionView,
    ready: JsonView,
    hello: JsonView,
    now: Timestamp,
)
    requires
        number_or(ready, "op"@, NO_OPCODE) == DISPATCH,
        text_or(ready, "t"@, ""@) == "READY"@,
        ready.field("s"@).as_number() is Some,
        number_or(hello, "op"@, NO_OPCODE) == HELLO,
        hello.field("s"@).as_number() is None,
    ensures
        ({
            let d = ready.field("d"@);
            let known = run.received(session, ready, false, now);
            let lost = known.run.stepped(known.session, GatewayEvent::Disconnected, false, now);
            let awake = lost.run.stepped(lost.session, GatewayEvent::Slept, false, now);
            let again = awake.run.stepped(awake.session, GatewayEvent::Connected, false, now);
            &&& text_or(d, "resume_gateway_url"@, ""@).len() > 0 ==> awake.action
                == ActionView::Connect(versioned_url(text_or(d, "resume_gateway_url"@, ""@)))
            &&& again.run.received(again.session, hello, false, now).action
                == ActionView::SendHandshake(
                json_text(
                    resume_message(
                        run.settings,
                        text_or(d, "session_id"@, ""@),
                        ready.field("s"@).as_number().unwrap(),
                    ),
                ),
            )
        }),
{
}

/// An edited message is treated as a new one is.
pub proof fn law_edits_are_treated_as_messages(
    run: RunView,
    session: SessionView,
    created: JsonView,
    updated: JsonView,
    shutdown: bool,
    now: Timestamp,
)
    requires
        created.field("op"@) == updated.field("op"@),
        created.field("s"@) == updated.field("s"@),
        created.field("d"@) == updated.field("d"@),
        created.field("t"@).as_text() == Some("MESSAGE_CREATE"@),
        updated.field("t"@).as_text() == Some("MESSAGE_UPDATE"@),
    ensures
        run.received(session, created, shutdown, now) == run.received(
            session,
            updated,
            shutdown,
            now,
        ),
{
    reveal_strlit("READY");
    reveal_strlit("MESSAGE_CREATE");
    reveal_strlit("MESSAGE_UPDATE");
    assert("READY"@.len() == 5);
    assert("MESSAGE_CREATE"@.len() == 14);
    assert("MESSAGE_UPDATE"@.len() == 14);
}

/// Once READY has told the bot its own user ID, no message of that user is ever
/// delivered.
pub proof fn law_own_messages_are_never_delivered(
    run: RunView,
    session: SessionView,
    payload: JsonView,
    shutdown: bool,
    now: Timestamp,
)
    requires
        session.bot_user_id == Some(author_id(payload.field("d"@))),
    ensures
        !(run.received(session, payload, shutdown, now).action is Deliver),
{
}

/// A request to shut down ends the run at every point where it would connect
/// again or wait for a message.
pub proof fn law_shutdown_ends_the_run(run: RunView, session: SessionView, now: Timestamp)
    ensures
        run.stepped(session, GatewayEvent::Started, true, now).action is Stop,
        run.stepped(session, GatewayEvent::Slept, true, now).action is Stop,
        run.stepped(session, GatewayEvent::Disconnected, true, now).action is Stop,
        run.stepped(session, GatewayEvent::ShutdownChanged, true, now).action is Close,
{
}

/// A message that is no JSON document, or one of an unknown kind that brings no
/// event number, changes nothing.
pub proof fn law_unknown_messages_change_nothing(
    run: RunView,
    session: SessionView,
    text: String,
    shutdown: bool,
    now: Timestamp,
)
    requires
        match json_of_text(text@) {
            Ok(payload) => {
                let op = number_or(payload, "op"@, NO_OPCODE);
                &&& payload.field("s"@).as_number() is None
                &&& op != DISPATCH && op != HEARTBEAT && op != RECONNECT && op != INVALID_SESSION
                    && op != HELLO
            },
            Err(_) => true,
        },
    ensures
        run.stepped(session, GatewayEvent::Text(text), shutdown, now) == run.receive(session),
{
}

/// The messages to the gateway, entry by entry: a resumed session is told the
/// token, its ID and the number of its last event; a new one the token, the intents
/// and what the client is; and a heartbeat the number of the last event, or nothing
/// where there was none.
pub proof fn law_gateway_messages(
    settings: SettingsView,
    id: Seq<char>,
    number: u64,
    session_id: Option<Seq<char>>,
    sequence: Option<u64>,
)
    ensures
        handshake(settings, Some(id), Some(number)) == JsonView::Object(
            map![
                "op"@ => JsonView::Number(Some(6)),
                "d"@ => JsonView::Object(
                    map![
                        "token"@ => JsonView::Text(settings.token),
                        "session_id"@ => JsonView::Text(id),
                        "seq"@ => JsonView::Number(Some(number)),
                    ],
                ),
            ],
        ),
        session_id is None || sequence is None ==> handshake(settings, session_id, sequence)
            == JsonView::Object(
            map![
                "op"@ => JsonView::Number(Some(2)),
                "d"@ => JsonView::Object(
                    map![
                        "token"@ => JsonView::Text(settings.token),
                        "intents"@ => JsonView::Number(Some(settings.intents)),
                        "properties"@ => JsonView::Object(
                            map![
                                "os"@ => JsonView::Text("linux"@),
                                "browser"@ => JsonView::Text("openfang"@),
                                "device"@ => JsonView::Text("openfang"@),
                            ],
                        ),
                    ],
                ),
            ],
        ),
        heartbeat(Some(number)) == JsonView::Object(
            map!["op"@ => JsonView::Number(Some(1)), "d"@ => JsonView::Number(Some(number))],
        ),
        heartbeat(None) == JsonView::Object(
            map!["op"@ => JsonView::Number(Some(1)), "d"@ => JsonView::Null],
        ),
{
}

/// The number that a payload has under a key.
pub open spec fn has_number(payload: JsonView, key: Seq<char>, number: u64) -> bool {
    payload.field(key) == JsonView::Number(Some(number))
}

/// A payload says that the session is lost and cannot be resumed.
pub open spec fn loses_session(payload: JsonView) -> bool {
    has_number(payload, "op"@, 9) && payload.field("d"@) != JsonView::Bool(true)
}

/// A payload says that the session is ready.
pub open spec fn makes_ready(payload: JsonView) -> bool {
    has_number(payload, "op"@, 0) && payload.field("t"@) == JsonView::Text("READY"@)
}

/// A payload asks for a new connection.
pub open spec fn asks_to_reconnect(payload: JsonView) -> bool {
    has_number(payload, "op"@, 7) || has_number(payload, "op"@, 9)
}

/// What is known of the session survives every payload but those that say
/// otherwise. Its ID changes only where the session is lost or made ready, and the
/// number of the last event is that of the payload, if it brings one, or else the
/// one before, unless the session is lost. The bot's user ID and the resume URL
/// change only where the session is made ready, and the settings never.
pub proof fn law_sessions_survive_payloads(
    run: RunView,
    session: SessionView,
    payload: JsonView,
    shutdown: bool,
    now: Timestamp,
    number: u64,
)
    ensures
        ({
            let after = run.received(session, payload, shutdown, now);
            &&& after.run.settings == run.settings
            &&& !loses_session(payload) && !makes_ready(payload) ==> after.session == session
            &&& loses_session(payload) ==> {
                &&& after.session.session_id is None
                &&& after.run.sequence is None
                &&& after.session.bot_user_id == session.bot_user_id
                &&& after.session.resume_gateway_url == session.resume_gateway_url
            }
            &&& !loses_session(payload) && has_number(payload, "s"@, number) ==> after.run.sequence
                == Some(number)
            &&& !loses_session(payload) && payload.field("s"@).as_number() is None
                ==> after.run.sequence == run.sequence
        }),
{
    reveal_strlit("");
    reveal_strlit("READY");
    assert("READY"@.len() == 5 && ""@.len() == 0);
}

/// The READY event tells the bot its user ID, the ID of its session and, unless it
/// is empty, where to resume it; what it leaves out is empty, but for the place to
/// resume, which then stays what it was.
pub proof fn law_ready_events_are_learned(
    run: RunView,
    session: SessionView,
    payload: JsonView,
    shutdown: bool,
    now: Timestamp,
    text: Seq<char>,
)
    requires
        makes_ready(payload),
    ensures
        ({
            let d = payload.field("d"@);
            let after = run.received(session, payload, shutdown, now);
            &&& after.action is Receive
            &&& d.field("user"@).field("id"@) == JsonView::Text(text) ==> after.session.bot_user_id
                == Some(text)
            &&& !(d.field("user"@).field("id"@) is Text) ==> after.session.bot_user_id == Some(
                Seq::<char>::empty(),
            )
            &&& d.field("session_id"@) == JsonView::Text(text) ==> after.session.session_id
                == Some(text)
            &&& !(d.field("session_id"@) is Text) ==> after.session.session_id == Some(
                Seq::<char>::empty(),
            )
            &&& d.field("resume_gateway_url"@) == JsonView::Text(text) && text.len() > 0
                ==> after.session.resume_gateway_url == Some(text)
            &&& !(d.field("resume_gateway_url"@) is Text) || d.field("resume_gateway_url"@)
                == JsonView::Text(Seq::empty()) ==> after.session.resume_gateway_url
                == session.resume_gateway_url
        }),
{
    reveal_strlit("");
    assert(""@ =~= Seq::empty());
}

/// A payload that asks for a new connection is followed by a wait, unless the run
/// is to shut down, which it then does: the next connection goes to the place to
/// resume, where one is known, and the wait after it is twice as long, a minute at
/// most. No other payload changes where the next connection goes, nor the wait.
pub proof fn law_payloads_that_ask_to_reconnect(
    run: RunView,
    session: SessionView,
    payload: JsonView,
    shutdown: bool,
    now: Timestamp,
    interval: u64,
)
    ensures
        ({
            let after = run.received(session, payload, shutdown, now);
            let reconnects = asks_to_reconnect(payload);
            &&& reconnects && shutdown ==> after.action is Stop
            &&& reconnects && !shutdown ==> {
                &&& after.action == ActionView::Sleep(run.backoff_ms)
                &&& after.run.backoff_ms == if 2 * run.backoff_ms <= 60000 {
                    2 * run.backoff_ms
                } else {
                    60000
                }
                &&& after.run.connect_url == match session.resume_gateway_url {
                    Some(url) => url + "/?v=10&encoding=json"@,
                    None => run.connect_url,
                }
            }
            &&& !reconnects || shutdown ==> {
                &&& after.run.backoff_ms == run.backoff_ms
                &&& after.run.connect_url == run.connect_url
            }
            &&& has_number(payload, "op"@, 10) && payload.field("d"@).field("heartbeat_interval"@)
                == JsonView::Number(Some(interval)) ==> after.run.heartbeat_interval == Some(
                interval,
            )
            &&& has_number(payload, "op"@, 10) && payload.field("d"@).field(
                "heartbeat_interval"@,
            ).as_number() is None ==> after.run.heartbeat_interval == Some(45000u64)
            &&& !has_number(payload, "op"@, 10) ==> after.run.heartbeat_interval
                == run.heartbeat_interval
        }),
{
}

/// The greeting is answered by a handshake and a heartbeat by a heartbeat, both
/// with what is known then; every other payload that asks for no new connection and
/// brings no message is only received.
pub proof fn law_payloads_are_answered(
    run: RunView,
    session: SessionView,
    payload: JsonView,
    shutdown: bool,
    now: Timestamp,
)
    ensures
        ({
            let after = run.received(session, payload, shutdown, now);
            let message = has_number(payload, "op"@, 0) && (payload.field("t"@) == JsonView::Text(
                "MESSAGE_CREATE"@,
            ) || payload.field("t"@) == JsonView::Text("MESSAGE_UPDATE"@));
            &&& has_number(payload, "op"@, 10) ==> after.action == ActionView::SendHandshake(
                json_text(handshake(run.settings, session.session_id, after.run.sequence)),
            )
            &&& has_number(payload, "op"@, 1) ==> after.action == ActionView::SendHeartbeat(
                json_text(heartbeat(after.run.sequence)),
            )
            &&& !has_number(payload, "op"@, 10) && !has_number(payload, "op"@, 1)
                && !asks_to_reconnect(payload) && !message ==> after.action is Receive
        }),
{
    reveal_strlit("");
    reveal_strlit("READY");
    reveal_strlit("MESSAGE_CREATE");
    reveal_strlit("MESSAGE_UPDATE");
    assert("READY"@.len() == 5 && ""@.len() == 0);
    assert("MESSAGE_CREATE"@.len() == 14 && "MESSAGE_UPDATE"@.len() == 14);
}

/// A new or edited message is delivered exactly where it reaches the agent by the
/// run's settings and the bot's user ID, and as what it then is; it changes nothing
/// but the number of the last event.
pub proof fn law_messages_are_delivered(
    run: RunView,
    session: SessionView,
    payload: JsonView,
    shutdown: bool,
    now: Timestamp,
)
    requires
        has_number(payload, "op"@, 0),
        payload.field("t"@) == JsonView::Text("MESSAGE_CREATE"@) || payload.field("t"@)
            == JsonView::Text("MESSAGE_UPDATE"@),
    ensures
        ({
            let after = run.received(session, payload, shutdown, now);
            let message = parsed(
                payload.field("d"@),
                FilterView {
                    bot_user_id: session.bot_user_id,
                    allowed_guilds: run.settings.allowed_guilds,
                    allowed_users: run.settings.allowed_users,
                    ignore_bots: run.settings.ignore_bots,
                    default: run.settings.default,
                    passive_channels: run.settings.passive_channels,
                    peers: run.settings.peers,
                    topic_filter: run.settings.topic_filter,
                },
                now,
            );
            &&& message matches Some(heard) ==> after.action == ActionView::Deliver(heard)
            &&& message is None ==> after.action is Receive
            &&& after.session == session
            &&& after.run == (RunView { sequence: after.run.sequence, ..run })
        }),
{
    reveal_strlit("READY");
    reveal_strlit("MESSAGE_CREATE");
    reveal_strlit("MESSAGE_UPDATE");
    assert("READY"@.len() == 5);
    assert("MESSAGE_CREATE"@.len() == 14 && "MESSAGE_UPDATE"@.len() == 14);
}

/// A text that is a document is taken as the payload that it is, and any other
/// changes nothing.
pub proof fn law_texts_are_payloads(
    run: RunView,
    session: SessionView,
    text: String,
    shutdown: bool,
    now: Timestamp,
)
    ensures
        ({
            let after = run.stepped(session, GatewayEvent::Text(text), shutdown, now);
            &&& json_of_text(text@) matches Ok(payload) ==> after == run.received(
                session,
                payload,
                shutdown,
                now,
            )
            &&& json_of_text(text@) is Err ==> after.run == run && after.session == session
                && after.action is Receive
        }),
{
}

/// What happens apart from texts leaves all that is known of the session, the
/// number of the last event and the settings as they are. A connection that stands
/// resets the wait and the heartbeat interval; a failed one is waited for, and so is
/// one that was lost or could not be greeted, at the place to resume where one is
/// known; and nothing else changes the run.
pub proof fn law_events_change_the_connection_only(
    run: RunView,
    session: SessionView,
    event: GatewayEvent,
    shutdown: bool,
    now: Timestamp,
)
    requires
        !(event is Text),
    ensures
        ({
            let after = run.stepped(session, event, shutdown, now);
            let lost = event is Disconnected || event == GatewayEvent::HandshakeSent(false);
            let waits = event is ConnectFailed || (lost && !shutdown);
            &&& after.session == session
            &&& after.run.settings == run.settings
            &&& after.run.sequence == run.sequence
            &&& after.run.heartbeat_interval == if event is Connected {
                None
            } else {
                run.heartbeat_interval
            }
            &&& after.run.backoff_ms == if event is Connected {
                1000
            } else if waits {
                if 2 * run.backoff_ms <= 60000 {
                    2 * run.backoff_ms
                } else {
                    60000
                }
            } else {
                run.backoff_ms as int
            }
            &&& after.run.connect_url == if lost && !shutdown && session.resume_gateway_url is Some {
                session.resume_gateway_url->0 + "/?v=10&encoding=json"@
            } else {
                run.connect_url
            }
            &&& waits ==> after.action == ActionView::Sleep(run.backoff_ms)
        }),
{
}

/// What is done after each event apart from texts: at the start and after a wait a
/// connection is made, unless the run is to shut down; the run ends where it is to
/// shut down or nobody receives messages any more; and otherwise the next message is
/// received.
pub proof fn law_events_are_followed(
    run: RunView,
    session: SessionView,
    event: GatewayEvent,
    shutdown: bool,
    now: Timestamp,
)
    ensures
        ({
            let action = run.stepped(session, event, shutdown, now).action;
            &&& event is Started || event is Slept ==> action == if shutdown {
                ActionView::Stop
            } else {
                ActionView::Connect(run.connect_url)
            }
            &&& event is Connected || event is Other || event is HeartbeatSent
                ==> action is Receive
            &&& event == GatewayEvent::HandshakeSent(true) || event == GatewayEvent::Delivered(
                true,
            ) ==> action is Receive
            &&& event == GatewayEvent::Delivered(false) ==> action is Stop
            &&& (event is Disconnected || event == GatewayEvent::HandshakeSent(false)) && shutdown
                ==> action is Stop
            &&& event is ShutdownChanged ==> action == if shutdown {
                ActionView::Close
            } else {
                ActionView::Receive
            }
        }),
{
}

/// A server that asks for a new connection costs the bot nothing: after the wait it
/// connects where it is to resume, and answers the greeting by resuming the session
/// that READY named, with the number of the last event that it was told of.
pub proof fn law_requested_reconnects_resume(
    run: RunView,
    session: SessionView,
    ready: JsonView,
    reconnect: JsonView,
    hello: JsonView,
    now: Timestamp,
    id: Seq<char>,
    number: u64,
)
    requires
        makes_ready(ready),
        ready.field("d"@).field("session_id"@) == JsonView::Text(id),
        has_number(ready, "s"@, number),
        has_number(reconnect, "op"@, 7),
        reconnect.field("s"@).as_number() is None,
        has_number(hello, "op"@, 10),
        hello.field("s"@).as_number() is None,
    ensures
        ({
            let known = run.received(session, ready, false, now);
            let asked = known.run.received(known.session, reconnect, false, now);
            let awake = asked.run.stepped(asked.session, GatewayEvent::Slept, false, now);
            let again = awake.run.stepped(awake.session, GatewayEvent::Connected, false, now);
            &&& asked.action is Sleep
            &&& awake.action is Connect
            &&& again.session.session_id == Some(id)
            &&& again.run.sequence == Some(number)
            &&& again.run.received(again.session, hello, false, now).action
                == ActionView::SendHandshake(
                json_text(
                    JsonView::Object(
                        map![
                            "op"@ => JsonView::Number(Some(6)),
                            "d"@ => JsonView::Object(
                                map![
                                    "token"@ => JsonView::Text(run.settings.token),
                                    "session_id"@ => JsonView::Text(id),
                                    "seq"@ => JsonView::Number(Some(number)),
                                ],
                            ),
                        ],
                    ),
                ),
            )
        }),
{
    law_gateway_messages(run.settings, id, number, None, None);
}

/// The models of settings, sessions and actions show all that these hold.
pub proof fn law_models_of_the_gateway(
    settings: GatewaySettings,
    session: GatewaySession,
    text: String,
    ms: u64,
    message: ChannelMessage,
)
    ensures
        settings@.token == settings.token@,
        settings@.allowed_guilds == texts(settings.allowed_guilds@),
        settings@.allowed_users == texts(settings.allowed_users@),
        settings@.ignore_bots == settings.ignore_bots,
        settings@.intents == settings.intents,
        settings@.default == settings.default,
        settings@.passive_channels == texts(settings.passive_channels@),
        settings@.peers == peer_ids(settings.peers@),
        settings.topic_filter matches Some(filter) ==> settings@.topic_filter == Some(filter@),
        settings.topic_filter is None ==> settings@.topic_filter is None,
        session@.bot_user_id == optional_text(session.bot_user_id),
        session@.session_id == optional_text(session.session_id),
        session@.resume_gateway_url == optional_text(session.resume_gateway_url),
        GatewayAction::Connect(text)@ == ActionView::Connect(text@),
        GatewayAction::Sleep(ms)@ == ActionView::Sleep(ms),
        GatewayAction::Receive@ is Receive,
        GatewayAction::SendHandshake(text)@ == ActionView::SendHandshake(text@),
        GatewayAction::SendHeartbeat(text)@ == ActionView::SendHeartbeat(text@),
        GatewayAction::Deliver(message)@ == ActionView::Deliver(message@),
        GatewayAction::Close@ is Close,
        GatewayAction::Stop@ is Stop,
{
}

/// `zeroize::Zeroize::zeroize` on a `String`: the string is empty afterwards. That
/// its bytes are overwritten in memory is not expressed.
#[verifier::external_body]
pub(crate) fn wipe(secret: &mut String)
    ensures
        final(secret)@ == Seq::<char>::empty(),
{
    zeroize::Zeroize::zeroize(secret)
}

} // verus!
