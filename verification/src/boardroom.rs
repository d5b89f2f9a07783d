//! Boardroom threads: who takes part in a thread, when its circuit breaker trips
//! and when it is idle.
//!
//! The registry decides; whoever owns it keeps the stored copies. Each operation
//! says what is to be written to storage or deleted from it.

use crate::text::{join, join3, starts_with, tail, texts};
use crate::text_map::{lemma_next_key, TextMap, TextSet};
use crate::time::{elapsed_longer_than, longer_than, utc_now, Span, Timestamp};
use crate::types::{BoardroomConfig, TurnPolicy};
use vstd::prelude::*;

verus! {

/// Number of the agent ID used for storing boardroom thread state.
pub const BOARDROOM_AGENT_ID: u128 = 0;

/// What the keys of stored threads begin with.
pub const THREAD_KEY_PREFIX: &'static str = "boardroom:thread:";

/// Lifecycle state of a boardroom thread.
#[derive(Debug, Clone, Copy, PartialEq, Eq, Structural)]
pub enum ThreadStatus {
    /// Thread created but no agents have joined yet.
    Open,
    /// At least one agent has joined and the thread is active.
    Active,
    /// Thread has been inactive for longer than `idle_timeout_minutes`.
    Idle,
    /// Thread has been explicitly closed or archived.
    Closed,
}

/// State of a single boardroom thread.
pub struct BoardroomThread {
    /// Discord thread ID (channel ID).
    pub thread_id: String,
    /// IDs of agents currently participating.
    pub participants: TextSet,
    /// Current lifecycle status.
    pub status: ThreadStatus,
    /// Turn policy for this thread.
    pub turn_policy: TurnPolicy,
    /// Number of consecutive bot messages (circuit breaker).
    pub bot_streak: u32,
    /// Timestamp of last activity (message or reaction).
    pub last_activity: Timestamp,
}

/// The model of a [`BoardroomThread`].
pub struct ThreadView {
    pub thread_id: Seq<char>,
    pub participants: Set<Seq<char>>,
    pub status: ThreadStatus,
    pub turn_policy: TurnPolicy,
    pub bot_streak: u32,
    pub last_activity: Timestamp,
}

impl View for BoardroomThread {
    type V = ThreadView;

    open spec fn view(&self) -> ThreadView {
        ThreadView {
            thread_id: self.thread_id@,
            participants: self.participants@,
            status: self.status,
            turn_policy: self.turn_policy,
            bot_streak: self.bot_streak,
            last_activity: self.last_activity,
        }
    }
}

impl ThreadView {
    /// A thread that nobody has joined.
    pub open spec fn opened(thread_id: Seq<char>, turn_policy: TurnPolicy, now: Timestamp) -> Self {
        ThreadView {
            thread_id,
            participants: Set::empty(),
            status: ThreadStatus::Open,
            turn_policy,
            bot_streak: 0,
            last_activity: now,
        }
    }

    /// The thread after a bot message.
    pub open spec fn after_bot(self, now: Timestamp) -> Self {
        ThreadView { bot_streak: (self.bot_streak + 1) as u32, last_activity: now, ..self }
    }

    /// The thread after a human message.
    pub open spec fn after_human(self, now: Timestamp) -> Self {
        ThreadView { bot_streak: 0, last_activity: now, ..self }
    }

    /// The thread with one more participant.
    pub open spec fn joined(self, agent_id: Seq<char>) -> Self {
        ThreadView {
            participants: self.participants.insert(agent_id),
            status: if self.status == ThreadStatus::Open {
                ThreadStatus::Active
            } else {
                self.status
            },
            ..self
        }
    }

    /// The thread without a participant. It is idle once the last one has left, and
    /// an active one is wherever nobody takes part in it.
    pub open spec fn left(self, agent_id: Seq<char>) -> Self {
        ThreadView {
            participants: self.participants.remove(agent_id),
            status: if self.participants.remove(agent_id) =~= Set::empty() && (
            self.participants.contains(agent_id) || self.status == ThreadStatus::Active) {
                ThreadStatus::Idle
            } else {
                self.status
            },
            ..self
        }
    }

    /// The circuit breaker has tripped.
    pub open spec fn tripped(self, max_bot_streak: u32) -> bool {
        self.bot_streak >= max_bot_streak
    }

    /// The thread has been inactive for longer than `timeout`.
    pub open spec fn idle(self, now: Timestamp, timeout: Span) -> bool {
        longer_than(self.last_activity, now, timeout)
    }
}

impl BoardroomThread {
    /// Create a new thread with default state.
    pub fn new(thread_id: String, turn_policy: TurnPolicy) -> (thread: Self)
        ensures
            exists|now: Timestamp|
                now.on_clock() && thread@ == #[trigger] ThreadView::opened(
                    thread_id@,
                    turn_policy,
                    now,
                ),
    {
        let now = utc_now();
        BoardroomThread::new_at(thread_id, turn_policy, now)
    }

    /// Create a new thread at a given time.
    pub fn new_at(thread_id: String, turn_policy: TurnPolicy, now: Timestamp) -> (thread: Self)
        ensures
            thread@ == ThreadView::opened(thread_id@, turn_policy, now),
    {
        BoardroomThread {
            thread_id,
            participants: TextSet::new(),
            status: ThreadStatus::Open,
            turn_policy,
            bot_streak: 0,
            last_activity: now,
        }
    }

    /// Record a bot message, incrementing the streak.
    pub fn record_bot_message(&mut self)
        requires
            old(self).bot_streak < u32::MAX,
        ensures
            exists|now: Timestamp|
                now.on_clock() && final(self)@ == #[trigger] old(self)@.after_bot(now),
    {
        let now = utc_now();
        self.record_bot_message_at(now)
    }

    /// Record a bot message at a given time.
    pub fn record_bot_message_at(&mut self, now: Timestamp)
        requires
            old(self).bot_streak < u32::MAX,
        ensures
            final(self)@ == old(self)@.after_bot(now),
    {
        self.bot_streak = self.bot_streak + 1;
        self.last_activity = now;
    }

    /// Record a human message, resetting the streak.
    pub fn record_human_message(&mut self)
        ensures
            exists|now: Timestamp|
                now.on_clock() && final(self)@ == #[trigger] old(self)@.after_human(now),
    {
        let now = utc_now();
        self.record_human_message_at(now)
    }

    /// Record a human message at a given time.
    pub fn record_human_message_at(&mut self, now: Timestamp)
        ensures
            final(self)@ == old(self)@.after_human(now),
    {
        self.bot_streak = 0;
        self.last_activity = now;
    }

    /// Add a participant agent.
    pub fn add_participant(&mut self, agent_id: String)
        ensures
            final(self)@ == old(self)@.joined(agent_id@),
    {
        let ghost agent = agent_id@;
        self.participants.insert(agent_id);
        assert(self.participants@.contains(agent));
        if self.status == ThreadStatus::Open && !self.participants.is_empty() {
            self.status = ThreadStatus::Active;
        }
    }

    /// Remove a participant. When the last one leaves, the thread is idle, and so is
    /// an active thread in which nobody takes part.
    pub fn remove_participant(&mut self, agent_id: &str)
        ensures
            final(self)@ == old(self)@.left(agent_id@),
    {
        let joined = self.participants.contains(agent_id);
        self.participants.remove(agent_id);
        if self.participants.is_empty() && (joined || self.status == ThreadStatus::Active) {
            self.status = ThreadStatus::Idle;
        }
    }

    /// Check whether the circuit breaker has tripped.
    pub fn circuit_breaker_tripped(&self, max_bot_streak: u32) -> (r: bool)
        ensures
            r == self@.tripped(max_bot_streak),
    {
        self.bot_streak >= max_bot_streak
    }

    /// Check whether the thread is idle (inactive longer than `idle_timeout`).
    pub fn is_idle(&self, idle_timeout: Span) -> (r: bool)
        requires
            self.last_activity.valid(),
            idle_timeout.valid(),
        ensures
            exists|now: Timestamp| now.on_clock() && r == #[trigger] self@.idle(now, idle_timeout),
    {
        let now = utc_now();
        self.is_idle_at(now, idle_timeout)
    }

    /// Check whether the thread is idle at a given time.
    pub fn is_idle_at(&self, now: Timestamp, idle_timeout: Span) -> (r: bool)
        requires
            self.last_activity.valid(),
            now.valid(),
            idle_timeout.valid(),
        ensures
            r == self@.idle(now, idle_timeout),
    {
        elapsed_longer_than(self.last_activity, now, idle_timeout)
    }
}

impl Clone for BoardroomThread {
    fn clone(&self) -> (r: Self)
        ensures
            r@ == self@,
    {
        let members = self.participants.to_vec();
        let mut participants = TextSet::new();
        for i in 0..members.len()
            invariant
                texts(members@).no_duplicates(),
                participants@ == texts(members@).take(i as int).to_set(),
        {
            let ghost all = texts(members@);
            participants.insert(members[i].clone());
            proof {
                lemma_next_key(all, i as int);
                assert(participants@ =~= all.take(i + 1).to_set());
            }
        }
        assert(texts(members@).take(members@.len() as int) =~= texts(members@));
        BoardroomThread {
            thread_id: self.thread_id.clone(),
            participants,
            status: self.status,
            turn_policy: self.turn_policy,
            bot_streak: self.bot_streak,
            last_activity: self.last_activity,
        }
    }
}

/// Why a boardroom operation failed.
#[derive(Debug, Clone)]
pub enum BoardroomError {
    /// The stored state could not be read or written.
    Memory(String),
}

impl BoardroomError {
    /// The message.
    pub open spec fn message(self) -> Seq<char> {
        match self {
            BoardroomError::Memory(message) => message@,
        }
    }
}

/// The key under which a thread is stored.
pub open spec fn key_of_thread(thread_id: Seq<char>) -> Seq<char> {
    THREAD_KEY_PREFIX@ + thread_id
}

/// The thread that is stored under a key, if the key is that of a thread.
pub open spec fn thread_of_key(key: Seq<char>) -> Option<Seq<char>> {
    if THREAD_KEY_PREFIX@.is_prefix_of(key) {
        Some(key.skip(THREAD_KEY_PREFIX@.len() as int))
    } else {
        None
    }
}

/// What is said of a stored thread that cannot be read.
pub open spec fn unreadable_message(thread_id: Seq<char>, reason: Seq<char>) -> Seq<char> {
    "Failed to deserialize thread "@ + thread_id + ": "@ + reason
}

/// What is said of a thread that cannot be written.
pub open spec fn unwritable_message(thread_id: Seq<char>, reason: Seq<char>) -> Seq<char> {
    "Failed to serialize thread "@ + thread_id + ": "@ + reason
}

/// The model of a stored entry: its key, and the thread that was read from its
/// value or the reason why none could be.
pub open spec fn stored_view(entry: (String, Result<BoardroomThread, String>)) -> (
    Seq<char>,
    Result<ThreadView, Seq<char>>,
) {
    (
        entry.0@,
        match entry.1 {
            Ok(thread) => Ok(thread@),
            Err(reason) => Err(reason@),
        },
    )
}

/// The models of stored entries.
pub open spec fn stored_views(entries: Seq<(String, Result<BoardroomThread, String>)>) -> Seq<
    (Seq<char>, Result<ThreadView, Seq<char>>),
> {
    entries.map_values(|e: (String, Result<BoardroomThread, String>)| stored_view(e))
}

/// The threads among stored entries, by their IDs, or the message for the first
/// one that cannot be read. Entries under other keys are passed over.
pub open spec fn loaded(entries: Seq<(Seq<char>, Result<ThreadView, Seq<char>>)>) -> Result<
    Map<Seq<char>, ThreadView>,
    Seq<char>,
>
    decreases entries.len(),
{
    if entries.len() == 0 {
        Ok(Map::empty())
    } else {
        match loaded(entries.drop_last()) {
            Err(message) => Err(message),
            Ok(threads) => match (thread_of_key(entries.last().0), entries.last().1) {
                (None, _) => Ok(threads),
                (Some(thread_id), Ok(thread)) => Ok(threads.insert(thread_id, thread)),
                (Some(thread_id), Err(reason)) => Err(unreadable_message(thread_id, reason)),
            },
        }
    }
}

/// The key under which a thread is stored.
pub fn thread_key(thread_id: &str) -> (key: String)
    ensures
        key@ == key_of_thread(thread_id@),
{
    join(THREAD_KEY_PREFIX, thread_id)
}

/// The thread that is stored under a key, if the key is that of a thread.
pub fn thread_id_of_key(key: &str) -> (r: Option<String>)
    ensures
        match r {
            Some(thread_id) => thread_of_key(key@) == Some(thread_id@),
            None => thread_of_key(key@) is None,
        },
{
    if starts_with(key, THREAD_KEY_PREFIX) {
        Some(tail(key, THREAD_KEY_PREFIX.unicode_len()))
    } else {
        None
    }
}

/// The error for a stored thread that cannot be read.
pub fn unreadable_thread(thread_id: &str, reason: &str) -> (error: BoardroomError)
    ensures
        error.message() == unreadable_message(thread_id@, reason@),
{
    let mut message = join3("Failed to deserialize thread ", thread_id, ": ");
    message.append(reason);
    BoardroomError::Memory(message)
}

/// The error for a thread that cannot be written.
pub fn unwritable_thread(thread_id: &str, reason: &str) -> (error: BoardroomError)
    ensures
        error.message() == unwritable_message(thread_id@, reason@),
{
    let mut message = join3("Failed to serialize thread ", thread_id, ": ");
    message.append(reason);
    BoardroomError::Memory(message)
}

/// What is to be done with the stored state.
pub enum StorageAction {
    /// Nothing.
    Keep,
    /// This thread is to be written under this key.
    Save { key: String, thread: BoardroomThread },
    /// What stands under this key is to be deleted.
    Delete(String),
}

/// The model of a [`StorageAction`].
pub enum StorageView {
    Keep,
    Save { key: Seq<char>, thread: ThreadView },
    Delete(Seq<char>),
}

impl View for StorageAction {
    type V = StorageView;

    open spec fn view(&self) -> StorageView {
        match self {
            StorageAction::Keep => StorageView::Keep,
            StorageAction::Save { key, thread } => StorageView::Save { key: key@, thread: thread@ },
            StorageAction::Delete(key) => StorageView::Delete(key@),
        }
    }
}

/// What a request for a thread comes to.
pub enum ThreadLookup {
    /// The thread exists.
    Found(BoardroomThread),
    /// There is none: this one is to be written under the key, and put into the
    /// registry once that is done.
    Create { key: String, thread: BoardroomThread },
}

/// The model of a [`ThreadLookup`].
pub enum LookupView {
    Found(ThreadView),
    Create { key: Seq<char>, thread: ThreadView },
}

impl View for ThreadLookup {
    type V = LookupView;

    open spec fn view(&self) -> LookupView {
        match self {
            ThreadLookup::Found(thread) => LookupView::Found(thread@),
            ThreadLookup::Create { key, thread } => LookupView::Create {
                key: key@,
                thread: thread@,
            },
        }
    }
}

/// The model of a [`BoardroomRegistry`].
pub struct BoardroomView {
    pub config: BoardroomConfig,
    /// Threads by their IDs.
    pub threads: Map<Seq<char>, ThreadView>,
}

impl BoardroomView {
    /// What a request for a thread comes to.
    pub open spec fn lookup(
        self,
        thread_id: Seq<char>,
        turn_policy: Option<TurnPolicy>,
        now: Timestamp,
    ) -> LookupView {
        if self.threads.dom().contains(thread_id) {
            LookupView::Found(self.threads[thread_id])
        } else {
            LookupView::Create {
                key: key_of_thread(thread_id),
                thread: ThreadView::opened(
                    thread_id,
                    match turn_policy {
                        Some(policy) => policy,
                        None => self.config.default_turn_policy,
                    },
                    now,
                ),
            }
        }
    }

    /// The registry with a thread in the given state.
    pub open spec fn with_thread(self, thread_id: Seq<char>, thread: ThreadView) -> Self {
        BoardroomView { threads: self.threads.insert(thread_id, thread), ..self }
    }

    /// The registry without a thread.
    pub open spec fn without_thread(self, thread_id: Seq<char>) -> Self {
        BoardroomView { threads: self.threads.remove(thread_id), ..self }
    }

    /// How long a thread may be inactive.
    pub open spec fn idle_timeout(self) -> Span {
        Span { seconds: (self.config.idle_timeout_minutes * 60) as u64, nanos: 0 }
    }

    /// The threads that are idle.
    pub open spec fn idle_threads(self, now: Timestamp) -> Set<Seq<char>> {
        Set::new(
            |id: Seq<char>|
                self.threads.dom().contains(id) && self.threads[id].idle(now, self.idle_timeout()),
        )
    }

    /// The registry without the threads that are idle.
    pub open spec fn cleaned(self, now: Timestamp) -> Self {
        BoardroomView { threads: self.threads.remove_keys(self.idle_threads(now)), ..self }
    }

    /// The registry with an agent in a thread, if there is one.
    pub open spec fn with_participant(self, thread_id: Seq<char>, agent_id: Seq<char>) -> Self {
        if self.threads.dom().contains(thread_id) {
            self.with_thread(thread_id, self.threads[thread_id].joined(agent_id))
        } else {
            self
        }
    }

    /// The registry after a bot message in a thread, if there is one.
    pub open spec fn after_bot_message(self, thread_id: Seq<char>, now: Timestamp) -> Self {
        if self.threads.dom().contains(thread_id) {
            self.with_thread(thread_id, self.threads[thread_id].after_bot(now))
        } else {
            self
        }
    }

    /// The registry after a human message in a thread, if there is one.
    pub open spec fn after_human_message(self, thread_id: Seq<char>, now: Timestamp) -> Self {
        if self.threads.dom().contains(thread_id) {
            self.with_thread(thread_id, self.threads[thread_id].after_human(now))
        } else {
            self
        }
    }

    /// What is to be done with the stored state once a thread has changed: the
    /// thread as it now is, if there is one, is to be written under its key.
    pub open spec fn saving(self, thread_id: Seq<char>) -> StorageView {
        if self.threads.dom().contains(thread_id) {
            StorageView::Save { key: key_of_thread(thread_id), thread: self.threads[thread_id] }
        } else {
            StorageView::Keep
        }
    }

    /// What is to be done with the stored state where a thread is removed.
    pub open spec fn deleting(self, thread_id: Seq<char>) -> StorageView {
        if self.threads.dom().contains(thread_id) {
            StorageView::Delete(key_of_thread(thread_id))
        } else {
            StorageView::Keep
        }
    }
}

/// Every thread's last activity is a time that the calendar can express.
spec fn dated(threads: Map<Seq<char>, ThreadView>) -> bool {
    forall|id: Seq<char>| #[trigger]
        threads.dom().contains(id) ==> threads[id].last_activity.valid()
}

/// Registry of all boardroom threads.
pub struct BoardroomRegistry {
    config: BoardroomConfig,
    threads: TextMap<BoardroomThread>,
}

spec fn thread_views(threads: Map<Seq<char>, BoardroomThread>) -> Map<Seq<char>, ThreadView> {
    threads.map_values(|t: BoardroomThread| t@)
}

impl View for BoardroomRegistry {
    type V = BoardroomView;

    closed spec fn view(&self) -> BoardroomView {
        BoardroomView { config: self.config, threads: thread_views(self.threads@) }
    }
}

impl BoardroomRegistry {
    #[verifier::type_invariant]
    spec fn inv(&self) -> bool {
        dated(thread_views(self.threads@))
    }

    /// Takes the threads out of the registry, to be changed and put back.
    fn take_threads(&mut self) -> (threads: TextMap<BoardroomThread>)
        ensures
            threads@ == old(self).threads@,
            dated(thread_views(threads@)),
            final(self).config == old(self).config,
    {
        proof {
            use_type_invariant(&*self);
        }
        let mut threads: TextMap<BoardroomThread> = TextMap::new();
        std::mem::swap(&mut threads, &mut self.threads);
        threads
    }

    /// Create a registry with the given configuration from the stored entries:
    /// each key with the thread that its value was read as, or the reason why it
    /// could not be read as one.
    pub fn new(
        config: BoardroomConfig,
        stored: Vec<(String, Result<BoardroomThread, String>)>,
    ) -> (r: Result<Self, BoardroomError>)
        requires
            forall|i: int|
                0 <= i < stored@.len() ==> ((#[trigger] stored@[i]).1 matches Ok(thread)
                    ==> thread.last_activity.valid()),
        ensures
            match (r, loaded(stored_views(stored@))) {
                (Ok(registry), Ok(threads)) => registry@ == (BoardroomView { config, threads }),
                (Err(error), Err(message)) => error.message() == message,
                _ => false,
            },
    {
        let ghost all = stored@;
        let ghost views = stored_views(all);
        let mut threads: TextMap<BoardroomThread> = TextMap::new();
        assert(views.take(0) =~= Seq::empty());
        assert(thread_views(threads@) =~= Map::empty());
        for entry in it: stored
            invariant
                it.seq() == all,
                views == stored_views(all),
                forall|i: int|
                    0 <= i < all.len() ==> ((#[trigger] all[i]).1 matches Ok(thread)
                        ==> thread.last_activity.valid()),
                loaded(views.take(it.index() as int)) == Ok::<Map<Seq<char>, ThreadView>, Seq<char>>(
                    thread_views(threads@),
                ),
                dated(thread_views(threads@)),
        {
            let ghost i = it.index() as int;
            proof {
                assert(all[i] == entry);
                assert(views.take(i + 1).drop_last() =~= views.take(i));
                assert(views.take(i + 1).last() == stored_view(entry));
            }
            let (key, value) = entry;
            if let Some(thread_id) = thread_id_of_key(key.as_str()) {
                match value {
                    Ok(thread) => {
                        let ghost before = threads@;
                        let ghost id = thread_id@;
                        threads.insert(thread_id, thread);
                        assert(thread_views(threads@) =~= thread_views(before).insert(id, thread@));
                    },
                    Err(reason) => {
                        proof {
                            lemma_load_failure(views, i + 1);
                        }
                        return Err(unreadable_thread(thread_id.as_str(), reason.as_str()));
                    },
                }
            }
        }
        assert(views.take(all.len() as int) =~= views);
        Ok(BoardroomRegistry { config, threads })
    }

    /// Get a thread, or what is to be created where there is none.
    pub fn get_or_create_thread(&self, thread_id: String, turn_policy: Option<TurnPolicy>) -> (r:
        ThreadLookup)
        ensures
            exists|now: Timestamp|
                now.on_clock() && r@ == #[trigger] self@.lookup(thread_id@, turn_policy, now),
            r matches ThreadLookup::Found(thread) ==> thread.last_activity.valid(),
    {
        let now = utc_now();
        self.get_or_create_thread_at(thread_id, turn_policy, now)
    }

    /// Get a thread, or what is to be created at a given time where there is none.
    pub fn get_or_create_thread_at(
        &self,
        thread_id: String,
        turn_policy: Option<TurnPolicy>,
        now: Timestamp,
    ) -> (r: ThreadLookup)
        ensures
            r@ == self@.lookup(thread_id@, turn_policy, now),
            r matches ThreadLookup::Found(thread) ==> thread.last_activity.valid(),
    {
        proof {
            use_type_invariant(self);
            assert(self@.threads.dom().contains(thread_id@) ==> thread_views(
                self.threads@,
            ).dom().contains(thread_id@));
        }
        let policy = match turn_policy {
            Some(policy) => policy,
            None => self.config.default_turn_policy,
        };
        match self.threads.get(thread_id.as_str()) {
            Some(thread) => ThreadLookup::Found(thread.clone()),
            None => {
                let key = thread_key(thread_id.as_str());
                ThreadLookup::Create { key, thread: BoardroomThread::new_at(thread_id, policy, now) }
            },
        }
    }

    /// Put a thread into the registry: one that was created and stored, or one
    /// whose state changed.
    pub fn put_thread(&mut self, thread_id: String, thread: BoardroomThread)
        requires
            thread.last_activity.valid(),
        ensures
            final(self)@ == old(self)@.with_thread(thread_id@, thread@),
    {
        let mut threads = self.take_threads();
        threads.insert(thread_id, thread);
        assert(thread_views(threads@) =~= old(self)@.threads.insert(thread_id@, thread@));
        self.threads = threads;
    }

    /// Get a thread if it exists.
    pub fn get_thread(&self, thread_id: &str) -> (r: Option<&BoardroomThread>)
        ensures
            match r {
                Some(thread) => self@.threads.dom().contains(thread_id@) && thread@
                    == self@.threads[thread_id@] && thread.last_activity.valid(),
                None => !self@.threads.dom().contains(thread_id@),
            },
    {
        proof {
            use_type_invariant(self);
            assert(self@.threads.dom().contains(thread_id@) ==> thread_views(
                self.threads@,
            ).dom().contains(thread_id@));
        }
        self.threads.get(thread_id)
    }

    /// Remove a thread (e.g., after closure or idle cleanup). Returns whether
    /// there was one, and what is to be done with the stored state.
    pub fn remove_thread(&mut self, thread_id: &str) -> (r: (bool, StorageAction))
        ensures
            final(self)@ == old(self)@.without_thread(thread_id@),
            r.0 == old(self)@.threads.dom().contains(thread_id@),
            r.1@ == old(self)@.deleting(thread_id@),
    {
        let mut threads = self.take_threads();
        let existed = threads.remove(thread_id).is_some();
        assert(thread_views(threads@) =~= old(self)@.threads.remove(thread_id@));
        self.threads = threads;
        if existed {
            (true, StorageAction::Delete(thread_key(thread_id)))
        } else {
            (false, StorageAction::Keep)
        }
    }

    /// Add a participant to a thread. Returns whether the thread exists, and what
    /// is to be done with the stored state.
    pub fn add_participant(&mut self, thread_id: &str, agent_id: String) -> (r: (
        bool,
        StorageAction,
    ))
        ensures
            final(self)@ == old(self)@.with_participant(thread_id@, agent_id@),
            r.0 == old(self)@.threads.dom().contains(thread_id@),
            r.1@ == final(self)@.saving(thread_id@),
    {
        let ghost before = self@;
        let mut threads = self.take_threads();
        match threads.remove(thread_id) {
            Some(mut thread) => {
                thread.add_participant(agent_id);
                let ghost state = thread@;
                let saved = thread.clone();
                threads.insert(thread_id.to_owned(), thread);
                assert(thread_views(threads@) =~= before.threads.insert(thread_id@, state));
                self.threads = threads;
                (true, StorageAction::Save { key: thread_key(thread_id), thread: saved })
            },
            None => {
                assert(thread_views(threads@) =~= before.threads);
                self.threads = threads;
                (false, StorageAction::Keep)
            },
        }
    }

    /// Record a bot message in a thread, tripping the circuit breaker if needed.
    /// Returns `true` if the circuit breaker has tripped (all agents should be
    /// silenced), and what is to be done with the stored state.
    pub fn record_bot_message(&mut self, thread_id: &str) -> (r: (bool, StorageAction))
        requires
            old(self)@.threads.dom().contains(thread_id@)
                ==> old(self)@.threads[thread_id@].bot_streak < u32::MAX,
        ensures
            exists|now: Timestamp|
                now.on_clock() && bot_message_recorded(
                    old(self)@,
                    thread_id@,
                    now,
                    final(self)@,
                    r.0,
                ),
            r.1@ == final(self)@.saving(thread_id@),
    {
        let now = utc_now();
        self.record_bot_message_at(thread_id, now)
    }

    /// Record a bot message in a thread at a given time.
    pub fn record_bot_message_at(&mut self, thread_id: &str, now: Timestamp) -> (r: (
        bool,
        StorageAction,
    ))
        requires
            now.valid(),
            old(self)@.threads.dom().contains(thread_id@)
                ==> old(self)@.threads[thread_id@].bot_streak < u32::MAX,
        ensures
            bot_message_recorded(old(self)@, thread_id@, now, final(self)@, r.0),
            r.1@ == final(self)@.saving(thread_id@),
    {
        let ghost before = self@;
        let mut threads = self.take_threads();
        match threads.remove(thread_id) {
            Some(mut thread) => {
                thread.record_bot_message_at(now);
                let ghost state = thread@;
                let saved = thread.clone();
                let tripped = thread.circuit_breaker_tripped(self.config.max_bot_streak);
                threads.insert(thread_id.to_owned(), thread);
                assert(thread_views(threads@) =~= before.threads.insert(thread_id@, state));
                self.threads = threads;
                (tripped, StorageAction::Save { key: thread_key(thread_id), thread: saved })
            },
            None => {
                assert(thread_views(threads@) =~= before.threads);
                self.threads = threads;
                (false, StorageAction::Keep)
            },
        }
    }

    /// Record a human message, resetting the circuit breaker. Returns what is to
    /// be done with the stored state.
    pub fn record_human_message(&mut self, thread_id: &str) -> (r: StorageAction)
        ensures
            exists|now: Timestamp|
                now.on_clock() && final(self)@ == #[trigger] old(self)@.after_human_message(
                    thread_id@,
                    now,
                ),
            r@ == final(self)@.saving(thread_id@),
    {
        let now = utc_now();
        self.record_human_message_at(thread_id, now)
    }

    /// Record a human message at a given time.
    pub fn record_human_message_at(&mut self, thread_id: &str, now: Timestamp) -> (r:
        StorageAction)
        requires
            now.valid(),
        ensures
            final(self)@ == old(self)@.after_human_message(thread_id@, now),
            r@ == final(self)@.saving(thread_id@),
    {
        let ghost before = self@;
        let mut threads = self.take_threads();
        match threads.remove(thread_id) {
            Some(mut thread) => {
                thread.record_human_message_at(now);
                let ghost state = thread@;
                let saved = thread.clone();
                threads.insert(thread_id.to_owned(), thread);
                assert(thread_views(threads@) =~= before.threads.insert(thread_id@, state));
                self.threads = threads;
                StorageAction::Save { key: thread_key(thread_id), thread: saved }
            },
            None => {
                assert(thread_views(threads@) =~= before.threads);
                self.threads = threads;
                StorageAction::Keep
            },
        }
    }

    /// Run periodic cleanup of idle threads. Returns the IDs of those that were
    /// removed, each once: what is stored of them is to be deleted.
    pub fn cleanup_idle_threads(&mut self) -> (removed: Vec<String>)
        ensures
            exists|now: Timestamp|
                now.on_clock() && final(self)@ == #[trigger] old(self)@.cleaned(now) && texts(
                    removed@,
                ).to_set() == old(self)@.idle_threads(now),
            texts(removed@).no_duplicates(),
    {
        let now = utc_now();
        self.cleanup_idle_threads_at(now)
    }

    /// Run cleanup of the threads that are idle at a given time.
    pub fn cleanup_idle_threads_at(&mut self, now: Timestamp) -> (removed: Vec<String>)
        requires
            now.valid(),
        ensures
            final(self)@ == old(self)@.cleaned(now),
            texts(removed@).to_set() == old(self)@.idle_threads(now),
            texts(removed@).no_duplicates(),
    {
        let minutes: u64 = self.config.idle_timeout_minutes as u64;
        let timeout = Span { seconds: minutes * 60, nanos: 0 };
        let ghost before = self.threads@;
        let ghost view = self@;
        let mut threads = self.take_threads();
        let keys = threads.keys();
        let ghost all = texts(keys@);
        let mut removed: Vec<String> = Vec::new();
        for i in 0..keys.len()
            invariant
                now.valid(),
                view.threads == thread_views(before),
                dated(view.threads),
                timeout == view.idle_timeout(),
                timeout.valid(),
                all == texts(keys@),
                all.no_duplicates(),
                all.to_set() == before.dom(),
                texts(removed@).no_duplicates(),
                forall|k: Seq<char>| #[trigger]
                    texts(removed@).contains(k) <==> before.dom().contains(k)
                        && before[k]@.idle(now, timeout) && all.take(i as int).contains(k),
                forall|k: Seq<char>| #[trigger]
                    threads@.dom().contains(k) <==> before.dom().contains(k) && !texts(
                        removed@,
                    ).contains(k),
                forall|k: Seq<char>| #[trigger]
                    threads@.dom().contains(k) ==> threads@[k] == before[k],
        {
            let ghost key = keys@[i as int]@;
            let ghost gone = texts(removed@);
            proof {
                lemma_next_key(all, i as int);
                assert(all[i as int] == key);
                assert(all.to_set().contains(key));
                assert(!gone.contains(key));
                assert(threads@.dom().contains(key));
                assert(view.threads.dom().contains(key));
            }
            let idle = match threads.get(keys[i].as_str()) {
                Some(thread) => thread.is_idle_at(now, timeout),
                None => false,
            };
            if idle {
                let _ = threads.remove(keys[i].as_str());
                removed.push(keys[i].clone());
                proof {
                    assert(texts(removed@) =~= gone.push(key));
                    lemma_pushed(gone, key);
                }
            }
        }
        proof {
            assert(all.take(all.len() as int) =~= all);
            assert forall|k: Seq<char>| before.dom().contains(k) implies #[trigger] all.contains(
                k,
            ) by {
                assert(all.to_set().contains(k));
            }
            assert(texts(removed@).to_set() =~= view.idle_threads(now)) by {
                assert forall|k: Seq<char>|
                    texts(removed@).to_set().contains(k) <==> view.idle_threads(now).contains(k) by {
                    assert(texts(removed@).contains(k) <==> texts(removed@).to_set().contains(k));
                }
            }
            assert(thread_views(threads@) =~= view.cleaned(now).threads) by {
                assert forall|k: Seq<char>|
                    thread_views(threads@).dom().contains(k) <==> view.cleaned(now).threads.dom().contains(
                        k,
                    ) by {
                    assert(texts(removed@).contains(k) <==> texts(removed@).to_set().contains(k));
                }
            }
            assert(dated(thread_views(threads@))) by {
                assert forall|k: Seq<char>| #[trigger]
                    thread_views(threads@).dom().contains(k) implies thread_views(
                    threads@,
                )[k].last_activity.valid() by {
                    assert(view.threads.dom().contains(k));
                }
            }
        }
        self.threads = threads;
        removed
    }

    /// Get the number of threads. Every thread counts, whatever its status.
    pub fn thread_count(&self) -> (r: usize)
        ensures
            self@.threads.dom().finite(),
            r == self@.threads.dom().len(),
    {
        assert(self@.threads.dom() =~= self.threads@.dom());
        self.threads.len()
    }
}

/// A bot message at `now` takes the registry from `before` to `after`; `tripped`
/// says whether the circuit breaker of the thread has tripped.
pub open spec fn bot_message_recorded(
    before: BoardroomView,
    thread_id: Seq<char>,
    now: Timestamp,
    after: BoardroomView,
    tripped: bool,
) -> bool {
    &&& after == before.after_bot_message(thread_id, now)
    &&& tripped == (before.threads.dom().contains(thread_id) && after.threads[thread_id].tripped(
        before.config.max_bot_streak,
    ))
}

proof fn lemma_pushed(list: Seq<Seq<char>>, item: Seq<char>)
    ensures
        forall|k: Seq<char>| #[trigger]
            list.push(item).contains(k) <==> list.contains(k) || k == item,
        list.no_duplicates() && !list.contains(item) ==> list.push(item).no_duplicates(),
{
    let longer = list.push(item);
    assert forall|k: Seq<char>| #[trigger]
        longer.contains(k) <==> list.contains(k) || k == item by {
        if list.contains(k) {
            let j = choose|j: int| 0 <= j < list.len() && list[j] == k;
            assert(longer[j] == k);
        }
        if k == item {
            assert(longer[list.len() as int] == k);
        }
    }
}

proof fn lemma_load_failure(entries: Seq<(Seq<char>, Result<ThreadView, Seq<char>>)>, upto: int)
    requires
        0 <= upto <= entries.len(),
        loaded(entries.take(upto)) is Err,
    ensures
        loaded(entries) == loaded(entries.take(upto)),
    decreases entries.len() - upto,
{
    if upto < entries.len() {
        assert(entries.take(upto + 1).drop_last() =~= entries.take(upto));
        lemma_load_failure(entries, upto + 1);
    } else {
        assert(entries.take(upto) =~= entries);
    }
}

/// The thread after bot messages at the given times.
pub open spec fn after_bots(thread: ThreadView, times: Seq<Timestamp>) -> ThreadView
    decreases times.len(),
{
    if times.len() == 0 {
        thread
    } else {
        after_bots(thread, times.drop_last()).after_bot(times.last())
    }
}

/// After a human message the circuit breaker trips with exactly the bot message
/// that makes the streak `max_bot_streak` long, and stays tripped until the next
/// human message.
pub proof fn law_breaker_counts_bot_messages(
    thread: ThreadView,
    human: Timestamp,
    bots: Seq<Timestamp>,
    max_bot_streak: u32,
)
    requires
        bots.len() <= u32::MAX,
    ensures
        after_bots(thread.after_human(human), bots).bot_streak == bots.len(),
        after_bots(thread.after_human(human), bots).tripped(max_bot_streak) <==> bots.len()
            >= max_bot_streak,
    decreases bots.len(),
{
    if bots.len() > 0 {
        law_breaker_counts_bot_messages(thread, human, bots.drop_last(), max_bot_streak);
    }
}

/// No agent takes part in a thread that is still open: joining makes it active.
/// When the last participant leaves a thread it is idle, and an active thread has
/// participants after every removal; where it has them anyway, or is not active,
/// the removal of an agent that takes no part in it changes nothing.
pub proof fn law_open_threads_are_empty(
    thread: ThreadView,
    agent_id: Seq<char>,
    thread_id: Seq<char>,
    turn_policy: TurnPolicy,
    now: Timestamp,
)
    requires
        thread.status == ThreadStatus::Open ==> thread.participants =~= Set::empty(),
    ensures
        ThreadView::opened(thread_id, turn_policy, now).participants =~= Set::empty(),
        thread.joined(agent_id).status != ThreadStatus::Open,
        thread.joined(agent_id).participants.contains(agent_id),
        thread.left(agent_id).status == ThreadStatus::Open ==> thread.left(agent_id).participants
            =~= Set::empty(),
        !thread.left(agent_id).participants.contains(agent_id),
        thread.participants.contains(agent_id) && thread.left(agent_id).participants
            =~= Set::empty() ==> thread.left(agent_id).status == ThreadStatus::Idle,
        thread.left(agent_id).status == ThreadStatus::Active ==> !(thread.left(
            agent_id,
        ).participants =~= Set::empty()),
        !thread.participants.contains(agent_id) && (thread.status != ThreadStatus::Active || !(
        thread.participants =~= Set::empty())) ==> thread.left(agent_id) == thread,
{
    if !thread.participants.contains(agent_id) {
        assert(thread.left(agent_id).participants =~= thread.participants);
    }
}

/// The key of a thread gives the thread back, so no two threads share a key.
pub proof fn law_keys_name_threads(thread_id: Seq<char>, other: Seq<char>)
    ensures
        thread_of_key(key_of_thread(thread_id)) == Some(thread_id),
        key_of_thread(thread_id) == key_of_thread(other) ==> thread_id == other,
{
    let prefix = THREAD_KEY_PREFIX@;
    assert(prefix.is_prefix_of(prefix + thread_id));
    assert((prefix + thread_id).skip(prefix.len() as int) =~= thread_id);
    assert((prefix + other).skip(prefix.len() as int) =~= other);
}

/// The stored state: under each key, the thread that its value is read as, or the
/// reason why it cannot be read as one.
pub type StoredState = Map<Seq<char>, Result<ThreadView, Seq<char>>>;

/// The stored state once an action has been carried out.
pub open spec fn performed(storage: StoredState, action: StorageView) -> StoredState {
    match action {
        StorageView::Keep => storage,
        StorageView::Save { key, thread } => storage.insert(key, Ok(thread)),
        StorageView::Delete(key) => storage.remove(key),
    }
}

/// Storage holds the threads: each under its key, as it is, and nothing under the
/// key of any other. What stands under other keys does not matter.
pub open spec fn in_step(storage: StoredState, threads: Map<Seq<char>, ThreadView>) -> bool {
    &&& forall|id: Seq<char>| #[trigger]
        storage.dom().contains(key_of_thread(id)) <==> threads.dom().contains(id)
    &&& forall|id: Seq<char>| #[trigger]
        threads.dom().contains(id) ==> storage[key_of_thread(id)] == Ok::<ThreadView, Seq<char>>(
            threads[id],
        )
}

/// The entries list a stored state: all of it and nothing else, in any order.
pub open spec fn lists_storage(
    entries: Seq<(Seq<char>, Result<ThreadView, Seq<char>>)>,
    storage: StoredState,
) -> bool {
    &&& forall|i: int|
        0 <= i < entries.len() ==> storage.dom().contains((#[trigger] entries[i]).0)
            && storage[entries[i].0] == entries[i].1
    &&& forall|key: Seq<char>| #[trigger]
        storage.dom().contains(key) ==> exists|i: int|
            0 <= i < entries.len() && (#[trigger] entries[i]).0 == key
}

/// A change of the registry by one of its operations.
pub enum RegistryChange {
    /// `get_or_create_thread`, and `put_thread` once what it asked for is stored.
    Request { thread_id: Seq<char>, turn_policy: Option<TurnPolicy>, now: Timestamp },
    /// `add_participant`.
    Participant { thread_id: Seq<char>, agent_id: Seq<char> },
    /// `record_bot_message`.
    BotMessage { thread_id: Seq<char>, now: Timestamp },
    /// `record_human_message`.
    HumanMessage { thread_id: Seq<char>, now: Timestamp },
    /// `remove_thread`.
    Removal { thread_id: Seq<char> },
}

impl BoardroomView {
    /// The registry after a change.
    pub open spec fn changed(self, change: RegistryChange) -> Self {
        match change {
            RegistryChange::Request { thread_id, turn_policy, now } => match self.lookup(
                thread_id,
                turn_policy,
                now,
            ) {
                LookupView::Found(_) => self,
                LookupView::Create { key, thread } => self.with_thread(thread_id, thread),
            },
            RegistryChange::Participant { thread_id, agent_id } => self.with_participant(
                thread_id,
                agent_id,
            ),
            RegistryChange::BotMessage { thread_id, now } => self.after_bot_message(
                thread_id,
                now,
            ),
            RegistryChange::HumanMessage { thread_id, now } => self.after_human_message(
                thread_id,
                now,
            ),
            RegistryChange::Removal { thread_id } => self.without_thread(thread_id),
        }
    }

    /// What a change asks to be done with the stored state.
    pub open spec fn asked(self, change: RegistryChange) -> StorageView {
        match change {
            RegistryChange::Request { thread_id, turn_policy, now } => match self.lookup(
                thread_id,
                turn_policy,
                now,
            ) {
                LookupView::Found(_) => StorageView::Keep,
                LookupView::Create { key, thread } => StorageView::Save { key, thread },
            },
            RegistryChange::Participant { thread_id, .. } => self.changed(change).saving(
                thread_id,
            ),
            RegistryChange::BotMessage { thread_id, .. } => self.changed(change).saving(thread_id),
            RegistryChange::HumanMessage { thread_id, .. } => self.changed(change).saving(
                thread_id,
            ),
            RegistryChange::Removal { thread_id } => self.deleting(thread_id),
        }
    }
}

/// The registry and the stored state after changes, where all that the changes
/// asked for was done.
pub open spec fn after_changes(
    registry: BoardroomView,
    storage: StoredState,
    changes: Seq<RegistryChange>,
) -> (BoardroomView, StoredState)
    decreases changes.len(),
{
    if changes.len() == 0 {
        (registry, storage)
    } else {
        let (earlier, stored) = after_changes(registry, storage, changes.drop_last());
        (earlier.changed(changes.last()), performed(stored, earlier.asked(changes.last())))
    }
}

/// Every change keeps the stored state in step with the threads, where what it
/// asks for is done.
pub proof fn law_changes_keep_storage_in_step(
    registry: BoardroomView,
    storage: StoredState,
    change: RegistryChange,
)
    requires
        in_step(storage, registry.threads),
    ensures
        in_step(performed(storage, registry.asked(change)), registry.changed(change).threads),
{
    let stored = performed(storage, registry.asked(change));
    let threads = registry.changed(change).threads;
    let thread_id = match change {
        RegistryChange::Request { thread_id, .. } => thread_id,
        RegistryChange::Participant { thread_id, .. } => thread_id,
        RegistryChange::BotMessage { thread_id, .. } => thread_id,
        RegistryChange::HumanMessage { thread_id, .. } => thread_id,
        RegistryChange::Removal { thread_id } => thread_id,
    };
    assert forall|id: Seq<char>|
        (#[trigger] stored.dom().contains(key_of_thread(id)) <==> threads.dom().contains(id)) && (
        threads.dom().contains(id) ==> stored[key_of_thread(id)] == Ok::<ThreadView, Seq<char>>(
            threads[id],
        )) by {
        law_keys_name_threads(thread_id, id);
        assert(storage.dom().contains(key_of_thread(id)) <==> registry.threads.dom().contains(id));
    }
    assert forall|id: Seq<char>| #[trigger] threads.dom().contains(id) implies stored[key_of_thread(
        id,
    )] == Ok::<ThreadView, Seq<char>>(threads[id]) by {
        assert(stored.dom().contains(key_of_thread(id)));
    }
}

/// Cleanup keeps the stored state in step as well, where what is stored of the
/// threads that it removed is deleted.
pub proof fn law_cleanup_keeps_storage_in_step(
    registry: BoardroomView,
    storage: StoredState,
    now: Timestamp,
)
    requires
        in_step(storage, registry.threads),
    ensures
        in_step(
            storage.remove_keys(registry.idle_threads(now).map(|id: Seq<char>| key_of_thread(id))),
            registry.cleaned(now).threads,
        ),
{
    let idle = registry.idle_threads(now);
    let keys = idle.map(|id: Seq<char>| key_of_thread(id));
    let stored = storage.remove_keys(keys);
    let threads = registry.cleaned(now).threads;
    assert forall|id: Seq<char>| #[trigger] keys.contains(key_of_thread(id)) <==> idle.contains(
        id,
    ) by {
        if keys.contains(key_of_thread(id)) {
            let other = choose|other: Seq<char>|
                idle.contains(other) && key_of_thread(other) == key_of_thread(id);
            law_keys_name_threads(other, id);
        }
    }
    assert forall|id: Seq<char>|
        #[trigger] stored.dom().contains(key_of_thread(id)) <==> threads.dom().contains(id) by {
        assert(storage.dom().contains(key_of_thread(id)) <==> registry.threads.dom().contains(id));
        assert(keys.contains(key_of_thread(id)) <==> idle.contains(id));
    }
    assert forall|id: Seq<char>| #[trigger] threads.dom().contains(id) implies stored[key_of_thread(
        id,
    )] == Ok::<ThreadView, Seq<char>>(threads[id]) by {
        assert(registry.threads.dom().contains(id));
        assert(stored.dom().contains(key_of_thread(id)));
    }
}

/// A registry that is made from stored entries with which the threads of an
/// earlier one are in step holds exactly those threads, as they were. Entries
/// under other keys do not matter, nor does the order.
pub proof fn law_saved_threads_are_loaded(
    entries: Seq<(Seq<char>, Result<ThreadView, Seq<char>>)>,
    storage: StoredState,
    threads: Map<Seq<char>, ThreadView>,
)
    requires
        lists_storage(entries, storage),
        in_step(storage, threads),
    ensures
        loaded(entries) == Ok::<Map<Seq<char>, ThreadView>, Seq<char>>(threads),
{
    lemma_loaded(entries, storage, threads);
    let all = loaded(entries)->Ok_0;
    assert forall|id: Seq<char>| all.dom().contains(id) <==> threads.dom().contains(id) by {
        assert(storage.dom().contains(key_of_thread(id)) <==> threads.dom().contains(id));
        if threads.dom().contains(id) {
            let i = choose|i: int|
                0 <= i < entries.len() && (#[trigger] entries[i]).0 == key_of_thread(id);
            assert(all.dom().contains(id));
        }
    }
    assert(all =~= threads);
}

proof fn lemma_loaded(
    entries: Seq<(Seq<char>, Result<ThreadView, Seq<char>>)>,
    storage: StoredState,
    threads: Map<Seq<char>, ThreadView>,
)
    requires
        forall|i: int|
            0 <= i < entries.len() ==> storage.dom().contains((#[trigger] entries[i]).0)
                && storage[entries[i].0] == entries[i].1,
        in_step(storage, threads),
    ensures
        loaded(entries) is Ok,
        forall|id: Seq<char>| #[trigger]
            loaded(entries)->Ok_0.dom().contains(id) ==> threads.dom().contains(id)
                && loaded(entries)->Ok_0[id] == threads[id],
        forall|i: int, id: Seq<char>|
            0 <= i < entries.len() && (#[trigger] entries[i]).0 == #[trigger] key_of_thread(id)
                ==> loaded(entries)->Ok_0.dom().contains(id),
    decreases entries.len(),
{
    if entries.len() > 0 {
        let front = entries.drop_last();
        let last = entries.last();
        assert(last == entries[entries.len() - 1]);
        assert forall|i: int| 0 <= i < front.len() implies storage.dom().contains(
            (#[trigger] front[i]).0,
        ) && storage[front[i].0] == front[i].1 by {
            assert(front[i] == entries[i]);
        }
        lemma_loaded(front, storage, threads);
        if let Some(thread_id) = thread_of_key(last.0) {
            lemma_key_of_thread(last.0, thread_id);
            assert(storage.dom().contains(key_of_thread(thread_id)));
            assert(threads.dom().contains(thread_id));
        }
        assert forall|i: int, id: Seq<char>|
            0 <= i < entries.len() && (#[trigger] entries[i]).0 == #[trigger] key_of_thread(
                id,
            ) implies loaded(entries)->Ok_0.dom().contains(id) by {
            law_keys_name_threads(id, id);
            if i < front.len() {
                assert(front[i].0 == key_of_thread(id));
            }
        }
    }
}

proof fn lemma_key_of_thread(key: Seq<char>, thread_id: Seq<char>)
    requires
        thread_of_key(key) == Some(thread_id),
    ensures
        key == key_of_thread(thread_id),
{
    let prefix = THREAD_KEY_PREFIX@;
    assert(key.subrange(0, prefix.len() as int) == prefix);
    assert(key =~= prefix + key.skip(prefix.len() as int));
}

/// A registry over the storage of an earlier one, which was changed by its
/// operations only and had all done that they asked for, holds the same threads.
pub proof fn law_registries_are_found_again(
    registry: BoardroomView,
    storage: StoredState,
    changes: Seq<RegistryChange>,
    entries: Seq<(Seq<char>, Result<ThreadView, Seq<char>>)>,
)
    requires
        in_step(storage, registry.threads),
        lists_storage(entries, after_changes(registry, storage, changes).1),
    ensures
        loaded(entries) == Ok::<Map<Seq<char>, ThreadView>, Seq<char>>(
            after_changes(registry, storage, changes).0.threads,
        ),
{
    lemma_after_changes(registry, storage, changes);
    let (later, stored) = after_changes(registry, storage, changes);
    law_saved_threads_are_loaded(entries, stored, later.threads);
}

proof fn lemma_after_changes(
    registry: BoardroomView,
    storage: StoredState,
    changes: Seq<RegistryChange>,
)
    requires
        in_step(storage, registry.threads),
    ensures
        in_step(
            after_changes(registry, storage, changes).1,
            after_changes(registry, storage, changes).0.threads,
        ),
    decreases changes.len(),
{
    if changes.len() > 0 {
        lemma_after_changes(registry, storage, changes.drop_last());
        let (earlier, stored) = after_changes(registry, storage, changes.drop_last());
        law_changes_keep_storage_in_step(earlier, stored, changes.last());
    }
}

/// A value under the key of a thread that cannot be read as one makes loading
/// fail.
pub proof fn law_unreadable_threads_stop_loading(
    entries: Seq<(Seq<char>, Result<ThreadView, Seq<char>>)>,
    i: int,
)
    requires
        0 <= i < entries.len(),
        thread_of_key(entries[i].0) is Some,
        entries[i].1 is Err,
    ensures
        loaded(entries) is Err,
{
    assert(entries.take(i + 1).last() == entries[i]);
    lemma_load_failure(entries, i + 1);
}

/// An entry under a key that is not a thread's changes nothing of what is loaded.
pub proof fn law_other_entries_are_passed_over(
    entries: Seq<(Seq<char>, Result<ThreadView, Seq<char>>)>,
    key: Seq<char>,
    value: Result<ThreadView, Seq<char>>,
)
    requires
        thread_of_key(key) is None,
    ensures
        loaded(entries.push((key, value))) == loaded(entries),
{
    assert(entries.push((key, value)).drop_last() =~= entries);
}

/// A thread that was created is found from then on, with the policy that was
/// asked for or the default; one that was removed is created anew.
pub proof fn law_created_threads_are_found(
    registry: BoardroomView,
    thread_id: Seq<char>,
    turn_policy: Option<TurnPolicy>,
    now: Timestamp,
    later_policy: Option<TurnPolicy>,
    later: Timestamp,
)
    ensures
        registry.lookup(thread_id, turn_policy, now) matches LookupView::Create { key, thread }
            ==> {
            &&& thread.turn_policy == match turn_policy {
                Some(policy) => policy,
                None => registry.config.default_turn_policy,
            }
            &&& registry.with_thread(thread_id, thread).lookup(thread_id, later_policy, later)
                == LookupView::Found(thread)
        },
        registry.without_thread(thread_id).lookup(thread_id, turn_policy, now) is Create,
{
}

/// Cleaning up keeps the threads that are not idle as they are, drops the
/// others, and has nothing left to do at the same time.
pub proof fn law_cleanup_removes_idle_threads(registry: BoardroomView, now: Timestamp)
    ensures
        forall|id: Seq<char>| #[trigger]
            registry.cleaned(now).threads.dom().contains(id) <==> registry.threads.dom().contains(
                id,
            ) && !registry.threads[id].idle(now, registry.idle_timeout()),
        forall|id: Seq<char>| #[trigger]
            registry.cleaned(now).threads.dom().contains(id) ==> registry.cleaned(now).threads[id]
                == registry.threads[id],
        registry.cleaned(now).cleaned(now) == registry.cleaned(now),
{
    assert(registry.cleaned(now).cleaned(now).threads =~= registry.cleaned(now).threads);
}

/// A message makes a thread active: at that time it is not idle, whatever the
/// timeout.
pub proof fn law_messages_end_idleness(thread: ThreadView, now: Timestamp, timeout: Span)
    ensures
        !thread.after_bot(now).idle(now, timeout),
        !thread.after_human(now).idle(now, timeout),
{
}

/// A thread that is idle stays idle as long as nothing happens in it. (Leap
/// seconds set aside: a clock reading within one can exceed the next one.)
pub proof fn law_idle_threads_stay_idle(
    thread: ThreadView,
    now: Timestamp,
    later: Timestamp,
    timeout: Span,
)
    requires
        !thread.last_activity.in_leap_second(),
        !now.in_leap_second(),
        !later.in_leap_second(),
        now.total() <= later.total(),
        thread.idle(now, timeout),
    ensures
        thread.idle(later, timeout),
{
}

/// A new thread has the ID and policy that were asked for, no participants and no
/// streak, is open, and was active just now.
pub proof fn law_new_threads_are_empty(
    thread_id: Seq<char>,
    turn_policy: TurnPolicy,
    now: Timestamp,
    agent_id: Seq<char>,
)
    ensures
        ({
            let thread = ThreadView::opened(thread_id, turn_policy, now);
            &&& thread.thread_id == thread_id
            &&& thread.turn_policy == turn_policy
            &&& !thread.participants.contains(agent_id)
            &&& thread.status == ThreadStatus::Open
            &&& thread.bot_streak == 0
            &&& thread.last_activity == now
        }),
{
}

/// A message, human or bot, changes nothing of a thread but its streak and its last
/// activity: whoever takes part in it still does, and nobody else. A bot message
/// makes the streak one longer, a human one ends it.
pub proof fn law_messages_change_streak_and_time_only(
    thread: ThreadView,
    now: Timestamp,
    agent_id: Seq<char>,
)
    ensures
        ({
            let bot = thread.after_bot(now);
            let human = thread.after_human(now);
            &&& bot.thread_id == thread.thread_id && human.thread_id == thread.thread_id
            &&& bot.participants == thread.participants && human.participants
                == thread.participants
            &&& bot.participants.contains(agent_id) <==> thread.participants.contains(agent_id)
            &&& human.participants.contains(agent_id) <==> thread.participants.contains(agent_id)
            &&& bot.status == thread.status && human.status == thread.status
            &&& bot.turn_policy == thread.turn_policy && human.turn_policy == thread.turn_policy
            &&& bot.last_activity == now && human.last_activity == now
            &&& thread.bot_streak < u32::MAX ==> bot.bot_streak == thread.bot_streak + 1
            &&& human.bot_streak == 0
        }),
{
}

/// Joining a thread adds the agent to its participants and nobody else, makes an
/// open thread active, and changes nothing more; leaving takes the agent out and
/// nobody else, makes the thread idle where it takes the last one, and changes
/// nothing more.
pub proof fn law_agents_join_and_leave_alone(
    thread: ThreadView,
    agent_id: Seq<char>,
    other: Seq<char>,
)
    requires
        other != agent_id,
    ensures
        ({
            let joined = thread.joined(agent_id);
            let left = thread.left(agent_id);
            &&& joined.participants.contains(agent_id)
            &&& !left.participants.contains(agent_id)
            &&& joined.participants.contains(other) <==> thread.participants.contains(other)
            &&& left.participants.contains(other) <==> thread.participants.contains(other)
            &&& joined.thread_id == thread.thread_id && left.thread_id == thread.thread_id
            &&& joined.turn_policy == thread.turn_policy && left.turn_policy == thread.turn_policy
            &&& joined.bot_streak == thread.bot_streak && left.bot_streak == thread.bot_streak
            &&& joined.last_activity == thread.last_activity && left.last_activity
                == thread.last_activity
            &&& thread.status == ThreadStatus::Open ==> joined.status == ThreadStatus::Active
            &&& thread.status != ThreadStatus::Open ==> joined.status == thread.status
            &&& thread.participants.contains(other) ==> left.status == thread.status
            &&& thread.participants =~= set![agent_id] ==> left.status == ThreadStatus::Idle
            &&& thread.participants =~= Set::empty() ==> left.status == if thread.status
                == ThreadStatus::Active {
                ThreadStatus::Idle
            } else {
                thread.status
            }
        }),
{
    assert(thread.participants.remove(agent_id).contains(other)
        <==> thread.participants.contains(other));
    if thread.participants =~= set![agent_id] {
        assert(thread.left(agent_id).participants =~= Set::empty());
        assert(thread.participants.contains(agent_id));
    }
    if thread.participants =~= Set::empty() {
        assert(thread.left(agent_id).participants =~= Set::empty());
    }
}

/// The circuit breaker has tripped exactly where the streak has reached the limit.
pub proof fn law_breaker_trips_at_the_limit(thread: ThreadView, max_bot_streak: u32)
    ensures
        thread.bot_streak < max_bot_streak ==> !thread.tripped(max_bot_streak),
        thread.bot_streak >= max_bot_streak ==> thread.tripped(max_bot_streak),
{
}

/// Outside leap seconds, a thread is idle exactly where more nanoseconds have gone
/// by since its last activity than the timeout has.
pub proof fn law_idle_is_inactive_for_longer(thread: ThreadView, now: Timestamp, timeout: Span)
    requires
        thread.last_activity.nanos < 1_000_000_000,
        now.nanos < 1_000_000_000,
    ensures
        thread.idle(now, timeout) <==> (now.seconds - thread.last_activity.seconds) * 1_000_000_000
            + now.nanos - thread.last_activity.nanos > timeout.seconds * 1_000_000_000
            + timeout.nanos,
{
}

/// A registry waits as many minutes as its configuration says before a thread
/// counts as idle.
pub proof fn law_idle_timeout_is_in_minutes(registry: BoardroomView)
    ensures
        registry.idle_timeout().seconds == registry.config.idle_timeout_minutes * 60,
        registry.idle_timeout().nanos == 0,
{
}

/// A request for a thread that exists gives it as it is. A request for any other
/// asks for a new one under the key of its ID, with the policy that was asked for
/// or else the default one.
pub proof fn law_requests_find_or_create(
    registry: BoardroomView,
    thread_id: Seq<char>,
    turn_policy: Option<TurnPolicy>,
    now: Timestamp,
    agent_id: Seq<char>,
)
    ensures
        match registry.lookup(thread_id, turn_policy, now) {
            LookupView::Found(thread) => registry.threads.dom().contains(thread_id) && thread
                == registry.threads[thread_id],
            LookupView::Create { key, thread } => {
                &&& !registry.threads.dom().contains(thread_id)
                &&& key == "boardroom:thread:"@ + thread_id
                &&& thread.thread_id == thread_id
                &&& turn_policy matches Some(policy) ==> thread.turn_policy == policy
                &&& turn_policy is None ==> thread.turn_policy
                    == registry.config.default_turn_policy
                &&& !thread.participants.contains(agent_id)
                &&& thread.status == ThreadStatus::Open
                &&& thread.bot_streak == 0
                &&& thread.last_activity == now
            },
        },
{
}

/// The thread that a change is about.
pub open spec fn subject(change: RegistryChange) -> Seq<char> {
    match change {
        RegistryChange::Request { thread_id, .. } => thread_id,
        RegistryChange::Participant { thread_id, .. } => thread_id,
        RegistryChange::BotMessage { thread_id, .. } => thread_id,
        RegistryChange::HumanMessage { thread_id, .. } => thread_id,
        RegistryChange::Removal { thread_id } => thread_id,
    }
}

/// A change is about one thread: all others stay as they are, and so does the
/// configuration. Only a request makes a thread, and only a removal ends one.
pub proof fn law_changes_concern_one_thread(
    registry: BoardroomView,
    change: RegistryChange,
    other: Seq<char>,
)
    requires
        other != subject(change),
    ensures
        ({
            let after = registry.changed(change);
            &&& after.config == registry.config
            &&& after.threads.dom().contains(other) <==> registry.threads.dom().contains(other)
            &&& registry.threads.dom().contains(other) ==> after.threads[other]
                == registry.threads[other]
            &&& after.threads.dom().contains(subject(change)) <==> match change {
                RegistryChange::Request { .. } => true,
                RegistryChange::Removal { .. } => false,
                _ => registry.threads.dom().contains(subject(change)),
            }
        }),
{
}

/// What a change does to the thread that it is about, if there is one: a request
/// leaves it as it is, a participant is added to those that it has, a message
/// changes its streak and its last activity, and the rest of it stays.
pub proof fn law_changes_of_a_thread(
    registry: BoardroomView,
    change: RegistryChange,
    agent: Seq<char>,
)
    requires
        registry.threads.dom().contains(subject(change)),
    ensures
        ({
            let before = registry.threads[subject(change)];
            let after = registry.changed(change).threads[subject(change)];
            &&& !(change is Removal) ==> {
                &&& after.thread_id == before.thread_id
                &&& after.turn_policy == before.turn_policy
            }
            &&& change is Request ==> after == before
            &&& change matches RegistryChange::Participant { agent_id, .. } ==> {
                &&& after.participants.contains(agent) <==> agent == agent_id
                    || before.participants.contains(agent)
                &&& after.status == if before.status == ThreadStatus::Open {
                    ThreadStatus::Active
                } else {
                    before.status
                }
                &&& after.bot_streak == before.bot_streak
                &&& after.last_activity == before.last_activity
            }
            &&& change matches RegistryChange::BotMessage { now, .. } ==> {
                &&& after.participants == before.participants
                &&& after.status == before.status
                &&& before.bot_streak < u32::MAX ==> after.bot_streak == before.bot_streak + 1
                &&& after.last_activity == now
            }
            &&& change matches RegistryChange::HumanMessage { now, .. } ==> {
                &&& after.participants == before.participants
                &&& after.status == before.status
                &&& after.bot_streak == 0
                &&& after.last_activity == now
            }
        }),
{
}

/// A bot message trips the breaker exactly where there is a thread whose streak it
/// brings to the configured limit.
pub proof fn law_bot_messages_trip_the_breaker(
    before: BoardroomView,
    thread_id: Seq<char>,
    now: Timestamp,
    after: BoardroomView,
    tripped: bool,
)
    requires
        bot_message_recorded(before, thread_id, now, after, tripped),
        before.threads.dom().contains(thread_id) ==> before.threads[thread_id].bot_streak
            < u32::MAX,
    ensures
        tripped <==> before.threads.dom().contains(thread_id)
            && before.threads[thread_id].bot_streak + 1 >= before.config.max_bot_streak,
        after == before.changed(RegistryChange::BotMessage { thread_id, now }),
{
}

/// A cleanup removes a thread exactly where it is idle by the configured timeout,
/// and says so; the others stay as they are, and so does the configuration.
pub proof fn law_cleanup_follows_the_configuration(
    registry: BoardroomView,
    thread_id: Seq<char>,
    now: Timestamp,
)
    requires
        registry.threads.dom().contains(thread_id),
        registry.threads[thread_id].last_activity.nanos < 1_000_000_000,
        now.nanos < 1_000_000_000,
    ensures
        ({
            let thread = registry.threads[thread_id];
            let idle = (now.seconds - thread.last_activity.seconds) * 1_000_000_000 + now.nanos
                - thread.last_activity.nanos > registry.config.idle_timeout_minutes * 60
                * 1_000_000_000;
            let after = registry.cleaned(now);
            &&& registry.idle_threads(now).contains(thread_id) <==> idle
            &&& after.threads.dom().contains(thread_id) <==> !idle
            &&& !idle ==> after.threads[thread_id] == thread
            &&& after.config == registry.config
        }),
{
}

/// A cleanup names and removes threads that exist only, and makes none.
pub proof fn law_cleanup_makes_no_threads(
    registry: BoardroomView,
    thread_id: Seq<char>,
    now: Timestamp,
)
    requires
        !registry.threads.dom().contains(thread_id),
    ensures
        !registry.idle_threads(now).contains(thread_id),
        !registry.cleaned(now).threads.dom().contains(thread_id),
{
}

/// What is asked to be written is the changed thread, under its key; what is asked
/// to be deleted stands under the key of a thread that existed. Where there was no
/// thread, nothing is asked.
pub proof fn law_storage_follows_the_thread(registry: BoardroomView, thread_id: Seq<char>)
    ensures
        registry.threads.dom().contains(thread_id) ==> registry.saving(thread_id) == (
        StorageView::Save {
            key: "boardroom:thread:"@ + thread_id,
            thread: registry.threads[thread_id],
        }),
        registry.threads.dom().contains(thread_id) ==> registry.deleting(thread_id)
            == StorageView::Delete("boardroom:thread:"@ + thread_id),
        !registry.threads.dom().contains(thread_id) ==> registry.saving(thread_id) is Keep
            && registry.deleting(thread_id) is Keep,
{
}

/// Loading goes entry by entry: a thread's entry puts it under its ID, in place of
/// any that stood there; one that cannot be read ends the loading with a message
/// that names the thread and the reason; one under another key changes nothing,
/// whatever it holds; and no entry makes good an earlier failure.
pub proof fn law_entries_are_loaded_one_by_one(
    entries: Seq<(Seq<char>, Result<ThreadView, Seq<char>>)>,
    threads: Map<Seq<char>, ThreadView>,
    thread_id: Seq<char>,
    thread: ThreadView,
    reason: Seq<char>,
    key: Seq<char>,
    value: Result<ThreadView, Seq<char>>,
)
    requires
        loaded(entries) == Ok::<Map<Seq<char>, ThreadView>, Seq<char>>(threads),
    ensures
        loaded(Seq::<(Seq<char>, Result<ThreadView, Seq<char>>)>::empty()) == Ok::<
            Map<Seq<char>, ThreadView>,
            Seq<char>,
        >(Map::empty()),
        loaded(entries.push(("boardroom:thread:"@ + thread_id, Ok(thread)))) == Ok::<
            Map<Seq<char>, ThreadView>,
            Seq<char>,
        >(threads.insert(thread_id, thread)),
        loaded(entries.push(("boardroom:thread:"@ + thread_id, Err(reason)))) == Err::<
            Map<Seq<char>, ThreadView>,
            Seq<char>,
        >("Failed to deserialize thread "@ + thread_id + ": "@ + reason),
        loaded(
            entries.push(("boardroom:thread:"@ + thread_id, Err(reason))).push((key, value)),
        ) == loaded(entries.push(("boardroom:thread:"@ + thread_id, Err(reason)))),
{
    law_keys_name_threads(thread_id, thread_id);
    let good = entries.push(("boardroom:thread:"@ + thread_id, Ok(thread)));
    let bad = entries.push(
        ("boardroom:thread:"@ + thread_id, Err::<ThreadView, Seq<char>>(reason)),
    );
    assert(good.drop_last() =~= entries);
    assert(bad.drop_last() =~= entries);
    assert(bad.push((key, value)).drop_last() =~= bad);
}

/// A key that does not begin with the prefix of stored threads names no thread.
pub proof fn law_other_keys_name_no_thread(key: Seq<char>)
    ensures
        thread_of_key(key) is Some <==> "boardroom:thread:"@.is_prefix_of(key),
        thread_of_key(key) matches Some(thread_id) ==> key == "boardroom:thread:"@ + thread_id,
{
    if let Some(thread_id) = thread_of_key(key) {
        lemma_key_of_thread(key, thread_id);
    }
}

/// The message on a thread that cannot be written names the thread and the reason.
pub proof fn law_unwritable_threads_are_named(thread_id: Seq<char>, reason: Seq<char>)
    ensures
        unwritable_message(thread_id, reason) == "Failed to serialize thread "@ + thread_id
            + ": "@ + reason,
        unreadable_message(thread_id, reason) == "Failed to deserialize thread "@ + thread_id
            + ": "@ + reason,
{
}

/// The models of threads, stored entries, lookups and storage actions show all that
/// these hold.
pub proof fn law_models_of_threads(
    thread: BoardroomThread,
    key: String,
    reason: String,
    entries: Seq<(String, Result<BoardroomThread, String>)>,
    i: int,
)
    ensures
        thread@.thread_id == thread.thread_id@,
        thread@.participants == thread.participants@,
        thread@.status == thread.status,
        thread@.turn_policy == thread.turn_policy,
        thread@.bot_streak == thread.bot_streak,
        thread@.last_activity == thread.last_activity,
        stored_view((key, Ok(thread))) == (key@, Ok::<ThreadView, Seq<char>>(thread@)),
        stored_view((key, Err(reason))) == (key@, Err::<ThreadView, Seq<char>>(reason@)),
        stored_views(entries).len() == entries.len(),
        0 <= i < entries.len() ==> stored_views(entries)[i] == stored_view(entries[i]),
        ThreadLookup::Found(thread)@ == LookupView::Found(thread@),
        (ThreadLookup::Create { key, thread })@ == (LookupView::Create {
            key: key@,
            thread: thread@,
        }),
        StorageAction::Keep@ is Keep,
        (StorageAction::Save { key, thread })@ == (StorageView::Save {
            key: key@,
            thread: thread@,
        }),
        StorageAction::Delete(key)@ == StorageView::Delete(key@),
        BoardroomError::Memory(reason).message() == reason@,
{
}

/// A thread that is put into the registry stands there as it was given, and nothing
/// else changes.
pub proof fn law_threads_are_put_as_given(
    registry: BoardroomView,
    thread_id: Seq<char>,
    thread: ThreadView,
    other: Seq<char>,
)
    requires
        other != thread_id,
    ensures
        ({
            let after = registry.with_thread(thread_id, thread);
            &&& after.config == registry.config
            &&& after.threads.dom().contains(thread_id)
            &&& after.threads[thread_id] == thread
            &&& after.threads.dom().contains(other) <==> registry.threads.dom().contains(other)
            &&& registry.threads.dom().contains(other) ==> after.threads[other]
                == registry.threads[other]
        }),
{
}

} // verus!
