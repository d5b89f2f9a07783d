//! Reaction coordination for Tier 2-3 of the 4-tier processing ladder.
//!
//! Manages a time window for collecting reactions, decides a winner, and forgets
//! windows that are over.

use crate::text::{has_text, texts};
use crate::text_map::{lemma_next_key, TextMap};
use crate::types::{ReactionConfig, ReactionConfigView};
use vstd::prelude::*;

verus! {

/// Winner decision after the coordination window closes.
#[derive(Debug, Clone)]
pub enum WinnerDecision {
    /// A single agent reacted: it wins.
    SingleWinner(String),
    /// Multiple agents reacted: domain classification is needed (Tier 3).
    NeedsClassification(Vec<String>),
    /// No reactions within the window.
    NoWinner,
}

/// The model of a [`WinnerDecision`].
pub enum WinnerView {
    SingleWinner(Seq<char>),
    NeedsClassification(Seq<Seq<char>>),
    NoWinner,
}

impl View for WinnerDecision {
    type V = WinnerView;

    open spec fn view(&self) -> WinnerView {
        match self {
            WinnerDecision::SingleWinner(agent) => WinnerView::SingleWinner(agent@),
            WinnerDecision::NeedsClassification(agents) => WinnerView::NeedsClassification(
                texts(agents@),
            ),
            WinnerDecision::NoWinner => WinnerView::NoWinner,
        }
    }
}

/// A single reaction event.
#[derive(Debug, Clone)]
pub struct ReactionEvent {
    pub agent_id: String,
    pub emoji: String,
    /// Nanoseconds on the coordinator's clock.
    pub timestamp: u128,
}

/// The model of a [`ReactionEvent`].
pub struct EventView {
    pub agent_id: Seq<char>,
    pub emoji: Seq<char>,
    pub timestamp: u128,
}

impl View for ReactionEvent {
    type V = EventView;

    open spec fn view(&self) -> EventView {
        EventView { agent_id: self.agent_id@, emoji: self.emoji@, timestamp: self.timestamp }
    }
}

/// The reactions to one message while they are collected.
#[derive(Debug, Clone)]
pub struct CoordinationWindow {
    pub message_id: String,
    pub reactions: Vec<ReactionEvent>,
    /// Nanoseconds on the coordinator's clock.
    pub created_at: u128,
    pub expired: bool,
}

/// The model of a [`CoordinationWindow`].
pub struct WindowView {
    pub message_id: Seq<char>,
    pub reactions: Seq<EventView>,
    pub created_at: u128,
    pub expired: bool,
}

impl View for CoordinationWindow {
    type V = WindowView;

    open spec fn view(&self) -> WindowView {
        WindowView {
            message_id: self.message_id@,
            reactions: self.reactions@.map_values(|e: ReactionEvent| e@),
            created_at: self.created_at,
            expired: self.expired,
        }
    }
}

impl WindowView {
    /// A window in which nobody has reacted yet.
    pub open spec fn opened(message_id: Seq<char>, now: u128) -> WindowView {
        WindowView { message_id, reactions: Seq::empty(), created_at: now, expired: false }
    }

    /// The window with one more reaction.
    pub open spec fn with_reaction(
        self,
        agent_id: Seq<char>,
        emoji: Seq<char>,
        now: u128,
    ) -> WindowView {
        WindowView {
            reactions: self.reactions.push(EventView { agent_id, emoji, timestamp: now }),
            ..self
        }
    }

    /// The window, expired.
    pub open spec fn closed(self) -> WindowView {
        WindowView { expired: true, ..self }
    }

    /// The window has expired, or has been open for `window_ms` milliseconds.
    pub open spec fn is_over(self, window_ms: u64, now: u128) -> bool {
        self.expired || elapsed(self.created_at, now) >= window_ms * 1_000_000
    }

    /// The agents that reacted, in the order of their first reactions.
    pub open spec fn agents(self) -> Seq<Seq<char>> {
        distinct(self.reactions.map_values(|e: EventView| e.agent_id))
    }
}

/// The nanoseconds since `start`, zero where the clock has not passed it.
pub open spec fn elapsed(start: u128, now: u128) -> int {
    if now >= start {
        now - start
    } else {
        0
    }
}

/// The texts of a sequence, each once, in the order in which they first occur.
pub open spec fn distinct(items: Seq<Seq<char>>) -> Seq<Seq<char>>
    decreases items.len(),
{
    if items.len() == 0 {
        Seq::empty()
    } else {
        let front = distinct(items.drop_last());
        if front.contains(items.last()) {
            front
        } else {
            front.push(items.last())
        }
    }
}

/// The model of a [`ReactionCoordinator`].
pub struct CoordinatorView {
    pub config: ReactionConfigView,
    /// Windows by message ID.
    pub windows: Map<Seq<char>, WindowView>,
}

impl CoordinatorView {
    /// The window for a message: the one that is open, or a new one.
    pub open spec fn window(self, message_id: Seq<char>, now: u128) -> WindowView {
        if self.windows.dom().contains(message_id) {
            self.windows[message_id]
        } else {
            WindowView::opened(message_id, now)
        }
    }

    /// A reaction to the message is still accepted.
    pub open spec fn accepts(self, message_id: Seq<char>) -> bool {
        self.windows.dom().contains(message_id) ==> !self.windows[message_id].expired
    }

    /// The coordinator after a reaction.
    pub open spec fn recorded(
        self,
        message_id: Seq<char>,
        agent_id: Seq<char>,
        emoji: Seq<char>,
        now: u128,
    ) -> CoordinatorView {
        if self.accepts(message_id) {
            CoordinatorView {
                windows: self.windows.insert(
                    message_id,
                    self.window(message_id, now).with_reaction(agent_id, emoji, now),
                ),
                ..self
            }
        } else {
            self
        }
    }

    /// The decision on a message.
    pub open spec fn winner(self, message_id: Seq<char>) -> WinnerView {
        if !self.windows.dom().contains(message_id) {
            WinnerView::NoWinner
        } else {
            let window = self.windows[message_id];
            if window.expired || window.reactions.len() == 0 {
                WinnerView::NoWinner
            } else if window.agents().len() == 1 {
                WinnerView::SingleWinner(window.agents()[0])
            } else {
                WinnerView::NeedsClassification(window.agents())
            }
        }
    }

    /// The coordinator without the windows that are over.
    pub open spec fn cleaned(self, now: u128) -> CoordinatorView {
        CoordinatorView {
            windows: self.windows.restrict(
                Set::new(
                    |id: Seq<char>|
                        self.windows.dom().contains(id) && !self.windows[id].is_over(
                            self.config.coordination_window_ms,
                            now,
                        ),
                ),
            ),
            ..self
        }
    }

    /// The coordinator with the window of a message expired, if there is one.
    pub open spec fn marked(self, message_id: Seq<char>) -> CoordinatorView {
        if self.windows.dom().contains(message_id) {
            CoordinatorView {
                windows: self.windows.insert(message_id, self.windows[message_id].closed()),
                ..self
            }
        } else {
            self
        }
    }

    /// The coordinator after a message's window was made to expire.
    pub open spec fn expired(self, message_id: Seq<char>, now: u128) -> CoordinatorView {
        self.marked(message_id).cleaned(now)
    }
}

/// Manages the coordination windows of messages.
pub struct ReactionCoordinator {
    config: ReactionConfig,
    /// Windows keyed by message ID.
    windows: TextMap<CoordinationWindow>,
    /// The zero of the coordinator's clock.
    epoch: std::time::Instant,
}

impl View for ReactionCoordinator {
    type V = CoordinatorView;

    closed spec fn view(&self) -> CoordinatorView {
        CoordinatorView {
            config: self.config@,
            windows: self.windows@.map_values(|w: CoordinationWindow| w@),
        }
    }
}

fn distinct_agents(reactions: &Vec<ReactionEvent>) -> (agents: Vec<String>)
    ensures
        texts(agents@) == distinct(
            reactions@.map_values(|e: ReactionEvent| e@).map_values(|e: EventView| e.agent_id),
        ),
{
    let ghost all = reactions@.map_values(|e: ReactionEvent| e@).map_values(
        |e: EventView| e.agent_id,
    );
    let mut agents: Vec<String> = Vec::new();
    assert(texts(agents@) =~= distinct(all.take(0)));
    for i in 0..reactions.len()
        invariant
            all == reactions@.map_values(|e: ReactionEvent| e@).map_values(
                |e: EventView| e.agent_id,
            ),
            texts(agents@) == distinct(all.take(i as int)),
    {
        let ghost done = agents@;
        assert(all.take(i + 1).drop_last() =~= all.take(i as int));
        assert(all[i as int] == reactions@[i as int].agent_id@);
        if !has_text(agents.as_slice(), reactions[i].agent_id.as_str()) {
            agents.push(reactions[i].agent_id.clone());
            assert(texts(agents@) =~= texts(done).push(all[i as int]));
        }
    }
    assert(all.take(all.len() as int) =~= all);
    agents
}

impl ReactionCoordinator {
    /// The zero of the coordinator's clock.
    pub closed spec fn clock_zero(&self) -> std::time::Instant {
        self.epoch
    }

    /// Create a new coordinator with the given configuration.
    pub fn new(config: ReactionConfig) -> (coordinator: Self)
        ensures
            coordinator@ == (CoordinatorView { config: config@, windows: Map::empty() }),
    {
        let coordinator = ReactionCoordinator {
            config,
            windows: TextMap::new(),
            epoch: instant_now(),
        };
        assert(coordinator@.windows =~= Map::empty());
        coordinator
    }

    /// The time on the coordinator's clock, in nanoseconds.
    fn now(&self) -> u128 {
        nanos_since(&self.epoch)
    }

    /// Record a reaction and start the coordination window if not already open.
    /// Returns whether the window accepted it.
    pub fn record_reaction(&mut self, message_id: String, agent_id: String, emoji: String) -> (r:
        bool)
        ensures
            exists|now: u128|
                final(self)@ == #[trigger] old(self)@.recorded(
                    message_id@,
                    agent_id@,
                    emoji@,
                    now,
                ),
            r == old(self)@.accepts(message_id@),
            final(self).clock_zero() == old(self).clock_zero(),
    {
        let now: u128 = self.now();
        self.record_reaction_at(message_id, agent_id, emoji, now)
    }

    /// Record a reaction at a given time on the coordinator's clock.
    pub fn record_reaction_at(
        &mut self,
        message_id: String,
        agent_id: String,
        emoji: String,
        now: u128,
    ) -> (r: bool)
        ensures
            final(self)@ == old(self)@.recorded(message_id@, agent_id@, emoji@, now),
            r == old(self)@.accepts(message_id@),
            final(self).clock_zero() == old(self).clock_zero(),
    {
        let ghost before = self@;
        let mut window = match self.windows.remove(message_id.as_str()) {
            Some(window) => window,
            None => CoordinationWindow {
                message_id: message_id.clone(),
                reactions: Vec::new(),
                created_at: now,
                expired: false,
            },
        };
        assert(window@ == before.window(message_id@, now)) by {
            if !before.windows.dom().contains(message_id@) {
                assert(window@.reactions =~= Seq::empty());
            }
        }
        let accepted = !window.expired;
        let ghost was = window@;
        if accepted {
            let event = ReactionEvent { agent_id, emoji, timestamp: now };
            window.reactions.push(event);
            assert(window@.reactions =~= was.reactions.push(event@));
        }
        self.windows.insert(message_id, window);
        assert(self@.windows =~= before.recorded(message_id@, agent_id@, emoji@, now).windows);
        accepted
    }

    /// Get the winner decision after the window closes.
    /// This should be called after waiting for the coordination window.
    pub fn get_winner(&self, message_id: &str) -> (r: WinnerDecision)
        ensures
            r@ == self@.winner(message_id@),
    {
        match self.windows.get(message_id) {
            None => WinnerDecision::NoWinner,
            Some(window) => {
                if window.expired || window.reactions.len() == 0 {
                    return WinnerDecision::NoWinner;
                }
                let mut agents = distinct_agents(&window.reactions);
                let ghost all = texts(agents@);
                if agents.len() == 1 {
                    assert(all[0] == agents@[0]@);
                    WinnerDecision::SingleWinner(agents.remove(0))
                } else {
                    WinnerDecision::NeedsClassification(agents)
                }
            },
        }
    }

    /// Expire a window manually (e.g., after a decision has been made).
    pub fn expire_window(&mut self, message_id: &str)
        ensures
            exists|now: u128| final(self)@ == #[trigger] old(self)@.expired(message_id@, now),
            final(self).clock_zero() == old(self).clock_zero(),
    {
        let now: u128 = self.now();
        self.expire_window_at(message_id, now)
    }

    /// Expire a window at a given time on the coordinator's clock.
    pub fn expire_window_at(&mut self, message_id: &str, now: u128)
        ensures
            final(self)@ == old(self)@.expired(message_id@, now),
            final(self).clock_zero() == old(self).clock_zero(),
    {
        let ghost before = self@;
        if let Some(mut window) = self.windows.remove(message_id) {
            window.expired = true;
            self.windows.insert(message_id.to_owned(), window);
        }
        assert(self@.windows =~= before.marked(message_id@).windows);
        self.cleanup_windows_at(now)
    }

    /// Forget the windows that are over.
    pub fn cleanup_windows(&mut self)
        ensures
            exists|now: u128| final(self)@ == #[trigger] old(self)@.cleaned(now),
            final(self).clock_zero() == old(self).clock_zero(),
    {
        let now: u128 = self.now();
        self.cleanup_windows_at(now)
    }

    /// Forget the windows that are over at a given time on the coordinator's clock.
    pub fn cleanup_windows_at(&mut self, now: u128)
        ensures
            final(self)@ == old(self)@.cleaned(now),
            final(self).clock_zero() == old(self).clock_zero(),
    {
        let limit: u128 = self.config.coordination_window_ms as u128 * 1_000_000;
        let ghost before = self.windows@;
        let ghost window_ms = self.config.coordination_window_ms;
        let keys = self.windows.keys();
        for i in 0..keys.len()
            invariant
                limit == window_ms * 1_000_000,
                self.config == old(self).config,
                self.epoch == old(self).epoch,
                window_ms == old(self).config.coordination_window_ms,
                before == old(self).windows@,
                texts(keys@).no_duplicates(),
                texts(keys@).to_set() == before.dom(),
                forall|k: Seq<char>| #[trigger]
                    self.windows@.dom().contains(k) <==> {
                        &&& before.dom().contains(k)
                        &&& !(before[k]@.is_over(window_ms, now) && texts(keys@).take(
                            i as int,
                        ).contains(k))
                    },
                forall|k: Seq<char>| #[trigger]
                    self.windows@.dom().contains(k) ==> self.windows@[k] == before[k],
        {
            let ghost all = texts(keys@);
            let ghost key = keys@[i as int]@;
            proof {
                lemma_next_key(all, i as int);
                assert(all[i as int] == key);
                assert(all.to_set().contains(key));
                assert(self.windows@.dom().contains(key));
            }
            let over = match self.windows.get(keys[i].as_str()) {
                Some(window) => window.expired || (if now >= window.created_at {
                    now - window.created_at
                } else {
                    0
                }) >= limit,
                None => false,
            };
            if over {
                let _ = self.windows.remove(keys[i].as_str());
            }
        }
        proof {
            assert(texts(keys@).take(keys@.len() as int) =~= texts(keys@));
            assert forall|k: Seq<char>| before.dom().contains(k) implies #[trigger] texts(
                keys@,
            ).contains(k) by {
                assert(texts(keys@).to_set().contains(k));
            }
            assert(self@.windows =~= old(self)@.cleaned(now).windows);
        }
    }
}

impl Clone for ReactionCoordinator {
    /// A coordinator with the same configuration and no windows.
    fn clone(&self) -> (r: Self)
        ensures
            r@ == (CoordinatorView { config: self@.config, windows: Map::empty() }),
    {
        ReactionCoordinator::new(
            ReactionConfig {
                coordination_window_ms: self.config.coordination_window_ms,
                classifier_model: self.config.classifier_model.clone(),
                classifier_threshold: self.config.classifier_threshold,
                cleanup_reactions: self.config.cleanup_reactions,
            },
        )
    }
}

proof fn lemma_distinct(items: Seq<Seq<char>>)
    ensures
        distinct(items).no_duplicates(),
        distinct(items).len() <= items.len(),
        items.len() > 0 ==> distinct(items).len() > 0,
        forall|t: Seq<char>| #[trigger] distinct(items).contains(t) <==> items.contains(t),
    decreases items.len(),
{
    if items.len() > 0 {
        let front = items.drop_last();
        lemma_distinct(front);
        let last = items.last();
        let result = distinct(items);
        assert forall|t: Seq<char>| #[trigger] result.contains(t) <==> items.contains(t) by {
            assert(items =~= front.push(last));
            if items.contains(t) {
                let j = choose|j: int| 0 <= j < items.len() && items[j] == t;
                if j < front.len() {
                    assert(front[j] == t);
                    assert(distinct(front).contains(t));
                    let d = choose|d: int| 0 <= d < distinct(front).len() && distinct(front)[d] == t;
                    assert(result[d] == t);
                } else if !distinct(front).contains(last) {
                    assert(result[distinct(front).len() as int] == t);
                }
            }
            if result.contains(t) {
                let d = choose|d: int| 0 <= d < result.len() && result[d] == t;
                if d < distinct(front).len() {
                    assert(distinct(front)[d] == t);
                    assert(distinct(front).contains(t));
                    let j = choose|j: int| 0 <= j < front.len() && front[j] == t;
                    assert(items[j] == t);
                } else {
                    assert(items[items.len() - 1] == t);
                }
            }
        }
    }
}

/// An agent has reacted to a message in its window.
pub open spec fn has_reacted(window: WindowView, agent: Seq<char>) -> bool {
    exists|i: int| 0 <= i < window.reactions.len() && (#[trigger] window.reactions[i]).agent_id == agent
}

/// The agents of a window are those that reacted in it, each once.
pub proof fn law_agents_are_those_that_reacted(window: WindowView)
    ensures
        window.agents().no_duplicates(),
        forall|agent: Seq<char>| #[trigger]
            window.agents().contains(agent) <==> has_reacted(window, agent),
        window.reactions.len() > 0 ==> window.agents().len() > 0,
{
    let ids = window.reactions.map_values(|e: EventView| e.agent_id);
    lemma_distinct(ids);
    assert forall|agent: Seq<char>| #[trigger]
        window.agents().contains(agent) <==> has_reacted(window, agent) by {
        if ids.contains(agent) {
            let i = choose|i: int| 0 <= i < ids.len() && ids[i] == agent;
            assert(window.reactions[i].agent_id == agent);
        }
        if has_reacted(window, agent) {
            let i = choose|i: int|
                0 <= i < window.reactions.len() && (#[trigger] window.reactions[i]).agent_id
                    == agent;
            assert(ids[i] == agent);
        }
    }
}

/// One agent wins exactly where the window is open and it alone reacted;
/// classification is needed exactly where two or more did.
pub proof fn law_winner(coordinator: CoordinatorView, message_id: Seq<char>)
    requires
        coordinator.windows.dom().contains(message_id),
        !coordinator.windows[message_id].expired,
    ensures
        match coordinator.winner(message_id) {
            WinnerView::SingleWinner(agent) => forall|other: Seq<char>| #[trigger]
                has_reacted(coordinator.windows[message_id], other) <==> other == agent,
            WinnerView::NeedsClassification(agents) => {
                &&& agents.len() >= 2
                &&& agents.no_duplicates()
                &&& forall|other: Seq<char>| #[trigger]
                    agents.contains(other) <==> has_reacted(
                        coordinator.windows[message_id],
                        other,
                    )
            },
            WinnerView::NoWinner => coordinator.windows[message_id].reactions.len() == 0,
        },
{
    let window = coordinator.windows[message_id];
    law_agents_are_those_that_reacted(window);
    if window.agents().len() == 1 {
        let agent = window.agents()[0];
        assert forall|other: Seq<char>| #[trigger]
            has_reacted(window, other) <==> other == agent by {
            assert(window.agents().contains(other) <==> has_reacted(window, other));
            if other == agent {
                assert(window.agents()[0] == other);
            }
        }
    }
}

/// A reaction that was accepted counts: the agent is among those that reacted,
/// earlier reactions stay, and the message has a decision.
pub proof fn law_accepted_reactions_count(
    coordinator: CoordinatorView,
    message_id: Seq<char>,
    agent_id: Seq<char>,
    emoji: Seq<char>,
    now: u128,
)
    requires
        coordinator.accepts(message_id),
    ensures
        ({
            let after = coordinator.recorded(message_id, agent_id, emoji, now);
            let window = coordinator.window(message_id, now);
            &&& after.windows.dom().contains(message_id)
            &&& has_reacted(after.windows[message_id], agent_id)
            &&& forall|other: Seq<char>| #[trigger]
                has_reacted(window, other) ==> has_reacted(after.windows[message_id], other)
            &&& !(after.winner(message_id) is NoWinner)
        }),
{
    let after = coordinator.recorded(message_id, agent_id, emoji, now);
    let before = coordinator.window(message_id, now);
    let window = after.windows[message_id];
    assert(window.reactions[before.reactions.len() as int].agent_id == agent_id);
    assert forall|other: Seq<char>| #[trigger]
        has_reacted(before, other) implies has_reacted(window, other) by {
        let i = choose|i: int|
            0 <= i < before.reactions.len() && (#[trigger] before.reactions[i]).agent_id == other;
        assert(window.reactions[i].agent_id == other);
    }
}

/// A reaction, accepted or not, changes no other message's window, and one that
/// is refused changes nothing.
pub proof fn law_reactions_stay_with_their_message(
    coordinator: CoordinatorView,
    message_id: Seq<char>,
    agent_id: Seq<char>,
    emoji: Seq<char>,
    now: u128,
    other: Seq<char>,
)
    requires
        other != message_id,
    ensures
        coordinator.recorded(message_id, agent_id, emoji, now).winner(other)
            == coordinator.winner(other),
        !coordinator.accepts(message_id) ==> coordinator.recorded(message_id, agent_id, emoji, now)
            == coordinator,
{
}

/// A window that was made to expire is gone: the message has no winner any more,
/// and the next reaction to it starts a new window.
pub proof fn law_expired_windows_are_gone(
    coordinator: CoordinatorView,
    message_id: Seq<char>,
    now: u128,
)
    ensures
        !coordinator.expired(message_id, now).windows.dom().contains(message_id),
        coordinator.expired(message_id, now).winner(message_id) is NoWinner,
        coordinator.expired(message_id, now).accepts(message_id),
{
}

/// Cleaning up keeps the windows that are not over as they are, drops the others,
/// and has nothing left to do at the same time.
pub proof fn law_cleaning_up(coordinator: CoordinatorView, now: u128)
    ensures
        forall|id: Seq<char>| #[trigger]
            coordinator.cleaned(now).windows.dom().contains(id) <==> {
                &&& coordinator.windows.dom().contains(id)
                &&& !coordinator.windows[id].is_over(
                    coordinator.config.coordination_window_ms,
                    now,
                )
            },
        forall|id: Seq<char>| #[trigger]
            coordinator.cleaned(now).windows.dom().contains(id)
                ==> coordinator.cleaned(now).windows[id] == coordinator.windows[id],
        coordinator.cleaned(now).cleaned(now) == coordinator.cleaned(now),
{
    assert(coordinator.cleaned(now).cleaned(now).windows =~= coordinator.cleaned(now).windows);
}

/// A window ends: a cleanup at or after the end of a message's coordination window
/// leaves it no winner, whatever reactions were recorded.
pub proof fn law_windows_end(
    coordinator: CoordinatorView,
    message_id: Seq<char>,
    agent_id: Seq<char>,
    emoji: Seq<char>,
    reacted: u128,
    cleaned: u128,
)
    requires
        cleaned >= coordinator.window(message_id, reacted).created_at
            + coordinator.config.coordination_window_ms * 1_000_000,
    ensures
        !coordinator.recorded(message_id, agent_id, emoji, reacted).cleaned(
            cleaned,
        ).windows.dom().contains(message_id),
        coordinator.recorded(message_id, agent_id, emoji, reacted).cleaned(cleaned).winner(
            message_id,
        ) is NoWinner,
{
}

/// The coordinator after cleanups at the given times.
pub open spec fn cleaned_at_each(
    coordinator: CoordinatorView,
    times: Seq<u128>,
) -> CoordinatorView
    decreases times.len(),
{
    if times.len() == 0 {
        coordinator
    } else {
        cleaned_at_each(coordinator, times.drop_last()).cleaned(times.last())
    }
}

proof fn lemma_cleaned_at_each(coordinator: CoordinatorView, times: Seq<u128>)
    ensures
        cleaned_at_each(coordinator, times).config == coordinator.config,
        forall|id: Seq<char>| #[trigger]
            cleaned_at_each(coordinator, times).windows.dom().contains(id)
                ==> coordinator.windows.dom().contains(id) && cleaned_at_each(
                coordinator,
                times,
            ).windows[id] == coordinator.windows[id],
    decreases times.len(),
{
    if times.len() > 0 {
        lemma_cleaned_at_each(coordinator, times.drop_last());
    }
}

/// Periodic cleanup ends every window: where the last cleanup lies no longer ago
/// than a coordination window, a message whose window was opened more than two
/// coordination windows ago has no winner any more.
pub proof fn law_periodic_cleanup_ends_windows(
    coordinator: CoordinatorView,
    message_id: Seq<char>,
    agent_id: Seq<char>,
    emoji: Seq<char>,
    reacted: u128,
    cleanups: Seq<u128>,
    now: u128,
)
    requires
        now > coordinator.window(message_id, reacted).created_at + 2
            * coordinator.config.coordination_window_ms * 1_000_000,
        cleanups.len() > 0,
        cleanups.last() + coordinator.config.coordination_window_ms * 1_000_000 >= now,
    ensures
        cleaned_at_each(
            coordinator.recorded(message_id, agent_id, emoji, reacted),
            cleanups,
        ).winner(message_id) is NoWinner,
{
    let after = coordinator.recorded(message_id, agent_id, emoji, reacted);
    lemma_cleaned_at_each(after, cleanups.drop_last());
    let earlier = cleaned_at_each(after, cleanups.drop_last());
    if earlier.windows.dom().contains(message_id) {
        assert(earlier.windows[message_id] == after.windows[message_id]);
    }
}

/// A cleanup takes nothing from a window that has neither expired nor lasted its
/// time: whatever reactions it holds, they stay, and so does the decision on its
/// message. The same holds where the window of another message is made to expire.
pub proof fn law_open_windows_survive(
    coordinator: CoordinatorView,
    message_id: Seq<char>,
    other: Seq<char>,
    now: u128,
)
    requires
        coordinator.windows.dom().contains(message_id),
        !coordinator.windows[message_id].expired,
        coordinator.config.coordination_window_ms > 0,
        now < coordinator.windows[message_id].created_at
            + coordinator.config.coordination_window_ms * 1_000_000,
        other != message_id,
    ensures
        coordinator.cleaned(now).windows.dom().contains(message_id),
        coordinator.cleaned(now).windows[message_id] == coordinator.windows[message_id],
        coordinator.cleaned(now).winner(message_id) == coordinator.winner(message_id),
        coordinator.expired(other, now).windows.dom().contains(message_id),
        coordinator.expired(other, now).windows[message_id] == coordinator.windows[message_id],
        coordinator.expired(other, now).winner(message_id) == coordinator.winner(message_id),
{
}

/// A cleanup drops every window that has expired or lasted its time, adds none, and
/// leaves the configuration alone. So does the expiry of a message's window, which
/// cleans up as well.
pub proof fn law_cleanup_drops_ended_windows(
    coordinator: CoordinatorView,
    message_id: Seq<char>,
    other: Seq<char>,
    now: u128,
)
    ensures
        coordinator.windows.dom().contains(message_id) && (
        coordinator.windows[message_id].expired || now
            >= coordinator.windows[message_id].created_at
            + coordinator.config.coordination_window_ms * 1_000_000)
            ==> !coordinator.cleaned(now).windows.dom().contains(message_id)
            && !coordinator.expired(other, now).windows.dom().contains(message_id),
        coordinator.config.coordination_window_ms == 0
            ==> !coordinator.cleaned(now).windows.dom().contains(message_id),
        coordinator.cleaned(now).windows.dom().contains(message_id)
            ==> coordinator.windows.dom().contains(message_id),
        coordinator.expired(other, now).windows.dom().contains(message_id)
            ==> coordinator.windows.dom().contains(message_id),
        coordinator.cleaned(now).config == coordinator.config,
        coordinator.expired(message_id, now).config == coordinator.config,
{
}

/// A reaction is refused exactly where the message has a window that has expired.
/// One that is accepted comes last in the message's window, with the agent, the
/// emoji and the time that it was given; a window that stood before keeps its
/// start and its reactions, and a new one starts with it. Nothing else changes.
pub proof fn law_reactions_are_recorded(
    coordinator: CoordinatorView,
    message_id: Seq<char>,
    agent_id: Seq<char>,
    emoji: Seq<char>,
    now: u128,
    other: Seq<char>,
)
    requires
        other != message_id,
    ensures
        coordinator.accepts(message_id) <==> !(coordinator.windows.dom().contains(message_id)
            && coordinator.windows[message_id].expired),
        coordinator.accepts(message_id) ==> {
            let after = coordinator.recorded(message_id, agent_id, emoji, now);
            let window = after.windows[message_id];
            let before = coordinator.windows[message_id];
            let known = coordinator.windows.dom().contains(message_id);
            &&& after.windows.dom().contains(message_id)
            &&& !window.expired
            &&& window.reactions.len() == if known {
                before.reactions.len() + 1
            } else {
                1
            }
            &&& window.reactions.last().agent_id == agent_id
            &&& window.reactions.last().emoji == emoji
            &&& window.reactions.last().timestamp == now
            &&& known ==> {
                &&& window.message_id == before.message_id
                &&& window.created_at == before.created_at
                &&& window.reactions.drop_last() == before.reactions
            }
            &&& !known ==> window.message_id == message_id && window.created_at == now
        },
        ({
            let after = coordinator.recorded(message_id, agent_id, emoji, now);
            &&& after.config == coordinator.config
            &&& after.windows.dom().contains(other) <==> coordinator.windows.dom().contains(other)
            &&& coordinator.windows.dom().contains(other) ==> after.windows[other]
                == coordinator.windows[other]
        }),
{
    let after = coordinator.recorded(message_id, agent_id, emoji, now);
    if coordinator.accepts(message_id) && coordinator.windows.dom().contains(message_id) {
        assert(after.windows[message_id].reactions.drop_last()
            =~= coordinator.windows[message_id].reactions);
    }
}

/// A message without a window, or with one that has expired, has no winner.
pub proof fn law_no_winner_without_a_window(coordinator: CoordinatorView, message_id: Seq<char>)
    requires
        coordinator.windows.dom().contains(message_id)
            ==> coordinator.windows[message_id].expired,
    ensures
        coordinator.winner(message_id) is NoWinner,
{
}

/// One reaction makes its agent the winner, and further reactions of the same
/// agent change nothing of that; a reaction of a second agent asks for
/// classification among the two.
pub proof fn law_two_agents_need_classification(
    coordinator: CoordinatorView,
    message_id: Seq<char>,
    first: Seq<char>,
    second: Seq<char>,
    emoji: Seq<char>,
    now: u128,
    later: u128,
)
    requires
        !coordinator.windows.dom().contains(message_id),
    ensures
        ({
            let once = coordinator.recorded(message_id, first, emoji, now);
            let twice = once.recorded(message_id, second, emoji, later);
            &&& once.winner(message_id) == WinnerView::SingleWinner(first)
            &&& first == second ==> twice.winner(message_id) == WinnerView::SingleWinner(first)
            &&& first != second ==> twice.winner(message_id) == WinnerView::NeedsClassification(
                seq![first, second],
            )
        }),
{
    let once = coordinator.recorded(message_id, first, emoji, now);
    let twice = once.recorded(message_id, second, emoji, later);
    let ids = once.windows[message_id].reactions.map_values(|e: EventView| e.agent_id);
    let both = twice.windows[message_id].reactions.map_values(|e: EventView| e.agent_id);
    assert(distinct(Seq::<Seq<char>>::empty()) =~= Seq::empty());
    assert(ids =~= seq![first]);
    assert(ids.drop_last() =~= Seq::empty());
    assert(distinct(ids) =~= seq![first]);
    assert(both =~= seq![first, second]);
    assert(both.drop_last() =~= ids);
    assert(distinct(ids)[0] == first);
    if first == second {
        assert(distinct(both) =~= seq![first]);
    } else {
        assert(!distinct(ids).contains(second));
        assert(distinct(both) =~= seq![first, second]);
    }
}

/// The models of windows, reactions and decisions show all that these hold.
pub proof fn law_models_of_windows(
    window: CoordinationWindow,
    event: ReactionEvent,
    i: int,
    agent: String,
    agents: Vec<String>,
)
    ensures
        window@.message_id == window.message_id@,
        window@.created_at == window.created_at,
        window@.expired == window.expired,
        window@.reactions.len() == window.reactions@.len(),
        0 <= i < window.reactions@.len() ==> window@.reactions[i] == window.reactions@[i]@,
        event@.agent_id == event.agent_id@,
        event@.emoji == event.emoji@,
        event@.timestamp == event.timestamp,
        WinnerDecision::SingleWinner(agent)@ == WinnerView::SingleWinner(agent@),
        WinnerDecision::NeedsClassification(agents)@ == WinnerView::NeedsClassification(
            texts(agents@),
        ),
        WinnerDecision::NoWinner@ is NoWinner,
{
}

/// `std::time::Instant`, carried along unopened.
#[verifier::external_type_specification]
#[verifier::external_body]
pub struct ExInstant(std::time::Instant);

/// `std::time::Instant::now`: some point on the monotonic clock.
#[verifier::external_body]
fn instant_now() -> std::time::Instant {
    std::time::Instant::now()
}

/// `std::time::Instant::elapsed`, in nanoseconds: it depends on the clock, so
/// nothing is claimed of it.
#[verifier::external_body]
fn nanos_since(epoch: &std::time::Instant) -> u128 {
    epoch.elapsed().as_nanos()
}

} // verus!
