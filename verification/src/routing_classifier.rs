//! Routing classifier for Discord multi-agent boardroom.
//!
//! Analyzes messages and decides whether the default agent should handle,
//! delegate to a specialist, or start a boardroom thread.

use crate::json::{items_view, json_of_text, lemma_items_view, Json, JsonView};
use crate::text::{
    contains_any, first_contained, join, lines, lines_of, lowercase, lowercase_each,
    lowercase_list, same_text, starts_with, tail, texts, trim, trimmed,
};
use crate::types::{ReplyMode, RosterView, RoutingRosterEntry, TurnPolicy};
use vstd::prelude::*;

verus! {

/// Target of a delegation.
#[derive(Debug, Clone)]
pub struct DelegateTarget {
    /// Agent ID of the specialist.
    pub agent_id: String,
    /// Task description to send to the specialist.
    pub task: String,
}

/// The model of a [`DelegateTarget`].
pub struct TargetView {
    pub agent_id: Seq<char>,
    pub task: Seq<char>,
}

impl View for DelegateTarget {
    type V = TargetView;

    open spec fn view(&self) -> TargetView {
        TargetView { agent_id: self.agent_id@, task: self.task@ }
    }
}

impl DelegateTarget {
    /// A task for an agent.
    pub fn new(agent_id: String, task: String) -> (target: Self)
        ensures
            target.agent_id == agent_id,
            target.task == task,
    {
        DelegateTarget { agent_id, task }
    }
}

/// Routing decision produced by the classifier.
#[derive(Debug, Clone)]
pub enum RoutingDecision {
    /// Handle directly (default agent replies).
    Handle,
    /// Delegate to a single specialist agent.
    Delegate(DelegateTarget),
    /// Delegate to multiple specialists (parallel execution).
    DelegateMulti(Vec<DelegateTarget>),
    /// Create a boardroom thread with one or more specialists.
    Boardroom(Vec<DelegateTarget>),
}

/// The model of a [`RoutingDecision`].
pub enum DecisionView {
    Handle,
    Delegate(TargetView),
    DelegateMulti(Seq<TargetView>),
    Boardroom(Seq<TargetView>),
}

/// The models of a sequence of targets.
pub open spec fn target_views(targets: Seq<DelegateTarget>) -> Seq<TargetView> {
    targets.map_values(|t: DelegateTarget| t@)
}

impl View for RoutingDecision {
    type V = DecisionView;

    open spec fn view(&self) -> DecisionView {
        match self {
            RoutingDecision::Handle => DecisionView::Handle,
            RoutingDecision::Delegate(target) => DecisionView::Delegate(target@),
            RoutingDecision::DelegateMulti(targets) => DecisionView::DelegateMulti(
                target_views(targets@),
            ),
            RoutingDecision::Boardroom(targets) => DecisionView::Boardroom(target_views(targets@)),
        }
    }
}

/// The signal on a line: what follows `ROUTE:` at the start of its trimmed text.
pub open spec fn line_signal(line: Seq<char>) -> Option<Seq<char>> {
    if "ROUTE:"@.is_prefix_of(trimmed(line)) {
        Some(trimmed(trimmed(line).skip(6)))
    } else {
        None
    }
}

/// The signal on the first line that has one.
pub open spec fn first_signal(lines: Seq<Seq<char>>) -> Option<Seq<char>>
    decreases lines.len(),
{
    if lines.len() == 0 {
        None
    } else if line_signal(lines[0]) is Some {
        line_signal(lines[0])
    } else {
        first_signal(lines.drop_first())
    }
}

/// The first routing signal in the output of a language model.
pub open spec fn route_signal(output: Seq<char>) -> Option<Seq<char>> {
    first_signal(lines_of(output))
}

/// The task that an entry asks for, or the general one.
pub open spec fn task_of(entry: JsonView) -> Seq<char> {
    match entry.field("task"@).as_text() {
        Some(task) => task,
        None => "Please help with this."@,
    }
}

/// The target that an entry with an agent ID names.
pub open spec fn target_of(entry: JsonView) -> TargetView {
    TargetView { agent_id: entry.field("agent_id"@).as_text()->0, task: task_of(entry) }
}

/// The entry names an agent.
pub open spec fn names_agent(entry: JsonView) -> bool {
    entry.field("agent_id"@).as_text() is Some
}

/// The targets of a list of entries, or `missing` where one names no agent.
pub open spec fn targets_of(entries: Seq<JsonView>, missing: Seq<char>) -> Result<
    Seq<TargetView>,
    Seq<char>,
> {
    if forall|i: int| 0 <= i < entries.len() ==> names_agent(#[trigger] entries[i]) {
        Ok(entries.map_values(|e: JsonView| target_of(e)))
    } else {
        Err(missing)
    }
}

/// The targets that a document lists under `agents`: `no_list` where there is no
/// such list or nobody is on it, and `missing` where an entry names no agent.
pub open spec fn listed_targets(
    document: JsonView,
    no_list: Seq<char>,
    missing: Seq<char>,
) -> Result<Seq<TargetView>, Seq<char>> {
    match document.field("agents"@).as_items() {
        Some(entries) => if entries.len() > 0 {
            targets_of(entries, missing)
        } else {
            Err(no_list)
        },
        None => Err(no_list),
    }
}

/// The decision that a routing document states, or what is wrong with it.
pub open spec fn stated_decision(document: JsonView) -> Result<DecisionView, Seq<char>> {
    match document.field("decision"@).as_text() {
        None => Err("Missing 'decision' field"@),
        Some(kind) => if kind == "handle"@ {
            Ok(DecisionView::Handle)
        } else if kind == "delegate"@ {
            if names_agent(document) {
                Ok(DecisionView::Delegate(target_of(document)))
            } else {
                Err("Missing 'agent_id' for delegate"@)
            }
        } else if kind == "delegate_multi"@ {
            match listed_targets(
                document,
                "Missing 'agents' array for delegate_multi"@,
                "Missing agent_id in delegate_multi entry"@,
            ) {
                Ok(targets) => Ok(DecisionView::DelegateMulti(targets)),
                Err(message) => Err(message),
            }
        } else if kind == "boardroom"@ {
            match listed_targets(
                document,
                "Missing 'agents' array for boardroom"@,
                "Missing agent_id in boardroom entry"@,
            ) {
                Ok(targets) => Ok(DecisionView::Boardroom(targets)),
                Err(message) => Err(message),
            }
        } else {
            Err("Unknown decision type: "@ + kind)
        },
    }
}

/// The decision that a routing signal states, or what is wrong with it.
pub open spec fn signal_decision(signal: Seq<char>) -> Result<DecisionView, Seq<char>> {
    match json_of_text(signal) {
        Ok(document) => stated_decision(document),
        Err(message) => Err("Invalid JSON in ROUTE: signal: "@ + message),
    }
}

/// A result of the library agrees with its model.
pub open spec fn decides(
    r: Result<RoutingDecision, String>,
    expected: Result<DecisionView, Seq<char>>,
) -> bool {
    match (r, expected) {
        (Ok(decision), Ok(view)) => decision@ == view,
        (Err(message), Err(text)) => message@ == text,
        _ => false,
    }
}

/// The models of a roster.
pub open spec fn roster_view(roster: Seq<RoutingRosterEntry>) -> Seq<RosterView> {
    roster.map_values(|e: RoutingRosterEntry| e@)
}

/// An entry with its domains in lowercase form.
pub open spec fn lowered_entry(entry: RosterView) -> RosterView {
    RosterView {
        agent_id: entry.agent_id,
        role: entry.role,
        domains: lowercase_each(entry.domains),
    }
}

/// A roster with its domains in lowercase form.
pub open spec fn lowered(roster: Seq<RosterView>) -> Seq<RosterView> {
    roster.map_values(|e: RosterView| lowered_entry(e))
}

/// The entries of a roster that have a domain which occurs in a text, in the
/// roster's order.
pub open spec fn matching(roster: Seq<RosterView>, text: Seq<char>) -> Seq<RosterView> {
    roster.filter(|e: RosterView| contains_any(text, e.domains))
}

/// The task of passing on a message to the agent of an entry.
pub open spec fn help_target(entry: RosterView, message: Seq<char>) -> TargetView {
    TargetView { agent_id: entry.agent_id, task: "Please help with: "@ + message }
}

/// The decision from the targets found.
pub open spec fn by_count(targets: Seq<TargetView>) -> DecisionView {
    if targets.len() == 0 {
        DecisionView::Handle
    } else if targets.len() == 1 {
        DecisionView::Delegate(targets[0])
    } else {
        DecisionView::DelegateMulti(targets)
    }
}

/// The decision for a message by keywords, for a roster whose domains are in the
/// same letter case as `text`.
pub open spec fn keyword_choice(
    roster: Seq<RosterView>,
    message: Seq<char>,
    text: Seq<char>,
) -> DecisionView {
    by_count(matching(roster, text).map_values(|e: RosterView| help_target(e, message)))
}

/// The decision for a message, with the output of a language model where there
/// is one.
pub open spec fn classified(
    roster: Seq<RosterView>,
    message: Seq<char>,
    output: Option<Seq<char>>,
) -> DecisionView {
    let by_keywords = keyword_choice(lowered(roster), message, lowercase(message));
    match output {
        Some(text) => match route_signal(text) {
            Some(signal) => match signal_decision(signal) {
                Ok(decision) => decision,
                Err(_) => by_keywords,
            },
            None => by_keywords,
        },
        None => by_keywords,
    }
}

/// Extract the first `ROUTE:` line from LLM output.
pub fn extract_route_signal(llm_output: &str) -> (r: Option<String>)
    ensures
        match r {
            Some(signal) => route_signal(llm_output@) == Some(signal@),
            None => route_signal(llm_output@) is None,
        },
{
    let all = lines(llm_output);
    proof {
        reveal_strlit("ROUTE:");
        assert(texts(all@).skip(0) =~= texts(all@));
    }
    for i in 0..all.len()
        invariant
            "ROUTE:"@.len() == 6,
            first_signal(texts(all@)) == first_signal(texts(all@).skip(i as int)),
            texts(all@) == lines_of(llm_output@),
    {
        let ghost rest = texts(all@).skip(i as int);
        assert(rest[0] == all@[i as int]@);
        assert(rest.drop_first() =~= texts(all@).skip(i + 1));
        let line = trim(all[i].as_str());
        if starts_with(line.as_str(), "ROUTE:") {
            let signal = tail(line.as_str(), 6);
            return Some(trim(signal.as_str()));
        }
    }
    None
}

fn entry_task(entry: &Json) -> (task: String)
    ensures
        task@ == task_of(entry@),
{
    match entry.field_text("task") {
        Some(task) => task.to_owned(),
        None => "Please help with this.".to_owned(),
    }
}

fn entry_targets(entries: &Vec<Json>, missing: &str) -> (r: Result<Vec<DelegateTarget>, String>)
    ensures
        match (r, targets_of(items_view(entries@), missing@)) {
            (Ok(targets), Ok(views)) => target_views(targets@) == views,
            (Err(message), Err(text)) => message@ == text,
            _ => false,
        },
{
    proof {
        lemma_items_view(entries@);
    }
    let ghost views = items_view(entries@);
    let mut targets: Vec<DelegateTarget> = Vec::new();
    for i in 0..entries.len()
        invariant
            views == items_view(entries@),
            views.len() == entries@.len(),
            forall|j: int| 0 <= j < entries@.len() ==> views[j] == #[trigger] entries@[j].view(),
            forall|j: int| 0 <= j < i ==> names_agent(#[trigger] views[j]),
            target_views(targets@) =~= views.take(i as int).map_values(
                |e: JsonView| target_of(e),
            ),
    {
        assert(views[i as int] == entries@[i as int].view());
        match entries[i].field_text("agent_id") {
            Some(agent_id) => {
                let ghost done = targets@;
                let target = DelegateTarget::new(agent_id.to_owned(), entry_task(&entries[i]));
                targets.push(target);
                assert(target@ == target_of(views[i as int]));
                assert(target_views(targets@) =~= target_views(done).push(target@));
            },
            None => {
                assert(!names_agent(views[i as int]));
                return Err(missing.to_owned());
            },
        }
    }
    assert(views.take(views.len() as int) =~= views);
    Ok(targets)
}

fn document_targets(document: &Json, no_list: &str, missing: &str) -> (r: Result<
    Vec<DelegateTarget>,
    String,
>)
    ensures
        match (r, listed_targets(document@, no_list@, missing@)) {
            (Ok(targets), Ok(views)) => target_views(targets@) == views,
            (Err(message), Err(text)) => message@ == text,
            _ => false,
        },
{
    match document.field_items("agents") {
        Some(entries) => {
            proof {
                lemma_items_view(entries@);
            }
            if entries.len() > 0 {
                entry_targets(entries, missing)
            } else {
                Err(no_list.to_owned())
            }
        },
        None => Err(no_list.to_owned()),
    }
}

/// Turn a routing document into a decision. An error says what is missing.
pub fn decision_from_document(document: &Json) -> (r: Result<RoutingDecision, String>)
    ensures
        decides(r, stated_decision(document@)),
{
    let kind = match document.field_text("decision") {
        Some(kind) => kind,
        None => return Err("Missing 'decision' field".to_owned()),
    };
    if same_text(kind, "handle") {
        Ok(RoutingDecision::Handle)
    } else if same_text(kind, "delegate") {
        match document.field_text("agent_id") {
            Some(agent_id) => Ok(
                RoutingDecision::Delegate(
                    DelegateTarget::new(agent_id.to_owned(), entry_task(document)),
                ),
            ),
            None => Err("Missing 'agent_id' for delegate".to_owned()),
        }
    } else if same_text(kind, "delegate_multi") {
        match document_targets(
            document,
            "Missing 'agents' array for delegate_multi",
            "Missing agent_id in delegate_multi entry",
        ) {
            Ok(targets) => Ok(RoutingDecision::DelegateMulti(targets)),
            Err(message) => Err(message),
        }
    } else if same_text(kind, "boardroom") {
        match document_targets(
            document,
            "Missing 'agents' array for boardroom",
            "Missing agent_id in boardroom entry",
        ) {
            Ok(targets) => Ok(RoutingDecision::Boardroom(targets)),
            Err(message) => Err(message),
        }
    } else {
        Err(join("Unknown decision type: ", kind))
    }
}

/// Parse a `ROUTE:` signal JSON into a `RoutingDecision`.
pub fn parse_route_signal(signal: &str) -> (r: Result<RoutingDecision, String>)
    ensures
        decides(r, signal_decision(signal@)),
{
    match Json::parse(signal) {
        Ok(document) => decision_from_document(&document),
        Err(message) => Err(join("Invalid JSON in ROUTE: signal: ", message.as_str())),
    }
}

/// Choose specialists for a message: those with a domain that occurs in `text`,
/// each entry of the roster at most once.
pub fn choose_by_keywords(roster: &[RoutingRosterEntry], message: &str, text: &str) -> (r:
    RoutingDecision)
    ensures
        r@ == keyword_choice(roster_view(roster@), message@, text@),
{
    let ghost all = roster_view(roster@);
    let ghost hits = |e: RosterView| contains_any(text@, e.domains);
    let ghost help = |e: RosterView| help_target(e, message@);
    let mut targets: Vec<DelegateTarget> = Vec::new();
    proof {
        reveal(Seq::filter);
        assert(all.take(0).filter(hits) =~= Seq::empty());
    }
    for i in 0..roster.len()
        invariant
            all == roster_view(roster@),
            hits == (|e: RosterView| contains_any(text@, e.domains)),
            help == (|e: RosterView| help_target(e, message@)),
            target_views(targets@) =~= all.take(i as int).filter(hits).map_values(help),
    {
        let ghost done = targets@;
        proof {
            reveal(Seq::filter);
            assert(all[i as int] == roster@[i as int]@);
            assert(all.take(i + 1).drop_last() =~= all.take(i as int));
            assert(all.take(i + 1).last() == all[i as int]);
        }
        if first_contained(text, roster[i].domains.as_slice()).is_some() {
            let target = DelegateTarget::new(
                roster[i].agent_id.clone(),
                join("Please help with: ", message),
            );
            targets.push(target);
            assert(target@ == help(all[i as int]));
            assert(target_views(targets@) =~= target_views(done).push(target@));
            assert(all.take(i + 1).filter(hits) == all.take(i as int).filter(hits).push(
                all[i as int],
            ));
        } else {
            assert(all.take(i + 1).filter(hits) == all.take(i as int).filter(hits));
        }
    }
    assert(all.take(all.len() as int) =~= all);
    let ghost found = target_views(targets@);
    if targets.len() == 0 {
        RoutingDecision::Handle
    } else if targets.len() == 1 {
        assert(found[0] == targets@[0]@);
        RoutingDecision::Delegate(targets.remove(0))
    } else {
        RoutingDecision::DelegateMulti(targets)
    }
}

/// Classifies messages based on the agent's routing roster and LLM signals.
pub struct RoutingClassifier {
    /// Routing roster entries (specialists this agent can delegate to).
    roster: Vec<RoutingRosterEntry>,
    /// Turn policy for boardroom threads created by this agent.
    turn_policy: TurnPolicy,
    /// Reply mode for delegated tasks.
    reply_mode: ReplyMode,
}

/// The model of a [`RoutingClassifier`].
pub struct RoutingView {
    pub roster: Seq<RosterView>,
    pub turn_policy: TurnPolicy,
    pub reply_mode: ReplyMode,
}

impl View for RoutingClassifier {
    type V = RoutingView;

    closed spec fn view(&self) -> RoutingView {
        RoutingView {
            roster: roster_view(self.roster@),
            turn_policy: self.turn_policy,
            reply_mode: self.reply_mode,
        }
    }
}

impl RoutingClassifier {
    /// Create a new classifier with the given configuration.
    pub fn new(
        roster: Vec<RoutingRosterEntry>,
        turn_policy: TurnPolicy,
        reply_mode: ReplyMode,
    ) -> (classifier: Self)
        ensures
            classifier@ == (RoutingView { roster: roster_view(roster@), turn_policy, reply_mode }),
    {
        RoutingClassifier { roster, turn_policy, reply_mode }
    }

    fn lowered_roster(&self) -> (r: Vec<RoutingRosterEntry>)
        ensures
            roster_view(r@) == lowered(self@.roster),
    {
        let mut r: Vec<RoutingRosterEntry> = Vec::new();
        for i in 0..self.roster.len()
            invariant
                r@.len() == i,
                forall|j: int| 0 <= j < i ==> (#[trigger] r@[j])@ == lowered_entry(self.roster@[j]@),
        {
            let entry = RoutingRosterEntry {
                agent_id: self.roster[i].agent_id.clone(),
                role: self.roster[i].role.clone(),
                domains: lowercase_list(self.roster[i].domains.as_slice()),
            };
            r.push(entry);
        }
        assert(roster_view(r@) =~= lowered(self@.roster));
        r
    }

    /// Classify a message, optionally using an LLM-generated `ROUTE:` signal.
    ///
    /// If `llm_output` contains a `ROUTE:` line, it is parsed as JSON and used.
    /// Otherwise, or where that line cannot be used, falls back to keyword
    /// matching against the routing roster.
    pub fn classify(&self, message: &str, llm_output: Option<&str>) -> (r: RoutingDecision)
        ensures
            r@ == classified(
                self@.roster,
                message@,
                match llm_output {
                    Some(output) => Some(output@),
                    None => None,
                },
            ),
    {
        if let Some(output) = llm_output {
            if let Some(signal) = extract_route_signal(output) {
                if let Ok(decision) = parse_route_signal(signal.as_str()) {
                    return decision;
                }
            }
        }
        let lower = message.to_lowercase();
        let roster = self.lowered_roster();
        choose_by_keywords(roster.as_slice(), message, lower.as_str())
    }

    /// Get the turn policy for boardroom threads created by this agent.
    pub fn turn_policy(&self) -> (r: TurnPolicy)
        ensures
            r == self@.turn_policy,
    {
        self.turn_policy
    }

    /// Get the reply mode for delegated tasks.
    pub fn reply_mode(&self) -> (r: ReplyMode)
        ensures
            r == self@.reply_mode,
    {
        self.reply_mode
    }
}

/// A usable `ROUTE:` signal decides alone: neither the message nor the roster
/// matters.
pub proof fn law_signal_decides(
    roster: Seq<RosterView>,
    message: Seq<char>,
    output: Seq<char>,
    signal: Seq<char>,
    decision: DecisionView,
)
    requires
        route_signal(output) == Some(signal),
        signal_decision(signal) == Ok::<DecisionView, Seq<char>>(decision),
    ensures
        classified(roster, message, Some(output)) == decision,
{
}

/// Output without a usable signal is as good as none.
pub proof fn law_unusable_output_is_ignored(
    roster: Seq<RosterView>,
    message: Seq<char>,
    output: Seq<char>,
)
    requires
        match route_signal(output) {
            Some(signal) => signal_decision(signal) is Err,
            None => true,
        },
    ensures
        classified(roster, message, Some(output)) == classified(roster, message, None),
{
}

/// The targets of a decision.
pub open spec fn decision_targets(decision: DecisionView) -> Seq<TargetView> {
    match decision {
        DecisionView::Handle => Seq::empty(),
        DecisionView::Delegate(target) => seq![target],
        DecisionView::DelegateMulti(targets) => targets,
        DecisionView::Boardroom(targets) => targets,
    }
}

/// Whoever is to delegate or to open a boardroom learns to whom: a decision other
/// than to handle the message names at least one specialist, whether a signal
/// states it or keywords do.
pub proof fn law_delegation_names_specialists(
    roster: Seq<RosterView>,
    message: Seq<char>,
    output: Option<Seq<char>>,
    document: JsonView,
)
    ensures
        stated_decision(document) matches Ok(decision) ==> decision is Handle || decision_targets(
            decision,
        ).len() > 0,
        classified(roster, message, output) is Handle || decision_targets(
            classified(roster, message, output),
        ).len() > 0,
{
}

/// Keyword matching never opens a boardroom. It gives each matching entry of the
/// roster one target, in the roster's order, and no other entry any.
pub proof fn law_each_match_is_delegated_once(
    roster: Seq<RosterView>,
    message: Seq<char>,
    text: Seq<char>,
)
    ensures
        !(keyword_choice(roster, message, text) is Boardroom),
        decision_targets(keyword_choice(roster, message, text)) == matching(
            roster,
            text,
        ).map_values(|e: RosterView| help_target(e, message)),
        matching(roster, text).len() <= roster.len(),
        forall|i: int|
            0 <= i < roster.len() && contains_any(text, (#[trigger] roster[i]).domains)
                ==> matching(roster, text).contains(roster[i]),
        forall|i: int|
            0 <= i < matching(roster, text).len() ==> roster.contains(
                #[trigger] matching(roster, text)[i],
            ) && contains_any(text, matching(roster, text)[i].domains),
{
    let hits = |e: RosterView| contains_any(text, e.domains);
    let found = matching(roster, text);
    let targets = found.map_values(|e: RosterView| help_target(e, message));
    assert(decision_targets(by_count(targets)) =~= targets);
    roster.lemma_filter_len(hits);
    assert forall|i: int| 0 <= i < roster.len() && contains_any(
        text,
        (#[trigger] roster[i]).domains,
    ) implies found.contains(roster[i]) by {
        assert(hits(roster[i]));
        roster.lemma_filter_contains(hits, i);
    }
    assert forall|i: int| 0 <= i < found.len() implies roster.contains(#[trigger] found[i])
        && contains_any(text, found[i].domains) by {
        roster.lemma_filter_pred(hits, i);
        assert(hits(found[i]));
        assert(found.contains(found[i]));
        roster.lemma_filter_contains_rev(hits, found[i]);
    }
}

/// Everybody that a signal lists is a target: a list of agents, each named by its
/// ID, gives a boardroom, or a delegation to several, with one target for each
/// entry, in the order of the list, with the entry's agent and its task or else the
/// general one.
pub proof fn law_listed_agents_become_targets(
    document: JsonView,
    entries: Seq<JsonView>,
    i: int,
)
    requires
        document.field("agents"@) == JsonView::Array(entries),
        forall|j: int| 0 <= j < entries.len() ==> (#[trigger] entries[j]).field("agent_id"@) is Text,
        0 <= i < entries.len(),
    ensures
        document.field("decision"@) == JsonView::Text("boardroom"@) ==> {
            &&& stated_decision(document) matches Ok(DecisionView::Boardroom(targets))
            &&& targets.len() == entries.len()
            &&& JsonView::Text(targets[i].agent_id) == entries[i].field("agent_id"@)
            &&& entries[i].field("task"@) matches JsonView::Text(task) ==> targets[i].task == task
            &&& !(entries[i].field("task"@) is Text) ==> targets[i].task
                == "Please help with this."@
        },
        document.field("decision"@) == JsonView::Text("delegate_multi"@) ==> {
            &&& stated_decision(document) matches Ok(DecisionView::DelegateMulti(targets))
            &&& targets.len() == entries.len()
            &&& JsonView::Text(targets[i].agent_id) == entries[i].field("agent_id"@)
            &&& entries[i].field("task"@) matches JsonView::Text(task) ==> targets[i].task == task
            &&& !(entries[i].field("task"@) is Text) ==> targets[i].task
                == "Please help with this."@
        },
{
    lemma_kinds_differ();
    assert forall|j: int| 0 <= j < entries.len() implies names_agent(#[trigger] entries[j]) by {
        assert(entries[j].field("agent_id"@) is Text);
    }
}

proof fn lemma_kinds_differ()
    ensures
        "handle"@.len() == 6,
        "delegate"@.len() == 8,
        "delegate_multi"@.len() == 14,
        "boardroom"@.len() == 9,
{
    reveal_strlit("handle");
    reveal_strlit("delegate");
    reveal_strlit("delegate_multi");
    reveal_strlit("boardroom");
}

/// A signal to handle the message names nobody; one to delegate it names the agent
/// that it states, with the task that it states or else the general one.
pub proof fn law_single_decisions(document: JsonView, agent: Seq<char>)
    ensures
        document.field("decision"@) == JsonView::Text("handle"@) ==> stated_decision(document) == Ok::<
            DecisionView,
            Seq<char>,
        >(DecisionView::Handle),
        document.field("decision"@) == JsonView::Text("delegate"@) && document.field("agent_id"@)
            == JsonView::Text(agent) ==> {
            &&& stated_decision(document) matches Ok(DecisionView::Delegate(target))
            &&& target.agent_id == agent
            &&& document.field("task"@) matches JsonView::Text(task) ==> target.task == task
            &&& !(document.field("task"@) is Text) ==> target.task == "Please help with this."@
        },
{
    lemma_kinds_differ();
}

/// What is missing in a signal is said: the decision, the agent to delegate to, the
/// list of agents or anybody on it, or the agent of an entry; and a decision of
/// another kind is named.
pub proof fn law_unusable_signals_say_why(document: JsonView, kind: Seq<char>, i: int)
    ensures
        !(document.field("decision"@) is Text) ==> stated_decision(document) == Err::<
            DecisionView,
            Seq<char>,
        >("Missing 'decision' field"@),
        document.field("decision"@) == JsonView::Text("delegate"@) && !(document.field(
            "agent_id"@,
        ) is Text) ==> stated_decision(document) == Err::<DecisionView, Seq<char>>(
            "Missing 'agent_id' for delegate"@,
        ),
        document.field("decision"@) == JsonView::Text("delegate_multi"@) && (!(document.field(
            "agents"@,
        ) is Array) || document.field("agents"@) == JsonView::Array(Seq::empty()))
            ==> stated_decision(document) == Err::<DecisionView, Seq<char>>(
            "Missing 'agents' array for delegate_multi"@,
        ),
        document.field("decision"@) == JsonView::Text("boardroom"@) && (!(document.field(
            "agents"@,
        ) is Array) || document.field("agents"@) == JsonView::Array(Seq::empty()))
            ==> stated_decision(document) == Err::<DecisionView, Seq<char>>(
            "Missing 'agents' array for boardroom"@,
        ),
        document.field("decision"@) == JsonView::Text("delegate_multi"@) ==> (document.field(
            "agents"@,
        ) matches JsonView::Array(entries) ==> 0 <= i < entries.len() && !(entries[i].field(
            "agent_id"@,
        ) is Text) ==> stated_decision(document) == Err::<DecisionView, Seq<char>>(
            "Missing agent_id in delegate_multi entry"@,
        )),
        document.field("decision"@) == JsonView::Text("boardroom"@) ==> (document.field(
            "agents"@,
        ) matches JsonView::Array(entries) ==> 0 <= i < entries.len() && !(entries[i].field(
            "agent_id"@,
        ) is Text) ==> stated_decision(document) == Err::<DecisionView, Seq<char>>(
            "Missing agent_id in boardroom entry"@,
        )),
        document.field("decision"@) == JsonView::Text(kind) && kind != "handle"@ && kind
            != "delegate"@ && kind != "delegate_multi"@ && kind != "boardroom"@ ==> stated_decision(
            document,
        ) == Err::<DecisionView, Seq<char>>("Unknown decision type: "@ + kind),
{
    lemma_kinds_differ();
    if let JsonView::Array(entries) = document.field("agents"@) {
        if 0 <= i < entries.len() && !(entries[i].field("agent_id"@) is Text) {
            assert(!names_agent(entries[i]));
        }
    }
}

/// A signal is read as a document, and what the document states counts; where it
/// is none, the reader's message is passed on.
pub proof fn law_signals_are_documents(signal: Seq<char>)
    ensures
        json_of_text(signal) matches Ok(document) ==> signal_decision(signal) == stated_decision(
            document,
        ),
        json_of_text(signal) matches Err(message) ==> signal_decision(signal) == Err::<
            DecisionView,
            Seq<char>,
        >("Invalid JSON in ROUTE: signal: "@ + message),
{
}

proof fn lemma_first_signal(lines: Seq<Seq<char>>, at: int)
    requires
        0 <= at <= lines.len(),
        forall|j: int| 0 <= j < at ==> !"ROUTE:"@.is_prefix_of(trimmed(#[trigger] lines[j])),
    ensures
        at == lines.len() ==> first_signal(lines) is None,
        at < lines.len() && "ROUTE:"@.is_prefix_of(trimmed(lines[at])) ==> first_signal(lines)
            == Some(trimmed(trimmed(lines[at]).skip(6))),
    decreases lines.len(),
{
    if lines.len() > 0 && at > 0 {
        assert(!"ROUTE:"@.is_prefix_of(trimmed(lines[0])));
        let rest = lines.drop_first();
        assert forall|j: int| 0 <= j < at - 1 implies !"ROUTE:"@.is_prefix_of(
            trimmed(#[trigger] rest[j]),
        ) by {
            assert(rest[j] == lines[j + 1]);
        }
        lemma_first_signal(rest, at - 1);
    }
}

/// The signal of an output is what follows `ROUTE:` on the first of its lines that
/// begins so, white space aside; where none does, there is no signal.
pub proof fn law_first_route_line_counts(output: Seq<char>, at: int, rest: Seq<char>)
    requires
        0 <= at <= lines_of(output).len(),
        forall|j: int|
            0 <= j < at ==> !"ROUTE:"@.is_prefix_of(trimmed(#[trigger] lines_of(output)[j])),
    ensures
        at == lines_of(output).len() ==> route_signal(output) is None,
        at < lines_of(output).len() && trimmed(lines_of(output)[at]) == "ROUTE:"@ + rest
            ==> route_signal(output) == Some(trimmed(rest)),
{
    reveal_strlit("ROUTE:");
    assert("ROUTE:"@.len() == 6);
    lemma_first_signal(lines_of(output), at);
    assert("ROUTE:"@.is_prefix_of("ROUTE:"@ + rest));
    assert(("ROUTE:"@ + rest).skip(6) =~= rest);
}

/// By keywords, a roster decides entry by entry: one more entry adds one target to
/// those before it, with its agent and the message as the task, exactly where the
/// message holds one of its domains, letter case aside. Nobody means to handle the
/// message, one to delegate it, and more to delegate it to all of them.
pub proof fn law_each_entry_decides_for_itself(
    roster: Seq<RosterView>,
    entry: RosterView,
    message: Seq<char>,
)
    ensures
        decision_targets(classified(Seq::empty(), message, None)) == Seq::<TargetView>::empty(),
        ({
            let hit = exists|i: int|
                0 <= i < entry.domains.len() && crate::text::contains(
                    lowercase(message),
                    lowercase(#[trigger] entry.domains[i]),
                );
            decision_targets(classified(roster.push(entry), message, None)) == decision_targets(
                classified(roster, message, None),
            ) + if hit {
                seq![
                    TargetView {
                        agent_id: entry.agent_id,
                        task: "Please help with: "@ + message,
                    },
                ]
            } else {
                Seq::empty()
            }
        }),
        match classified(roster, message, None) {
            DecisionView::Handle => true,
            DecisionView::Delegate(_) => true,
            DecisionView::DelegateMulti(targets) => targets.len() >= 2,
            DecisionView::Boardroom(_) => false,
        },
{
    reveal(Seq::filter);
    let lower = lowercase(message);
    let hits = |e: RosterView| contains_any(lower, e.domains);
    let help = |e: RosterView| help_target(e, message);
    let none = lowered(Seq::<RosterView>::empty());
    assert(none =~= Seq::empty());
    assert(none.filter(hits) =~= Seq::empty());
    assert(none.filter(hits).map_values(help) =~= Seq::empty());
    let before = lowered(roster);
    let after = lowered(roster.push(entry));
    assert(after =~= before.push(lowered_entry(entry)));
    assert(after.drop_last() =~= before);
    let found = before.filter(hits).map_values(help);
    let now = after.filter(hits).map_values(help);
    let each = lowercase_each(entry.domains);
    let hit = exists|i: int|
        0 <= i < entry.domains.len() && crate::text::contains(
            lower,
            lowercase(#[trigger] entry.domains[i]),
        );
    if hit {
        let i = choose|i: int|
            0 <= i < entry.domains.len() && crate::text::contains(
                lower,
                lowercase(#[trigger] entry.domains[i]),
            );
        assert(each[i] == lowercase(entry.domains[i]));
        assert(hits(lowered_entry(entry)));
        assert(now =~= found.push(help(lowered_entry(entry))));
    } else {
        if contains_any(lower, each) {
            let i = choose|i: int| 0 <= i < each.len() && crate::text::contains(
                lower,
                #[trigger] each[i],
            );
            assert(each[i] == lowercase(entry.domains[i]));
        }
        assert(!hits(lowered_entry(entry)));
        assert(now =~= found);
    }
    assert(decision_targets(by_count(found)) =~= found);
    assert(decision_targets(by_count(now)) =~= now);
}

/// The models of decisions, targets and rosters show all that these hold.
pub proof fn law_models_of_decisions(
    target: DelegateTarget,
    targets: Vec<DelegateTarget>,
    roster: Seq<RoutingRosterEntry>,
    i: int,
)
    ensures
        target@.agent_id == target.agent_id@,
        target@.task == target.task@,
        RoutingDecision::Handle@ is Handle,
        RoutingDecision::Delegate(target)@ == DecisionView::Delegate(target@),
        RoutingDecision::DelegateMulti(targets)@ == DecisionView::DelegateMulti(
            target_views(targets@),
        ),
        RoutingDecision::Boardroom(targets)@ == DecisionView::Boardroom(target_views(targets@)),
        target_views(targets@).len() == targets@.len(),
        0 <= i < targets@.len() ==> target_views(targets@)[i] == targets@[i]@,
        roster_view(roster).len() == roster.len(),
        0 <= i < roster.len() ==> roster_view(roster)[i] == roster[i]@,
{
}

} // verus!
