//! Domain classifier for Tier 3 of the 4-tier processing ladder.
//!
//! Resolves ambiguous reaction scenarios (2+ agents reacted) by picking the most
//! appropriate agent based on message content. A deterministic rule stands in
//! for the language model.

use crate::score::Score;
use crate::text::{
    contains, contains_any, first_contained, first_hit, has_text, lemma_first_hit, lowercase,
    lowercase_each, lowercase_list, optional_text, texts,
};
use crate::text_map::TextMap;
use crate::types::{ReactionConfig, ReactionConfigView};
use vstd::prelude::*;

verus! {

/// Confidence in a candidate that was set for the message, or whose ID occurs in
/// it: 0.85.
pub const NAMED_CONFIDENCE: u32 = 0x3f59_999a;

/// Confidence in a candidate picked for want of a better one: 0.60.
pub const FALLBACK_CONFIDENCE: u32 = 0x3f19_999a;

/// Classification result.
#[derive(Debug, Clone)]
pub struct ClassificationResponse {
    /// Selected agent ID.
    pub winner: String,
    /// Confidence score (0.0-1.0).
    pub confidence: Score,
    /// Reasoning (for debugging).
    pub reasoning: String,
}

/// The model of a [`ClassificationResponse`].
pub struct ResponseView {
    pub winner: Seq<char>,
    pub confidence: Score,
    pub reasoning: Seq<char>,
}

impl View for ClassificationResponse {
    type V = ResponseView;

    open spec fn view(&self) -> ResponseView {
        ResponseView {
            winner: self.winner@,
            confidence: self.confidence,
            reasoning: self.reasoning@,
        }
    }
}

/// The winner that was set for a message.
pub open spec fn set_winner(
    mock_responses: Map<Seq<char>, Seq<char>>,
    message: Seq<char>,
) -> Option<Seq<char>> {
    if mock_responses.dom().contains(message) {
        Some(mock_responses[message])
    } else {
        None
    }
}

/// The winner that was set is one of the candidates.
pub open spec fn applies(set: Option<Seq<char>>, candidates: Seq<Seq<char>>) -> bool {
    match set {
        Some(winner) => candidates.contains(winner),
        None => false,
    }
}

/// The response on candidates, given the winner that was set for the message and
/// the lowercase forms of the message and of the candidates' IDs: the winner that
/// was set, if it is a candidate; otherwise the first candidate whose ID occurs in
/// the message; otherwise the first candidate.
pub open spec fn response(
    set: Option<Seq<char>>,
    candidates: Seq<Seq<char>>,
    lower: Seq<char>,
    lowered: Seq<Seq<char>>,
) -> ResponseView {
    if applies(set, candidates) {
        ResponseView {
            winner: set->0,
            confidence: Score { bits: NAMED_CONFIDENCE },
            reasoning: "Response set for this message."@,
        }
    } else if contains_any(lower, lowered) {
        ResponseView {
            winner: candidates[first_hit(lower, lowered) as int],
            confidence: Score { bits: NAMED_CONFIDENCE },
            reasoning: "Agent ID found in message text."@,
        }
    } else {
        ResponseView {
            winner: candidates[0],
            confidence: Score { bits: FALLBACK_CONFIDENCE },
            reasoning: "Fallback to first candidate."@,
        }
    }
}

/// The agent chosen among candidates, given the response on them. A response
/// counts only where there are several candidates, and only if its confidence
/// exceeds the threshold.
pub open spec fn choice(
    threshold: Score,
    candidates: Seq<Seq<char>>,
    response: ResponseView,
) -> Option<Seq<char>> {
    if candidates.len() == 0 {
        None
    } else if candidates.len() == 1 {
        Some(candidates[0])
    } else if threshold.exceeded_by(response.confidence) {
        Some(response.winner)
    } else {
        None
    }
}

/// The agent chosen for a message, given the winners that were set for messages.
pub open spec fn classified(
    threshold: Score,
    mock_responses: Map<Seq<char>, Seq<char>>,
    message: Seq<char>,
    candidates: Seq<Seq<char>>,
) -> Option<Seq<char>> {
    choice(
        threshold,
        candidates,
        response(
            set_winner(mock_responses, message),
            candidates,
            lowercase(message),
            lowercase_each(candidates),
        ),
    )
}

/// Picks the winner that was set, if it is a candidate; otherwise the first
/// candidate whose ID occurs in the message, or the first one, from lowercase
/// forms.
pub fn respond(set: Option<&str>, candidates: &[String], lower: &str, lowered: &[String]) -> (r:
    ClassificationResponse)
    requires
        candidates@.len() > 0,
        lowered@.len() == candidates@.len(),
    ensures
        r@ == response(
            match set {
                Some(winner) => Some(winner@),
                None => None,
            },
            texts(candidates@),
            lower@,
            texts(lowered@),
        ),
{
    if let Some(winner) = set {
        if has_text(candidates, winner) {
            return ClassificationResponse {
                winner: winner.to_owned(),
                confidence: Score { bits: NAMED_CONFIDENCE },
                reasoning: "Response set for this message.".to_owned(),
            };
        }
    }
    match first_contained(lower, lowered) {
        Some(i) => ClassificationResponse {
            winner: candidates[i].clone(),
            confidence: Score { bits: NAMED_CONFIDENCE },
            reasoning: "Agent ID found in message text.".to_owned(),
        },
        None => ClassificationResponse {
            winner: candidates[0].clone(),
            confidence: Score { bits: FALLBACK_CONFIDENCE },
            reasoning: "Fallback to first candidate.".to_owned(),
        },
    }
}

/// Picks among candidates, given the response on them: its winner, if its
/// confidence exceeds the threshold.
pub fn pick(threshold: Score, candidates: &[String], response: ClassificationResponse) -> (r:
    Option<String>)
    ensures
        optional_text(r) == choice(threshold, texts(candidates@), response@),
{
    if candidates.len() == 0 {
        None
    } else if candidates.len() == 1 {
        Some(candidates[0].clone())
    } else if response.confidence.exceeds(threshold) {
        Some(response.winner)
    } else {
        None
    }
}

/// Domain classifier for ambiguous reaction decisions.
pub struct DomainClassifier {
    config: ReactionConfig,
    mock_responses: TextMap<String>,
}

/// The model of a [`DomainClassifier`].
pub struct ClassifierView {
    pub config: ReactionConfigView,
    pub mock_responses: Map<Seq<char>, Seq<char>>,
}

impl View for DomainClassifier {
    type V = ClassifierView;

    closed spec fn view(&self) -> ClassifierView {
        ClassifierView {
            config: self.config@,
            mock_responses: self.mock_responses@.map_values(|s: String| s@),
        }
    }
}

impl DomainClassifier {
    /// Create a new classifier with the given configuration.
    pub fn new(config: ReactionConfig) -> (classifier: Self)
        ensures
            classifier@ == (ClassifierView {
                config: config@,
                mock_responses: Map::empty(),
            }),
    {
        let classifier = DomainClassifier { config, mock_responses: TextMap::new() };
        assert(classifier@.mock_responses =~= Map::empty());
        classifier
    }

    /// Classify the most appropriate agent for a message among candidates.
    /// Returns `Some(agent_id)` if confidence exceeds threshold, otherwise `None`.
    pub fn classify(&self, message: &str, candidate_agents: &[String]) -> (r: Option<String>)
        ensures
            optional_text(r) == classified(
                self@.config.classifier_threshold,
                self@.mock_responses,
                message@,
                texts(candidate_agents@),
            ),
    {
        if candidate_agents.len() == 0 {
            return None;
        }
        if candidate_agents.len() == 1 {
            // Should not happen: caller should handle single-winner case.
            return Some(candidate_agents[0].clone());
        }
        let response = self.mock_llm_call(message, candidate_agents);
        pick(self.config.classifier_threshold, candidate_agents, response)
    }

    /// The response that stands in for a language model's: the one that was set for
    /// the message, or one by a deterministic rule.
    pub fn mock_llm_call(&self, message: &str, candidates: &[String]) -> (r:
        ClassificationResponse)
        requires
            candidates@.len() > 0,
        ensures
            r@ == response(
                set_winner(self@.mock_responses, message@),
                texts(candidates@),
                lowercase(message@),
                lowercase_each(texts(candidates@)),
            ),
    {
        let lower = message.to_lowercase();
        let lowered = lowercase_list(candidates);
        assert(texts(lowered@).len() == candidates@.len());
        let set = match self.mock_responses.get(message) {
            Some(winner) => Some(winner.as_str()),
            None => None,
        };
        respond(set, candidates, lower.as_str(), lowered.as_slice())
    }

    /// Set a mock response for a specific message (testing only).
    pub fn set_mock_response(&mut self, message: String, winner: String)
        ensures
            final(self)@.config == old(self)@.config,
            final(self)@.mock_responses == old(self)@.mock_responses.insert(message@, winner@),
    {
        self.mock_responses.insert(message, winner);
        assert(self@.mock_responses =~= old(self)@.mock_responses.insert(message@, winner@));
    }
}

/// Whoever is chosen is a candidate.
pub proof fn law_winner_is_a_candidate(
    threshold: Score,
    mock_responses: Map<Seq<char>, Seq<char>>,
    message: Seq<char>,
    candidates: Seq<Seq<char>>,
)
    ensures
        classified(threshold, mock_responses, message, candidates) is Some ==> candidates.contains(
            classified(threshold, mock_responses, message, candidates)->0,
        ),
{
    let lowered = lowercase_each(candidates);
    lemma_first_hit(lowercase(message), lowered);
    if candidates.len() > 0 {
        assert(candidates.contains(candidates[0]));
        if contains_any(lowercase(message), lowered) {
            assert(candidates.contains(candidates[first_hit(lowercase(message), lowered) as int]));
        }
    }
}

/// Without candidates nobody is chosen; a single candidate is chosen whatever
/// the message and the threshold.
pub proof fn law_few_candidates(
    threshold: Score,
    mock_responses: Map<Seq<char>, Seq<char>>,
    message: Seq<char>,
    candidate: Seq<char>,
)
    ensures
        classified(threshold, mock_responses, message, Seq::empty()) is None,
        classified(threshold, mock_responses, message, seq![candidate]) == Some(candidate),
{
}

/// Where no candidate was set for the message, the first of several candidates
/// that the message names is chosen, if the threshold lies below the confidence in
/// named candidates.
pub proof fn law_named_candidate_is_chosen(
    threshold: Score,
    mock_responses: Map<Seq<char>, Seq<char>>,
    message: Seq<char>,
    candidates: Seq<Seq<char>>,
    i: int,
)
    requires
        candidates.len() > 1,
        !applies(set_winner(mock_responses, message), candidates),
        0 <= i < candidates.len(),
        contains(lowercase(message), lowercase(candidates[i])),
        forall|j: int|
            0 <= j < i ==> !contains(lowercase(message), lowercase(#[trigger] candidates[j])),
    ensures
        classified(threshold, mock_responses, message, candidates) == if threshold.exceeded_by(
            Score { bits: NAMED_CONFIDENCE },
        ) {
            Some(candidates[i])
        } else {
            None
        },
{
    let lower = lowercase(message);
    let lowered = lowercase_each(candidates);
    lemma_first_hit(lower, lowered);
    assert(contains(lower, lowered[i]));
    let first = first_hit(lower, lowered) as int;
    if first < i {
        assert(lowered[first] == lowercase(candidates[first]));
    }
    assert(first == i);
}

/// A response that was set for a message is given back for it: where its winner is
/// one of several candidates, it is chosen, if the threshold lies below the
/// confidence in such winners. It concerns no other message.
pub proof fn law_set_responses_are_given(
    threshold: Score,
    mock_responses: Map<Seq<char>, Seq<char>>,
    message: Seq<char>,
    winner: Seq<char>,
    candidates: Seq<Seq<char>>,
    other: Seq<char>,
)
    requires
        candidates.len() > 1,
        candidates.contains(winner),
        other != message,
    ensures
        classified(threshold, mock_responses.insert(message, winner), message, candidates)
            == if threshold.exceeded_by(Score { bits: NAMED_CONFIDENCE }) {
            Some(winner)
        } else {
            None
        },
        classified(threshold, mock_responses.insert(message, winner), other, candidates)
            == classified(threshold, mock_responses, other, candidates),
{
}

/// The confidence in a candidate that was set or is named is 0.85, and that in one
/// picked for want of a better is 0.60.
pub proof fn law_confidences()
    ensures
        NAMED_CONFIDENCE == 0x3f59_999a,
        FALLBACK_CONFIDENCE == 0x3f19_999a,
{
}

/// Where no candidate was set for the message and it names none, the first of
/// several candidates is chosen, if the threshold lies below the confidence in such
/// a choice.
pub proof fn law_first_candidate_is_the_fallback(
    threshold: Score,
    mock_responses: Map<Seq<char>, Seq<char>>,
    message: Seq<char>,
    candidates: Seq<Seq<char>>,
)
    requires
        candidates.len() > 1,
        mock_responses.dom().contains(message) ==> !candidates.contains(mock_responses[message]),
        forall|j: int|
            0 <= j < candidates.len() ==> !contains(
                lowercase(message),
                lowercase(#[trigger] candidates[j]),
            ),
    ensures
        classified(threshold, mock_responses, message, candidates) == if threshold.exceeded_by(
            Score { bits: 0x3f19_999a },
        ) {
            Some(candidates[0])
        } else {
            None
        },
{
    let lowered = lowercase_each(candidates);
    if contains_any(lowercase(message), lowered) {
        let j = choose|j: int|
            0 <= j < lowered.len() && contains(lowercase(message), #[trigger] lowered[j]);
        assert(lowered[j] == lowercase(candidates[j]));
    }
}

/// A winner that was set but is no candidate counts for nothing.
pub proof fn law_strangers_are_passed_over(
    threshold: Score,
    mock_responses: Map<Seq<char>, Seq<char>>,
    message: Seq<char>,
    stranger: Seq<char>,
    candidates: Seq<Seq<char>>,
)
    requires
        !candidates.contains(stranger),
    ensures
        classified(threshold, mock_responses.insert(message, stranger), message, candidates)
            == classified(threshold, mock_responses.remove(message), message, candidates),
{
}

/// A response says whom it chose, how sure it is and why: the winner that was set,
/// if it is a candidate; else the first candidate that the message names; else the
/// first one.
pub proof fn law_responses_say_why(
    set: Option<Seq<char>>,
    candidates: Seq<Seq<char>>,
    lower: Seq<char>,
    lowered: Seq<Seq<char>>,
    i: int,
)
    requires
        candidates.len() > 0,
        lowered.len() == candidates.len(),
        0 <= i <= candidates.len(),
        forall|j: int| 0 <= j < i ==> !contains(lower, #[trigger] lowered[j]),
        i < candidates.len() ==> contains(lower, lowered[i]),
    ensures
        ({
            let given = response(set, candidates, lower, lowered);
            let is_set = set is Some && candidates.contains(set->0);
            &&& is_set ==> {
                &&& given.winner == set->0
                &&& given.confidence == (Score { bits: 0x3f59_999a })
                &&& given.reasoning == "Response set for this message."@
            }
            &&& !is_set && i < candidates.len() ==> {
                &&& given.winner == candidates[i]
                &&& given.confidence == (Score { bits: 0x3f59_999a })
                &&& given.reasoning == "Agent ID found in message text."@
            }
            &&& !is_set && i == candidates.len() ==> {
                &&& given.winner == candidates[0]
                &&& given.confidence == (Score { bits: 0x3f19_999a })
                &&& given.reasoning == "Fallback to first candidate."@
            }
        }),
{
    lemma_first_hit(lower, lowered);
    let first = first_hit(lower, lowered) as int;
    if i < candidates.len() {
        assert(contains_any(lower, lowered)) by {
            assert(contains(lower, lowered[i]));
        }
        if first < i {
            assert(!contains(lower, lowered[first]));
        }
        if i < first {
            assert(!contains(lower, lowered[i]));
        }
    } else if contains_any(lower, lowered) {
        let j = choose|j: int| 0 <= j < lowered.len() && contains(lower, #[trigger] lowered[j]);
        assert(!contains(lower, lowered[j]));
    }
}

/// A response on several candidates counts exactly where its confidence exceeds the
/// threshold, and then its winner is chosen.
pub proof fn law_confident_responses_count(
    threshold: Score,
    candidates: Seq<Seq<char>>,
    response: ResponseView,
)
    requires
        candidates.len() > 1,
    ensures
        choice(threshold, candidates, response) is Some <==> threshold.exceeded_by(
            response.confidence,
        ),
        choice(threshold, candidates, response) matches Some(winner) ==> winner
            == response.winner,
{
}

} // verus!
