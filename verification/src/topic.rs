//! Topic filter for Tier 1 of the 4-tier processing ladder.
//!
//! Filters messages based on keyword matching and length thresholds.
//! Used to decide whether a message is relevant to an agent's domain.

use crate::text::{
    contains_any, copy_texts, first_contained, lowercase, lowercase_each, lowercase_list, texts,
};
use crate::types::TopicFilterConfig;
use vstd::prelude::*;
use vstd::utf8::encode_utf8;

verus! {

/// Relevance decision produced by the topic filter.
#[derive(Debug, Clone, Copy, PartialEq, Eq, Structural)]
pub enum Relevance {
    /// Message is relevant (contains positive keywords, no negative overrides).
    Yes,
    /// Message is not relevant (contains negative keywords).
    No,
    /// Unable to decide (no keywords match, or the message is too short).
    Unknown,
}

impl Relevance {
    /// The decision's name.
    pub open spec fn name(self) -> Seq<char> {
        match self {
            Relevance::Yes => "Yes"@,
            Relevance::No => "No"@,
            Relevance::Unknown => "Unknown"@,
        }
    }

    /// The decision as text.
    pub fn to_string(&self) -> (r: String)
        ensures
            r@ == self.name(),
    {
        match self {
            Relevance::Yes => "Yes".to_owned(),
            Relevance::No => "No".to_owned(),
            Relevance::Unknown => "Unknown".to_owned(),
        }
    }
}

/// The decision on a message of `length` bytes with the lowercase form `lower`,
/// for keywords in lowercase form.
pub open spec fn judged(
    length: nat,
    min_length: nat,
    lower: Seq<char>,
    negative: Seq<Seq<char>>,
    positive: Seq<Seq<char>>,
) -> Relevance {
    if length < min_length {
        Relevance::Unknown
    } else if contains_any(lower, negative) {
        Relevance::No
    } else if contains_any(lower, positive) {
        Relevance::Yes
    } else {
        Relevance::Unknown
    }
}

/// Decides on a message from its length in bytes and its lowercase form.
/// Messages shorter than `min_length` are not judged, and negative keywords
/// override positive ones.
pub fn judge(
    length: usize,
    min_length: usize,
    lower: &str,
    negative: &[String],
    positive: &[String],
) -> (r: Relevance)
    ensures
        r == judged(
            length as nat,
            min_length as nat,
            lower@,
            texts(negative@),
            texts(positive@),
        ),
{
    if length < min_length {
        return Relevance::Unknown;
    }
    if first_contained(lower, negative).is_some() {
        return Relevance::No;
    }
    if first_contained(lower, positive).is_some() {
        Relevance::Yes
    } else {
        Relevance::Unknown
    }
}

/// Topic filter for a single agent.
pub struct TopicFilter {
    config: TopicFilterConfig,
}

/// The model of a [`TopicFilter`].
pub struct TopicView {
    pub keywords: Seq<Seq<char>>,
    pub negative_keywords: Seq<Seq<char>>,
    pub min_length: nat,
}

impl TopicView {
    /// The filter's decision on a message.
    pub open spec fn relevance(self, message: Seq<char>) -> Relevance {
        judged(
            encode_utf8(message).len(),
            self.min_length,
            lowercase(message),
            lowercase_each(self.negative_keywords),
            lowercase_each(self.keywords),
        )
    }
}

/// The model of a filter's settings.
pub open spec fn topic_view(config: TopicFilterConfig) -> TopicView {
    TopicView {
        keywords: texts(config.keywords@),
        negative_keywords: texts(config.negative_keywords@),
        min_length: config.min_length as nat,
    }
}

impl View for TopicFilter {
    type V = TopicView;

    closed spec fn view(&self) -> TopicView {
        topic_view(self.config)
    }
}

impl TopicFilter {
    /// Create a new filter from configuration.
    pub fn new(config: TopicFilterConfig) -> (filter: Self)
        ensures
            filter@ == topic_view(config),
    {
        TopicFilter { config }
    }

    /// Evaluate a message's relevance to this agent's domain.
    pub fn evaluate(&self, message: &str) -> (r: Relevance)
        ensures
            r == self@.relevance(message@),
    {
        let lower = message.to_lowercase();
        let negative = lowercase_list(self.config.negative_keywords.as_slice());
        let positive = lowercase_list(self.config.keywords.as_slice());
        judge(
            message.as_bytes().len(),
            self.config.min_length,
            lower.as_str(),
            negative.as_slice(),
            positive.as_slice(),
        )
    }

    /// Get the minimum length threshold.
    pub fn min_length(&self) -> (r: usize)
        ensures
            r == self@.min_length,
    {
        self.config.min_length
    }
}

impl Clone for TopicFilter {
    fn clone(&self) -> (r: Self)
        ensures
            r@ == self@,
    {
        TopicFilter {
            config: TopicFilterConfig {
                keywords: copy_texts(&self.config.keywords),
                negative_keywords: copy_texts(&self.config.negative_keywords),
                min_length: self.config.min_length,
            },
        }
    }
}

/// A negative keyword in a message that is long enough makes it irrelevant,
/// whatever positive keywords it holds as well.
pub proof fn law_negative_keywords_override(filter: TopicView, message: Seq<char>, i: int)
    requires
        encode_utf8(message).len() >= filter.min_length,
        0 <= i < filter.negative_keywords.len(),
        crate::text::contains(lowercase(message), lowercase(filter.negative_keywords[i])),
    ensures
        filter.relevance(message) == Relevance::No,
{
    assert(lowercase_each(filter.negative_keywords)[i] == lowercase(filter.negative_keywords[i]));
}

/// A message below the minimum length is never judged.
pub proof fn law_short_messages_are_unknown(filter: TopicView, message: Seq<char>)
    requires
        encode_utf8(message).len() < filter.min_length,
    ensures
        filter.relevance(message) == Relevance::Unknown,
{
}

/// A message is relevant exactly when it is long enough and holds a positive and
/// no negative keyword.
pub proof fn law_relevant_messages(filter: TopicView, message: Seq<char>)
    ensures
        filter.relevance(message) == Relevance::Yes <==> {
            &&& encode_utf8(message).len() >= filter.min_length
            &&& contains_any(lowercase(message), lowercase_each(filter.keywords))
            &&& !contains_any(lowercase(message), lowercase_each(filter.negative_keywords))
        },
{
}

/// A message is relevant exactly where it is long enough, holds some keyword and no
/// negative one, and irrelevant exactly where it is long enough and holds some
/// negative one, letter case aside; on all others there is no decision.
pub proof fn law_relevance_goes_by_keywords(filter: TopicView, message: Seq<char>)
    ensures
        ({
            let long = encode_utf8(message).len() >= filter.min_length;
            let positive = exists|i: int|
                0 <= i < filter.keywords.len() && crate::text::contains(
                    lowercase(message),
                    lowercase(#[trigger] filter.keywords[i]),
                );
            let negative = exists|i: int|
                0 <= i < filter.negative_keywords.len() && crate::text::contains(
                    lowercase(message),
                    lowercase(#[trigger] filter.negative_keywords[i]),
                );
            &&& filter.relevance(message) == Relevance::Yes <==> long && positive && !negative
            &&& filter.relevance(message) == Relevance::No <==> long && negative
            &&& filter.relevance(message) == Relevance::Unknown <==> !long || (!positive
                && !negative)
        }),
{
    let lower = lowercase(message);
    lemma_some_keyword(lower, filter.keywords);
    lemma_some_keyword(lower, filter.negative_keywords);
}

proof fn lemma_some_keyword(lower: Seq<char>, keywords: Seq<Seq<char>>)
    ensures
        contains_any(lower, lowercase_each(keywords)) <==> exists|i: int|
            0 <= i < keywords.len() && crate::text::contains(
                lower,
                lowercase(#[trigger] keywords[i]),
            ),
{
    let each = lowercase_each(keywords);
    if contains_any(lower, each) {
        let i = choose|i: int| 0 <= i < each.len() && crate::text::contains(
            lower,
            #[trigger] each[i],
        );
        assert(each[i] == lowercase(keywords[i]));
    }
    if exists|i: int|
        0 <= i < keywords.len() && crate::text::contains(lower, lowercase(#[trigger] keywords[i])) {
        let i = choose|i: int|
            0 <= i < keywords.len() && crate::text::contains(
                lower,
                lowercase(#[trigger] keywords[i]),
            );
        assert(each[i] == lowercase(keywords[i]));
    }
}

/// Each decision has its name.
pub proof fn law_decisions_have_names()
    ensures
        Relevance::Yes.name() == "Yes"@,
        Relevance::No.name() == "No"@,
        Relevance::Unknown.name() == "Unknown"@,
{
}

/// A filter goes by the keywords and the length of its settings.
pub proof fn law_filters_keep_their_settings(config: TopicFilterConfig)
    ensures
        topic_view(config).keywords == texts(config.keywords@),
        topic_view(config).negative_keywords == texts(config.negative_keywords@),
        topic_view(config).min_length == config.min_length,
{
}

} // verus!
