//! JSON documents.
//!
//! [`Json`] is the library's own document type, with [`JsonView`] as its
//! mathematical model. Text is read and written by `serde_json`; the items that
//! call it stand at the end of this file.

use crate::text::same_text;
use crate::text_map::{distinct_pairs, pairs_map, TextMap};
use vstd::prelude::*;

verus! {

/// The model of a JSON document. A number is known by the `u64` that it is, if
/// it is one; an object is a map from keys to documents.
pub enum JsonView {
    Null,
    Bool(bool),
    Number(Option<u64>),
    Text(Seq<char>),
    Array(Seq<JsonView>),
    Object(Map<Seq<char>, JsonView>),
}

impl JsonView {
    /// What stands under a key: null where the document is no object or has no
    /// such key.
    pub open spec fn field(self, key: Seq<char>) -> JsonView {
        match self {
            JsonView::Object(entries) => if entries.dom().contains(key) {
                entries[key]
            } else {
                JsonView::Null
            },
            _ => JsonView::Null,
        }
    }

    /// The text that the document is, if it is one.
    pub open spec fn as_text(self) -> Option<Seq<char>> {
        match self {
            JsonView::Text(text) => Some(text),
            _ => None,
        }
    }

    /// The `u64` that the document is, if it is one.
    pub open spec fn as_number(self) -> Option<u64> {
        match self {
            JsonView::Number(number) => number,
            _ => None,
        }
    }

    /// The boolean that the document is, if it is one.
    pub open spec fn as_flag(self) -> Option<bool> {
        match self {
            JsonView::Bool(flag) => Some(flag),
            _ => None,
        }
    }

    /// The elements of the document, if it is an array.
    pub open spec fn as_items(self) -> Option<Seq<JsonView>> {
        match self {
            JsonView::Array(items) => Some(items),
            _ => None,
        }
    }
}

/// A JSON document. In an object with a repeated key the last entry counts.
pub enum Json {
    Null,
    Bool(bool),
    /// A number: the `u64` that it is, or `None` for any other number.
    Number(Option<u64>),
    Text(String),
    Array(Vec<Json>),
    Object(Vec<(String, Json)>),
}

impl Json {
    /// The document's model.
    pub open spec fn view(self) -> JsonView
        decreases self,
    {
        match self {
            Json::Null => JsonView::Null,
            Json::Bool(flag) => JsonView::Bool(flag),
            Json::Number(number) => JsonView::Number(number),
            Json::Text(text) => JsonView::Text(text@),
            Json::Array(items) => JsonView::Array(items_view(items@)),
            Json::Object(entries) => JsonView::Object(entries_view(entries@)),
        }
    }

    /// Every number in the document is a `u64`, so the model determines it.
    pub open spec fn whole(self) -> bool
        decreases self,
    {
        match self {
            Json::Number(number) => number is Some,
            Json::Array(items) => items_whole(items@),
            Json::Object(entries) => entries_whole(entries@),
            _ => true,
        }
    }
}

/// The models of a sequence of documents.
pub open spec fn items_view(items: Seq<Json>) -> Seq<JsonView>
    decreases items,
{
    if items.len() == 0 {
        Seq::empty()
    } else {
        items_view(items.drop_last()).push(items.last().view())
    }
}

/// The map that a sequence of entries stands for.
pub open spec fn entries_view(entries: Seq<(String, Json)>) -> Map<Seq<char>, JsonView>
    decreases entries,
{
    if entries.len() == 0 {
        Map::empty()
    } else {
        entries_view(entries.drop_last()).insert(entries.last().0@, entries.last().1.view())
    }
}

pub open spec fn items_whole(items: Seq<Json>) -> bool
    decreases items,
{
    items.len() > 0 ==> items_whole(items.drop_last()) && items.last().whole()
}

pub open spec fn entries_whole(entries: Seq<(String, Json)>) -> bool
    decreases entries,
{
    entries.len() > 0 ==> entries_whole(entries.drop_last()) && entries.last().1.whole()
}

/// A document's model in which every number is a `u64`.
pub open spec fn writable(view: JsonView) -> bool {
    exists|json: Json| json.whole() && #[trigger] json.view() == view
}

/// The model of an array is taken element by element.
pub proof fn lemma_items_view(items: Seq<Json>)
    ensures
        items_view(items).len() == items.len(),
        forall|i: int| 0 <= i < items.len() ==> items_view(items)[i] == #[trigger] items[i].view(),
        items_whole(items) <==> forall|i: int|
            0 <= i < items.len() ==> (#[trigger] items[i]).whole(),
    decreases items.len(),
{
    if items.len() > 0 {
        let front = items.drop_last();
        lemma_items_view(front);
        assert forall|i: int| 0 <= i < items.len() implies items_view(items)[i]
            == #[trigger] items[i].view() by {
            if i < front.len() {
                assert(front[i] == items[i]);
            }
        }
        if items_whole(items) {
            assert forall|i: int| 0 <= i < items.len() implies (#[trigger] items[i]).whole() by {
                if i < front.len() {
                    assert(front[i] == items[i]);
                }
            }
        }
        if forall|i: int| 0 <= i < items.len() ==> (#[trigger] items[i]).whole() {
            assert forall|i: int| 0 <= i < front.len() implies (#[trigger] front[i]).whole() by {
                assert(front[i] == items[i]);
            }
            assert(items[items.len() - 1].whole());
        }
    }
}

proof fn lemma_entries_whole(entries: Seq<(String, Json)>)
    ensures
        entries_whole(entries) <==> forall|i: int|
            0 <= i < entries.len() ==> (#[trigger] entries[i]).1.whole(),
    decreases entries.len(),
{
    if entries.len() > 0 {
        let front = entries.drop_last();
        lemma_entries_whole(front);
        if entries_whole(entries) {
            assert forall|i: int| 0 <= i < entries.len() implies (
            #[trigger] entries[i]).1.whole() by {
                if i < front.len() {
                    assert(front[i] == entries[i]);
                }
            }
        }
        if forall|i: int| 0 <= i < entries.len() ==> (#[trigger] entries[i]).1.whole() {
            assert forall|i: int| 0 <= i < front.len() implies (
            #[trigger] front[i]).1.whole() by {
                assert(front[i] == entries[i]);
            }
            assert(entries[entries.len() - 1].1.whole());
        }
    }
}

impl Json {
    /// What stands under a key, if the document is an object that has it.
    pub fn field(&self, key: &str) -> (r: Option<&Json>)
        ensures
            match r {
                Some(json) => json@ == self@.field(key@),
                None => self@.field(key@) is Null,
            },
    {
        match self {
            Json::Object(entries) => {
                let mut i: usize = entries.len();
                assert(entries@.take(i as int) =~= entries@);
                while i > 0
                    invariant
                        i <= entries@.len(),
                        entries_view(entries@).dom().contains(key@) <==> entries_view(
                            entries@.take(i as int),
                        ).dom().contains(key@),
                        entries_view(entries@).dom().contains(key@) ==> entries_view(
                            entries@,
                        )[key@] == entries_view(entries@.take(i as int))[key@],
                        self@ == JsonView::Object(entries_view(entries@)),
                    decreases i,
                {
                    let ghost head = entries@.take(i as int);
                    assert(head.drop_last() =~= entries@.take(i - 1));
                    assert(head.last() == entries@[i - 1]);
                    if same_text(entries[i - 1].0.as_str(), key) {
                        return Some(&entries[i - 1].1);
                    }
                    i = i - 1;
                }
                None
            },
            _ => None,
        }
    }

    /// The text that the document is, if it is one.
    pub fn as_str(&self) -> (r: Option<&str>)
        ensures
            match r {
                Some(text) => self@.as_text() == Some(text@),
                None => self@.as_text() is None,
            },
    {
        match self {
            Json::Text(text) => Some(text.as_str()),
            _ => None,
        }
    }

    /// The text under a key, if there is one.
    pub fn field_text(&self, key: &str) -> (r: Option<&str>)
        ensures
            match r {
                Some(text) => self@.field(key@).as_text() == Some(text@),
                None => self@.field(key@).as_text() is None,
            },
    {
        match self.field(key) {
            Some(json) => json.as_str(),
            None => None,
        }
    }

    /// The `u64` under a key, if there is one.
    pub fn field_number(&self, key: &str) -> (r: Option<u64>)
        ensures
            r == self@.field(key@).as_number(),
    {
        match self.field(key) {
            Some(Json::Number(number)) => *number,
            _ => None,
        }
    }

    /// The boolean under a key, if there is one.
    pub fn field_flag(&self, key: &str) -> (r: Option<bool>)
        ensures
            r == self@.field(key@).as_flag(),
    {
        match self.field(key) {
            Some(Json::Bool(flag)) => Some(*flag),
            _ => None,
        }
    }

    /// The boolean that the document is, if it is one.
    pub fn as_bool(&self) -> (r: Option<bool>)
        ensures
            r == self@.as_flag(),
    {
        match self {
            Json::Bool(flag) => Some(*flag),
            _ => None,
        }
    }

    /// The array under a key, if there is one.
    pub fn field_items(&self, key: &str) -> (r: Option<&Vec<Json>>)
        ensures
            match r {
                Some(items) => self@.field(key@).as_items() == Some(items_view(items@)),
                None => self@.field(key@).as_items() is None,
            },
    {
        match self.field(key) {
            Some(Json::Array(items)) => Some(items),
            _ => None,
        }
    }

    /// An object without entries.
    pub fn object() -> (r: Json)
        ensures
            r is Object,
            r@ == JsonView::Object(Map::empty()),
            r.whole(),
    {
        Json::Object(Vec::new())
    }

    /// The object with one more entry.
    pub fn with(self, key: &str, value: Json) -> (r: Json)
        requires
            self is Object,
        ensures
            r is Object,
            r@ == JsonView::Object(self@->Object_0.insert(key@, value@)),
            self.whole() && value.whole() ==> r.whole(),
    {
        match self {
            Json::Object(mut entries) => {
                let ghost before = entries@;
                entries.push((key.to_owned(), value));
                assert(entries@.drop_last() =~= before);
                Json::Object(entries)
            },
            other => other,
        }
    }

    /// Reads a document from its text. The error is the reader's message.
    pub fn parse(text: &str) -> (r: Result<Json, String>)
        ensures
            match (r, json_of_text(text@)) {
                (Ok(json), Ok(view)) => json@ == view,
                (Err(message), Err(expected)) => message@ == expected,
                _ => false,
            },
    {
        match value_from_text(text) {
            Ok(value) => Ok(Json::from_value(value)),
            Err(message) => Err(message),
        }
    }

    /// Writes a document as text.
    pub fn render(&self) -> (text: String)
        requires
            self.whole(),
        ensures
            text@ == json_text(self@),
    {
        let value = self.to_value();
        value_to_text(&value)
    }

    /// The document that a `serde_json` value holds.
    pub fn from_value(value: serde_json::Value) -> (json: Json)
        ensures
            json@ == json_view(value),
        decreases json_view(value),
    {
        let ghost whole_view = json_view(value);
        match open_value(value) {
            Node::Null => Json::Null,
            Node::Bool(flag) => Json::Bool(flag),
            Node::Number(number) => Json::Number(number),
            Node::Text(text) => Json::Text(text),
            Node::Array(values) => {
                let ghost all = values@;
                let mut items: Vec<Json> = Vec::new();
                for v in it: values
                    invariant
                        it.seq() == all,
                        whole_view == JsonView::Array(value_items(all)),
                        items_view(items@) == value_items(all).take(it.index() as int),
                        whole_view == json_view(value),
                {
                    let ghost i = it.index() as int;
                    let ghost done = items@;
                    assert(value_items(all)[i] == json_view(v));
                    assert(decreases_to!(whole_view => whole_view->Array_0));
                    assert(decreases_to!(value_items(all) => value_items(all)[i]));
                    items.push(Json::from_value(v));
                    assert(items@.drop_last() =~= done);
                    assert(items_view(items@) =~= value_items(all).take(i + 1));
                }
                assert(items_view(items@) =~= value_items(all));
                Json::Array(items)
            },
            Node::Object(pairs) => {
                let ghost all = pairs@;
                let mut entries: Vec<(String, Json)> = Vec::new();
                for pair in it: pairs
                    invariant
                        it.seq() == all,
                        distinct_pairs(all),
                        whole_view == JsonView::Object(value_entries(all)),
                        whole_view == json_view(value),
                        entries_view(entries@) == value_entries(all.take(it.index() as int)),
                {
                    let ghost i = it.index() as int;
                    let ghost done = entries@;
                    proof {
                        lemma_value_entries(all);
                        assert(all[i] == pair);
                        assert(all.take(i + 1).drop_last() =~= all.take(i));
                        assert(decreases_to!(whole_view => whole_view->Object_0));
                        assert(decreases_to!(value_entries(all) => value_entries(all)[all[i].0@]));
                    }
                    entries.push((pair.0, Json::from_value(pair.1)));
                    assert(entries@.drop_last() =~= done);
                }
                assert(all.take(all.len() as int) =~= all);
                Json::Object(entries)
            },
        }
    }

    /// The `serde_json` value of a document.
    pub fn to_value(&self) -> (value: serde_json::Value)
        requires
            self.whole(),
        ensures
            json_view(value) == self@,
            writable(json_view(value)),
        decreases self,
    {
        let node = match self {
            Json::Null => Node::Null,
            Json::Bool(flag) => Node::Bool(*flag),
            Json::Number(number) => Node::Number(*number),
            Json::Text(text) => Node::Text(text.clone()),
            Json::Array(items) => {
                proof {
                    lemma_items_view(items@);
                }
                let mut values: Vec<serde_json::Value> = Vec::new();
                for i in 0..items.len()
                    invariant
                        self == Json::Array(*items),
                        forall|j: int|
                            0 <= j < items@.len() ==> (#[trigger] items@[j]).whole(),
                        items_view(items@).len() == items@.len(),
                        forall|j: int|
                            0 <= j < items@.len() ==> items_view(items@)[j]
                                == #[trigger] items@[j].view(),
                        value_items(values@) =~= items_view(items@).take(i as int),
                {
                    assert(items@[i as int].whole());
                    assert(decreases_to!(self => self->Array_0));
                    assert(decreases_to!(items => items@));
                    assert(decreases_to!(items@ => items@[i as int]));
                    let ghost done = values@;
                    values.push(items[i].to_value());
                    assert(value_items(values@) =~= value_items(done).push(
                        items@[i as int].view(),
                    ));
                }
                assert(value_items(values@) =~= items_view(items@));
                Node::Array(values)
            },
            Json::Object(entries) => {
                proof {
                    lemma_entries_whole(entries@);
                }
                let mut map: TextMap<serde_json::Value> = TextMap::new();
                assert(entries@.take(0) =~= Seq::empty());
                assert(value_map(map@) =~= Map::empty());
                for i in 0..entries.len()
                    invariant
                        self == Json::Object(*entries),
                        forall|j: int|
                            0 <= j < entries@.len() ==> (#[trigger] entries@[j]).1.whole(),
                        value_map(map@) == entries_view(entries@.take(i as int)),
                {
                    let ghost done = map@;
                    assert(entries@[i as int].1.whole());
                    assert(decreases_to!(self => self->Object_0));
                    assert(decreases_to!(entries => entries@));
                    assert(decreases_to!(entries@ => entries@[i as int]));
                    assert(decreases_to!(entries@[i as int] => entries@[i as int].1));
                    map.insert(entries[i].0.clone(), entries[i].1.to_value());
                    assert(entries@.take(i + 1).drop_last() =~= entries@.take(i as int));
                    assert(value_map(map@) =~= value_map(done).insert(
                        entries@[i as int].0@,
                        entries@[i as int].1.view(),
                    ));
                }
                assert(entries@.take(entries@.len() as int) =~= entries@);
                let pairs = map.into_pairs();
                proof {
                    lemma_value_map(pairs@);
                }
                Node::Object(pairs)
            },
        };
        close_value(node)
    }
}

/// An entry of an object counts from the moment that it is there, in place of any
/// earlier one with its key; all others stay.
pub proof fn law_last_entry_counts(entries: Seq<(String, Json)>, key: String, value: Json)
    ensures
        entries_view(entries.push((key, value))) == entries_view(entries).insert(
            key@,
            value.view(),
        ),
        entries_view(Seq::<(String, Json)>::empty()) == Map::<Seq<char>, JsonView>::empty(),
{
    assert(entries.push((key, value)).drop_last() =~= entries);
}

/// What stands under a key of an object is found there; under any other key, and in
/// what is no object, there is nothing.
pub proof fn law_fields_are_found(
    entries: Map<Seq<char>, JsonView>,
    key: Seq<char>,
    value: JsonView,
    other: Seq<char>,
    text: Seq<char>,
)
    requires
        other != key,
    ensures
        JsonView::Object(entries.insert(key, value)).field(key) == value,
        JsonView::Object(entries.insert(key, value)).field(other) == JsonView::Object(
            entries,
        ).field(other),
        JsonView::Object(entries.remove(key)).field(key) is Null,
        JsonView::Text(text).field(key) is Null,
        JsonView::Null.field(key) is Null,
        JsonView::Text(text).as_text() == Some(text),
        JsonView::Null.as_text() is None,
{
}

/// `serde_json::Value`, known through [`json_view`] alone.
#[verifier::external_type_specification]
#[verifier::external_body]
pub struct ExValue(serde_json::Value);

/// One level of a `serde_json` value.
pub enum Node {
    Null,
    Bool(bool),
    Number(Option<u64>),
    Text(String),
    Array(Vec<serde_json::Value>),
    Object(Vec<(String, serde_json::Value)>),
}

/// What a `serde_json` value holds.
pub uninterp spec fn json_view(value: serde_json::Value) -> JsonView;

/// What `serde_json` reads from a text: a document, or the message that says
/// why there is none.
pub uninterp spec fn json_of_text(text: Seq<char>) -> Result<JsonView, Seq<char>>;

/// What `serde_json` writes for a document.
pub uninterp spec fn json_text(view: JsonView) -> Seq<char>;

/// The models of a sequence of values.
pub open spec fn value_items(values: Seq<serde_json::Value>) -> Seq<JsonView> {
    values.map_values(|v: serde_json::Value| json_view(v))
}

/// The map that a sequence of keys and values stands for.
pub open spec fn value_entries(pairs: Seq<(String, serde_json::Value)>) -> Map<Seq<char>, JsonView>
    decreases pairs.len(),
{
    if pairs.len() == 0 {
        Map::empty()
    } else {
        value_entries(pairs.drop_last()).insert(pairs.last().0@, json_view(pairs.last().1))
    }
}

/// The models of a map's values.
pub open spec fn value_map(map: Map<Seq<char>, serde_json::Value>) -> Map<Seq<char>, JsonView> {
    map.map_values(|v: serde_json::Value| json_view(v))
}

/// The model of a level.
pub open spec fn node_view(node: Node) -> JsonView {
    match node {
        Node::Null => JsonView::Null,
        Node::Bool(flag) => JsonView::Bool(flag),
        Node::Number(number) => JsonView::Number(number),
        Node::Text(text) => JsonView::Text(text@),
        Node::Array(values) => JsonView::Array(value_items(values@)),
        Node::Object(pairs) => JsonView::Object(value_entries(pairs@)),
    }
}

proof fn lemma_value_map(pairs: Seq<(String, serde_json::Value)>)
    ensures
        value_entries(pairs) == value_map(pairs_map(pairs)),
    decreases pairs.len(),
{
    if pairs.len() > 0 {
        lemma_value_map(pairs.drop_last());
    }
    assert(value_entries(pairs) =~= value_map(pairs_map(pairs)));
}

proof fn lemma_value_entries(pairs: Seq<(String, serde_json::Value)>)
    requires
        distinct_pairs(pairs),
    ensures
        value_entries(pairs).dom().finite(),
        forall|k: Seq<char>| #[trigger]
            value_entries(pairs).dom().contains(k) ==> exists|i: int|
                0 <= i < pairs.len() && (#[trigger] pairs[i]).0@ == k,
        forall|i: int|
            0 <= i < pairs.len() ==> value_entries(pairs).dom().contains((#[trigger] pairs[i]).0@)
                && value_entries(pairs)[pairs[i].0@] == json_view(pairs[i].1),
    decreases pairs.len(),
{
    if pairs.len() > 0 {
        let front = pairs.drop_last();
        lemma_value_entries(front);
        assert forall|i: int| 0 <= i < pairs.len() implies value_entries(pairs).dom().contains(
            (#[trigger] pairs[i]).0@,
        ) && value_entries(pairs)[pairs[i].0@] == json_view(pairs[i].1) by {
            if i < front.len() {
                assert(front[i] == pairs[i]);
                assert(pairs[i].0@ != pairs[pairs.len() - 1].0@);
            }
        }
        assert forall|k: Seq<char>| #[trigger]
            value_entries(pairs).dom().contains(k) implies exists|i: int|
            0 <= i < pairs.len() && (#[trigger] pairs[i]).0@ == k by {
            if k == pairs.last().0@ {
                assert(pairs[pairs.len() - 1].0@ == k);
            } else {
                let i = choose|i: int| 0 <= i < front.len() && (#[trigger] front[i]).0@ == k;
                assert(pairs[i].0@ == k);
            }
        }
    }
}

/// `serde_json::from_str` on `Value`: the value and the error's message are
/// those that [`json_of_text`] names, a function of the text.
#[verifier::external_body]
fn value_from_text(text: &str) -> (r: Result<serde_json::Value, String>)
    ensures
        match (r, json_of_text(text@)) {
            (Ok(value), Ok(view)) => json_view(value) == view,
            (Err(message), Err(expected)) => message@ == expected,
            _ => false,
        },
{
    match serde_json::from_str::<serde_json::Value>(text) {
        Ok(value) => Ok(value),
        Err(error) => Err(error.to_string()),
    }
}

/// `serde_json::to_string` on `Value`: the text is the one that [`json_text`]
/// names. It is asked only of values whose numbers are all `u64`, which the
/// model determines.
#[verifier::external_body]
fn value_to_text(value: &serde_json::Value) -> (text: String)
    requires
        writable(json_view(*value)),
    ensures
        text@ == json_text(json_view(*value)),
{
    serde_json::to_string(value).unwrap()
}

/// The variants of `serde_json::Value`, told apart: a value holds what its
/// variant's fields hold. A number is asked for its `u64` by `as_u64`; the map
/// of an object holds no key twice.
#[verifier::external_body]
fn open_value(value: serde_json::Value) -> (node: Node)
    ensures
        node_view(node) == json_view(value),
        node matches Node::Object(pairs) ==> distinct_pairs(pairs@),
{
    match value {
        serde_json::Value::Null => Node::Null,
        serde_json::Value::Bool(flag) => Node::Bool(flag),
        serde_json::Value::Number(number) => Node::Number(number.as_u64()),
        serde_json::Value::String(text) => Node::Text(text),
        serde_json::Value::Array(values) => Node::Array(values),
        serde_json::Value::Object(pairs) => Node::Object(pairs.into_iter().collect()),
    }
}

/// The variants of `serde_json::Value`, put together: the value holds what the
/// level holds. It is asked only of numbers that are a `u64`, and of objects in
/// which no key stands twice.
#[verifier::external_body]
fn close_value(node: Node) -> (value: serde_json::Value)
    requires
        !(node matches Node::Number(None)),
        node matches Node::Object(pairs) ==> distinct_pairs(pairs@),
    ensures
        json_view(value) == node_view(node),
{
    match node {
        Node::Null => serde_json::Value::Null,
        Node::Bool(flag) => serde_json::Value::Bool(flag),
        Node::Number(number) => serde_json::Value::from(number),
        Node::Text(text) => serde_json::Value::String(text),
        Node::Array(values) => serde_json::Value::Array(values),
        Node::Object(pairs) => serde_json::Value::Object(pairs.into_iter().collect()),
    }
}

} // verus!
