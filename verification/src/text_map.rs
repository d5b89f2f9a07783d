//! Maps and sets keyed by text.

use crate::text::{same_text, texts};
use vstd::prelude::*;

verus! {

/// The map that a sequence of keys and values stands for.
pub open spec fn pairs_map<V>(pairs: Seq<(String, V)>) -> Map<Seq<char>, V>
    decreases pairs.len(),
{
    if pairs.len() == 0 {
        Map::empty()
    } else {
        pairs_map(pairs.drop_last()).insert(pairs.last().0@, pairs.last().1)
    }
}

/// No key stands twice.
pub open spec fn distinct_pairs<V>(pairs: Seq<(String, V)>) -> bool {
    forall|i: int, j: int| 0 <= i < j < pairs.len() ==> pairs[i].0@ != pairs[j].0@
}

proof fn lemma_pairs<V>(pairs: Seq<(String, V)>)
    requires
        distinct_pairs(pairs),
    ensures
        pairs_map(pairs).dom().finite(),
        pairs_map(pairs).dom().len() == pairs.len(),
        forall|k: Seq<char>| #[trigger]
            pairs_map(pairs).dom().contains(k) ==> exists|i: int|
                0 <= i < pairs.len() && (#[trigger] pairs[i]).0@ == k,
        forall|i: int|
            0 <= i < pairs.len() ==> pairs_map(pairs).dom().contains((#[trigger] pairs[i]).0@)
                && pairs_map(pairs)[pairs[i].0@] == pairs[i].1,
    decreases pairs.len(),
{
    if pairs.len() > 0 {
        let front = pairs.drop_last();
        lemma_pairs(front);
        assert forall|i: int| 0 <= i < pairs.len() implies pairs_map(pairs).dom().contains(
            (#[trigger] pairs[i]).0@,
        ) && pairs_map(pairs)[pairs[i].0@] == pairs[i].1 by {
            if i < front.len() {
                assert(front[i] == pairs[i]);
                assert(pairs[i].0@ != pairs[pairs.len() - 1].0@);
            }
        }
        assert forall|k: Seq<char>| #[trigger]
            pairs_map(pairs).dom().contains(k) implies exists|i: int|
            0 <= i < pairs.len() && (#[trigger] pairs[i]).0@ == k by {
            if k == pairs.last().0@ {
                assert(pairs[pairs.len() - 1].0@ == k);
            } else {
                let i = choose|i: int| 0 <= i < front.len() && (#[trigger] front[i]).0@ == k;
                assert(pairs[i].0@ == k);
            }
        }
        assert(!pairs_map(front).dom().contains(pairs.last().0@)) by {
            if pairs_map(front).dom().contains(pairs.last().0@) {
                let i = choose|i: int|
                    0 <= i < front.len() && (#[trigger] front[i]).0@ == pairs.last().0@;
                assert(pairs[i].0@ == pairs[pairs.len() - 1].0@);
            }
        }
    }
}

proof fn lemma_pairs_removed<V>(pairs: Seq<(String, V)>, at: int)
    requires
        distinct_pairs(pairs),
        0 <= at < pairs.len(),
    ensures
        distinct_pairs(pairs.remove(at)),
        pairs_map(pairs.remove(at)) == pairs_map(pairs).remove(pairs[at].0@),
{
    let rest = pairs.remove(at);
    assert forall|i: int, j: int| 0 <= i < j < rest.len() implies rest[i].0@ != rest[j].0@ by {
        let oi = if i < at {
            i
        } else {
            i + 1
        };
        let oj = if j < at {
            j
        } else {
            j + 1
        };
        assert(rest[i] == pairs[oi] && rest[j] == pairs[oj]);
    }
    lemma_pairs(pairs);
    lemma_pairs(rest);
    let key = pairs[at].0@;
    assert forall|k: Seq<char>| #[trigger]
        pairs_map(rest).dom().contains(k) <==> pairs_map(pairs).remove(key).dom().contains(k) by {
        if pairs_map(rest).dom().contains(k) {
            let i = choose|i: int| 0 <= i < rest.len() && (#[trigger] rest[i]).0@ == k;
            let o = if i < at {
                i
            } else {
                i + 1
            };
            assert(pairs[o].0@ == k);
            if o < at {
                assert(pairs[o].0@ != pairs[at].0@);
            } else {
                assert(pairs[at].0@ != pairs[o].0@);
            }
        }
        if pairs_map(pairs).remove(key).dom().contains(k) {
            let o = choose|o: int| 0 <= o < pairs.len() && (#[trigger] pairs[o]).0@ == k;
            let i = if o < at {
                o
            } else {
                o - 1
            };
            assert(rest[i] == pairs[o]);
        }
    }
    assert forall|k: Seq<char>| #[trigger]
        pairs_map(rest).dom().contains(k) implies pairs_map(rest)[k] == pairs_map(pairs).remove(
        key,
    )[k] by {
        let i = choose|i: int| 0 <= i < rest.len() && (#[trigger] rest[i]).0@ == k;
        let o = if i < at {
            i
        } else {
            i + 1
        };
        assert(rest[i] == pairs[o]);
    }
    assert(pairs_map(rest) =~= pairs_map(pairs).remove(key));
}

/// A map from texts to values.
pub struct TextMap<V> {
    pairs: Vec<(String, V)>,
}

impl<V> View for TextMap<V> {
    type V = Map<Seq<char>, V>;

    closed spec fn view(&self) -> Map<Seq<char>, V> {
        pairs_map(self.pairs@)
    }
}

impl<V> TextMap<V> {
    #[verifier::type_invariant]
    spec fn inv(&self) -> bool {
        distinct_pairs(self.pairs@)
    }

    /// An empty map.
    pub fn new() -> (map: Self)
        ensures
            map@ == Map::<Seq<char>, V>::empty(),
    {
        TextMap { pairs: Vec::new() }
    }

    fn position(&self, key: &str) -> (r: Option<usize>)
        ensures
            match r {
                Some(i) => i < self.pairs@.len() && self.pairs@[i as int].0@ == key@,
                None => !self@.dom().contains(key@),
            },
    {
        proof {
            use_type_invariant(self);
            lemma_pairs(self.pairs@);
        }
        for i in 0..self.pairs.len()
            invariant
                forall|j: int| 0 <= j < i ==> self.pairs@[j].0@ != key@,
        {
            if same_text(self.pairs[i].0.as_str(), key) {
                return Some(i);
            }
        }
        None
    }

    /// The value under a key.
    pub fn get(&self, key: &str) -> (r: Option<&V>)
        ensures
            match r {
                Some(value) => self@.dom().contains(key@) && *value == self@[key@],
                None => !self@.dom().contains(key@),
            },
    {
        proof {
            use_type_invariant(self);
            lemma_pairs(self.pairs@);
        }
        match self.position(key) {
            Some(i) => Some(&self.pairs[i].1),
            None => None,
        }
    }

    /// Whether the map has a key.
    pub fn contains_key(&self, key: &str) -> (r: bool)
        ensures
            r == self@.dom().contains(key@),
    {
        self.get(key).is_some()
    }

    /// Puts a value under a key, in place of any that stood there.
    pub fn insert(&mut self, key: String, value: V)
        ensures
            final(self)@ == old(self)@.insert(key@, value),
    {
        let _ = self.remove(key.as_str());
        proof {
            use_type_invariant(&*self);
        }
        let ghost before = self@;
        let mut pairs: Vec<(String, V)> = Vec::new();
        std::mem::swap(&mut pairs, &mut self.pairs);
        let ghost front = pairs@;
        proof {
            lemma_pairs(front);
        }
        pairs.push((key, value));
        assert(pairs@.drop_last() =~= front);
        assert(distinct_pairs(pairs@)) by {
            assert forall|i: int, j: int| 0 <= i < j < pairs@.len() implies pairs@[i].0@
                != pairs@[j].0@ by {
                assert(pairs@[i] == front[i]);
                assert(pairs_map(front).dom().contains(front[i].0@));
            }
        }
        self.pairs = pairs;
        assert(self@ =~= old(self)@.insert(key@, value));
    }

    /// Takes the value under a key out of the map.
    pub fn remove(&mut self, key: &str) -> (r: Option<V>)
        ensures
            final(self)@ == old(self)@.remove(key@),
            match r {
                Some(value) => old(self)@.dom().contains(key@) && value == old(self)@[key@],
                None => !old(self)@.dom().contains(key@),
            },
    {
        proof {
            use_type_invariant(&*self);
            lemma_pairs(self.pairs@);
        }
        match self.position(key) {
            Some(i) => {
                let mut pairs: Vec<(String, V)> = Vec::new();
                std::mem::swap(&mut pairs, &mut self.pairs);
                proof {
                    lemma_pairs_removed(pairs@, i as int);
                }
                let pair = pairs.remove(i);
                self.pairs = pairs;
                Some(pair.1)
            },
            None => {
                assert(self@.remove(key@) =~= self@);
                None
            },
        }
    }

    /// The number of keys.
    pub fn len(&self) -> (r: usize)
        ensures
            r == self@.dom().len(),
            self@.dom().finite(),
    {
        proof {
            use_type_invariant(self);
            lemma_pairs(self.pairs@);
        }
        self.pairs.len()
    }

    /// Whether the map has no keys.
    pub fn is_empty(&self) -> (r: bool)
        ensures
            r == (self@.dom() =~= Set::empty()),
    {
        proof {
            use_type_invariant(self);
            lemma_pairs(self.pairs@);
        }
        let r = self.pairs.len() == 0;
        if !r {
            assert(self@.dom().contains(self.pairs@[0].0@));
        }
        r
    }

    /// The keys and values, each key once.
    pub fn into_pairs(self) -> (pairs: Vec<(String, V)>)
        ensures
            distinct_pairs(pairs@),
            pairs_map(pairs@) == self@,
    {
        proof {
            use_type_invariant(&self);
        }
        self.pairs
    }

    /// The keys, each once.
    pub fn keys(&self) -> (keys: Vec<String>)
        ensures
            texts(keys@).no_duplicates(),
            texts(keys@).to_set() == self@.dom(),
            keys@.len() == self@.dom().len(),
            self@.dom().finite(),
    {
        proof {
            use_type_invariant(self);
            lemma_pairs(self.pairs@);
        }
        let mut keys: Vec<String> = Vec::new();
        for i in 0..self.pairs.len()
            invariant
                keys@.len() == i,
                forall|j: int| 0 <= j < i ==> keys@[j]@ == self.pairs@[j].0@,
        {
            keys.push(self.pairs[i].0.clone());
        }
        assert forall|i: int, j: int|
            0 <= i < texts(keys@).len() && 0 <= j < texts(keys@).len() && i != j implies texts(
            keys@,
        )[i] != texts(keys@)[j] by {
            if i < j {
                assert(self.pairs@[i].0@ != self.pairs@[j].0@);
            } else {
                assert(self.pairs@[j].0@ != self.pairs@[i].0@);
            }
        }
        assert forall|k: Seq<char>|
            texts(keys@).to_set().contains(k) <==> self@.dom().contains(k) by {
            if self@.dom().contains(k) {
                let i = choose|i: int|
                    0 <= i < self.pairs@.len() && (#[trigger] self.pairs@[i]).0@ == k;
                assert(texts(keys@)[i] == k);
            }
            if texts(keys@).contains(k) {
                let i = choose|i: int| 0 <= i < texts(keys@).len() && texts(keys@)[i] == k;
                assert(self.pairs@[i].0@ == k);
            }
        }
        assert(texts(keys@).to_set() =~= self@.dom());
        keys
    }
}

impl TextMap<String> {
    /// A map with the same keys and texts.
    pub fn copied(&self) -> (r: Self)
        ensures
            r@.dom() == self@.dom(),
            forall|k: Seq<char>| #[trigger] self@.dom().contains(k) ==> r@[k]@ == self@[k]@,
    {
        let keys = self.keys();
        let ghost all = texts(keys@);
        let mut map: TextMap<String> = TextMap::new();
        for i in 0..keys.len()
            invariant
                all == texts(keys@),
                all.no_duplicates(),
                all.to_set() == self@.dom(),
                forall|k: Seq<char>| #[trigger]
                    map@.dom().contains(k) <==> all.take(i as int).contains(k),
                forall|k: Seq<char>| #[trigger]
                    map@.dom().contains(k) ==> map@[k]@ == self@[k]@,
        {
            proof {
                lemma_next_key(all, i as int);
                assert(all[i as int] == keys@[i as int]@);
                assert(all.to_set().contains(all[i as int]));
            }
            if let Some(text) = self.get(keys[i].as_str()) {
                map.insert(keys[i].clone(), text.clone());
            }
        }
        assert(all.take(all.len() as int) =~= all);
        assert(map@.dom() =~= self@.dom()) by {
            assert forall|k: Seq<char>|
                map@.dom().contains(k) <==> self@.dom().contains(k) by {
                assert(all.to_set().contains(k) <==> all.contains(k));
            }
        }
        map
    }
}

/// Where no key stands twice, the next key is none of those before it, and the
/// keys up to it are those before it and itself.
pub proof fn lemma_next_key(keys: Seq<Seq<char>>, i: int)
    requires
        keys.no_duplicates(),
        0 <= i < keys.len(),
    ensures
        !keys.take(i).contains(keys[i]),
        forall|k: Seq<char>| #[trigger]
            keys.take(i + 1).contains(k) <==> keys.take(i).contains(k) || k == keys[i],
{
    let before = keys.take(i);
    let upto = keys.take(i + 1);
    if before.contains(keys[i]) {
        let j = choose|j: int| 0 <= j < before.len() && before[j] == keys[i];
        assert(keys[j] == keys[i]);
    }
    assert forall|k: Seq<char>| #[trigger]
        upto.contains(k) <==> before.contains(k) || k == keys[i] by {
        if before.contains(k) {
            let j = choose|j: int| 0 <= j < before.len() && before[j] == k;
            assert(upto[j] == k);
        }
        if k == keys[i] {
            assert(upto[i] == k);
        }
        if upto.contains(k) && k != keys[i] {
            let j = choose|j: int| 0 <= j < upto.len() && upto[j] == k;
            assert(before[j] == k);
        }
    }
}

/// A set of texts.
pub struct TextSet {
    members: TextMap<()>,
}

impl View for TextSet {
    type V = Set<Seq<char>>;

    closed spec fn view(&self) -> Set<Seq<char>> {
        self.members@.dom()
    }
}

impl TextSet {
    /// An empty set.
    pub fn new() -> (set: Self)
        ensures
            set@ == Set::<Seq<char>>::empty(),
    {
        TextSet { members: TextMap::new() }
    }

    /// Puts a text into the set.
    pub fn insert(&mut self, text: String)
        ensures
            final(self)@ == old(self)@.insert(text@),
    {
        self.members.insert(text, ());
        assert(self@ =~= old(self)@.insert(text@));
    }

    /// Takes a text out of the set.
    pub fn remove(&mut self, text: &str)
        ensures
            final(self)@ == old(self)@.remove(text@),
    {
        let _ = self.members.remove(text);
        assert(self@ =~= old(self)@.remove(text@));
    }

    /// Whether the set holds a text.
    pub fn contains(&self, text: &str) -> (r: bool)
        ensures
            r == self@.contains(text@),
    {
        self.members.contains_key(text)
    }

    /// Whether the set holds nothing.
    pub fn is_empty(&self) -> (r: bool)
        ensures
            r == (self@ =~= Set::empty()),
    {
        self.members.is_empty()
    }

    /// The members, each once.
    pub fn to_vec(&self) -> (members: Vec<String>)
        ensures
            texts(members@).no_duplicates(),
            texts(members@).to_set() == self@,
    {
        self.members.keys()
    }
}

} // verus!
