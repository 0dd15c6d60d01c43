//! A map from strings to strings, as headers, path parameters and query
//! parameters need it: keys are case-sensitive and each key occurs once.

use vstd::prelude::*;
use crate::text::same_text;

verus! {

/// The map that a list of pairs stands for. Where a key occurs twice the
/// later pair counts.
pub open spec fn map_of(pairs: Seq<(String, String)>) -> Map<Seq<char>, Seq<char>>
    decreases pairs.len(),
{
    if pairs.len() == 0 {
        Map::empty()
    } else {
        map_of(pairs.drop_last()).insert(pairs.last().0@, pairs.last().1@)
    }
}

/// No two pairs of the list have the same key.
pub open spec fn distinct_keys(pairs: Seq<(String, String)>) -> bool {
    forall|i: int, j: int|
        0 <= i < j < pairs.len() ==> (#[trigger] pairs[i]).0@ != (#[trigger] pairs[j]).0@
}

/// A key is in `map_of(pairs)` exactly when some pair has it.
pub proof fn lemma_map_of_keys(pairs: Seq<(String, String)>, key: Seq<char>)
    ensures
        map_of(pairs).contains_key(key) <==> exists|i: int|
            0 <= i < pairs.len() && (#[trigger] pairs[i]).0@ == key,
    decreases pairs.len(),
{
    if pairs.len() > 0 {
        let front = pairs.drop_last();
        lemma_map_of_keys(front, key);
        if exists|i: int| 0 <= i < pairs.len() && (#[trigger] pairs[i]).0@ == key {
            let i = choose|i: int| 0 <= i < pairs.len() && (#[trigger] pairs[i]).0@ == key;
            if i < pairs.len() - 1 {
                assert(front[i].0@ == key);
            }
        }
    }
}

/// What is left of a list of pairs with distinct keys when its last pair is
/// taken away has distinct keys, and none of them is the key of that pair.
proof fn lemma_distinct_front(pairs: Seq<(String, String)>)
    requires
        distinct_keys(pairs),
        pairs.len() > 0,
    ensures
        distinct_keys(pairs.drop_last()),
        !map_of(pairs.drop_last()).contains_key(pairs.last().0@),
{
    let front = pairs.drop_last();
    assert forall|a: int, b: int| 0 <= a < b < front.len() implies (#[trigger] front[a]).0@ != (
    #[trigger] front[b]).0@ by {
        assert(pairs[a].0@ != pairs[b].0@);
    }
    lemma_map_of_keys(front, pairs.last().0@);
}

/// With distinct keys, each pair's key is mapped to that pair's value.
pub proof fn lemma_map_of_value(pairs: Seq<(String, String)>, i: int)
    requires
        distinct_keys(pairs),
        0 <= i < pairs.len(),
    ensures
        map_of(pairs).contains_key(pairs[i].0@),
        map_of(pairs)[pairs[i].0@] == pairs[i].1@,
    decreases pairs.len(),
{
    if i < pairs.len() - 1 {
        lemma_distinct_front(pairs);
        lemma_map_of_value(pairs.drop_last(), i);
    }
}

/// With distinct keys, there are as many keys as pairs.
pub proof fn lemma_map_of_len(pairs: Seq<(String, String)>)
    requires
        distinct_keys(pairs),
    ensures
        map_of(pairs).dom().finite(),
        map_of(pairs).len() == pairs.len(),
    decreases pairs.len(),
{
    if pairs.len() > 0 {
        lemma_distinct_front(pairs);
        lemma_map_of_len(pairs.drop_last());
    }
}

/// With distinct keys, giving the pair at `i` a new value gives its key that
/// value in the map.
pub proof fn lemma_map_of_update(pairs: Seq<(String, String)>, i: int, pair: (String, String))
    requires
        distinct_keys(pairs),
        0 <= i < pairs.len(),
        pair.0@ == pairs[i].0@,
    ensures
        distinct_keys(pairs.update(i, pair)),
        map_of(pairs.update(i, pair)) == map_of(pairs).insert(pair.0@, pair.1@),
    decreases pairs.len(),
{
    let changed = pairs.update(i, pair);
    assert forall|a: int, b: int| 0 <= a < b < changed.len() implies (#[trigger] changed[a]).0@
        != (#[trigger] changed[b]).0@ by {
        assert(pairs[a].0@ != pairs[b].0@);
    }
    if i == pairs.len() - 1 {
        assert(changed.drop_last() == pairs.drop_last());
    } else {
        lemma_distinct_front(pairs);
        lemma_map_of_update(pairs.drop_last(), i, pair);
        assert(changed.drop_last() == pairs.drop_last().update(i, pair));
    }
}

/// A finite map from strings to strings.
#[derive(Debug)]
pub struct StringMap {
    entries: Vec<(String, String)>,
}

impl View for StringMap {
    type V = Map<Seq<char>, Seq<char>>;

    closed spec fn view(&self) -> Map<Seq<char>, Seq<char>> {
        map_of(self.entries@)
    }
}

impl Clone for StringMap {
    fn clone(&self) -> (copy: Self)
        ensures
            copy@ == self@,
    {
        proof {
            use_type_invariant(self);
        }
        let mut entries: Vec<(String, String)> = Vec::new();
        let mut i: usize = 0;
        while i < self.entries.len()
            invariant
                i <= self.entries@.len(),
                entries@ == self.entries@.take(i as int),
            decreases self.entries@.len() - i,
        {
            let key = self.entries[i].0.clone();
            let value = self.entries[i].1.clone();
            entries.push((key, value));
            i += 1;
        }
        assert(entries@ =~= self.entries@);
        StringMap { entries }
    }
}

impl StringMap {
    #[verifier::type_invariant]
    spec fn keys_once(&self) -> bool {
        distinct_keys(self.entries@)
    }

    /// The empty map.
    pub fn new() -> (map: Self)
        ensures
            map@ == Map::<Seq<char>, Seq<char>>::empty(),
    {
        StringMap { entries: Vec::new() }
    }

    /// The pairs of the map, each key once, in no order that callers may
    /// rely on.
    pub fn entries(&self) -> (pairs: &Vec<(String, String)>)
        ensures
            distinct_keys(pairs@),
            map_of(pairs@) == self@,
    {
        proof {
            use_type_invariant(self);
        }
        &self.entries
    }

    /// The number of keys.
    pub fn len(&self) -> (count: usize)
        ensures
            self@.dom().finite(),
            count == self@.len(),
    {
        proof {
            use_type_invariant(self);
            lemma_map_of_len(self.entries@);
        }
        self.entries.len()
    }

    /// Whether the map has no key.
    pub fn is_empty(&self) -> (empty: bool)
        ensures
            empty == (self@ == Map::<Seq<char>, Seq<char>>::empty()),
    {
        proof {
            use_type_invariant(self);
            if self.entries@.len() > 0 {
                lemma_map_of_value(self.entries@, 0);
            }
        }
        self.entries.len() == 0
    }

    /// Where the pair with the given key stands, if there is one.
    fn position(&self, key: &str) -> (found: Option<usize>)
        ensures
            match found {
                Some(i) => i < self.entries@.len() && self.entries@[i as int].0@ == key@,
                None => !self@.contains_key(key@),
            },
    {
        let mut i: usize = 0;
        while i < self.entries.len()
            invariant
                i <= self.entries@.len(),
                forall|j: int| 0 <= j < i ==> (#[trigger] self.entries@[j]).0@ != key@,
            decreases self.entries@.len() - i,
        {
            if same_text(self.entries[i].0.as_str(), key) {
                return Some(i);
            }
            i += 1;
        }
        proof {
            lemma_map_of_keys(self.entries@, key@);
        }
        None
    }

    /// Whether the key is present.
    pub fn contains_key(&self, key: &str) -> (present: bool)
        ensures
            present == self@.contains_key(key@),
    {
        proof {
            use_type_invariant(self);
        }
        match self.position(key) {
            Some(i) => {
                proof {
                    lemma_map_of_value(self.entries@, i as int);
                }
                true
            },
            None => false,
        }
    }

    /// The value under the key, if the key is present.
    pub fn get(&self, key: &str) -> (value: Option<&String>)
        ensures
            match value {
                Some(text) => self@.contains_key(key@) && text@ == self@[key@],
                None => !self@.contains_key(key@),
            },
    {
        proof {
            use_type_invariant(self);
        }
        match self.position(key) {
            Some(i) => {
                proof {
                    lemma_map_of_value(self.entries@, i as int);
                }
                Some(&self.entries[i].1)
            },
            None => None,
        }
    }

    /// Puts `value` under `key` and returns the value that stood there before,
    /// if there was one.
    pub fn insert(&mut self, key: String, value: String) -> (previous: Option<String>)
        ensures
            final(self)@ == old(self)@.insert(key@, value@),
            match previous {
                Some(text) => old(self)@.contains_key(key@) && text@ == old(self)@[key@],
                None => !old(self)@.contains_key(key@),
            },
    {
        proof {
            use_type_invariant(&*self);
        }
        let found = self.position(key.as_str());
        let mut entries: Vec<(String, String)> = Vec::new();
        core::mem::swap(&mut self.entries, &mut entries);
        let previous = match found {
            Some(i) => {
                proof {
                    lemma_map_of_value(entries@, i as int);
                    lemma_map_of_update(entries@, i as int, (key, value));
                }
                let previous = entries[i].1.clone();
                entries.set(i, (key, value));
                Some(previous)
            },
            None => {
                proof {
                    let pairs = entries@;
                    let longer = pairs.push((key, value));
                    assert(longer.drop_last() == pairs);
                    lemma_map_of_keys(pairs, key@);
                    assert(distinct_keys(longer));
                }
                entries.push((key, value));
                None
            },
        };
        self.entries = entries;
        previous
    }
}

} // verus!
