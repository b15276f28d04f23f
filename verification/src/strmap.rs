//! A map keyed by text, kept as a list of entries in which no key occurs
//! twice. Its view is a mathematical map from the key's characters to the
//! value.

use vstd::prelude::*;

verus! {

/// No two entries of `pairs` have the same key.
pub open spec fn distinct_keys<V>(pairs: Seq<(String, V)>) -> bool {
    forall|i: int, j: int|
        0 <= i < j < pairs.len() ==> (#[trigger] pairs[i]).0@ != (#[trigger] pairs[j]).0@
}

/// Some entry of `pairs` has the key `key`.
pub open spec fn has_key<V>(pairs: Seq<(String, V)>, key: Seq<char>) -> bool {
    exists|i: int| 0 <= i < pairs.len() && (#[trigger] pairs[i]).0@ == key
}

/// The position of an entry of `pairs` with the key `key`.
pub open spec fn key_position<V>(pairs: Seq<(String, V)>, key: Seq<char>) -> int {
    choose|i: int| 0 <= i < pairs.len() && (#[trigger] pairs[i]).0@ == key
}

/// The map that a list of entries stands for.
pub open spec fn pairs_map<V>(pairs: Seq<(String, V)>) -> Map<Seq<char>, V> {
    Map::new(|k: Seq<char>| has_key(pairs, k), |k: Seq<char>| pairs[key_position(pairs, k)].1)
}

/// With distinct keys, the entry at position `i` is what the map holds under
/// that entry's key.
pub proof fn lemma_pairs_map_entry<V>(pairs: Seq<(String, V)>, i: int)
    requires
        distinct_keys(pairs),
        0 <= i < pairs.len(),
    ensures
        pairs_map(pairs).contains_key(pairs[i].0@),
        pairs_map(pairs)[pairs[i].0@] == pairs[i].1,
        key_position(pairs, pairs[i].0@) == i,
{
    let k = pairs[i].0@;
    assert(has_key(pairs, k));
    let p = key_position(pairs, k);
    assert(0 <= p < pairs.len() && pairs[p].0@ == k);
    if p < i {
        assert(pairs[p].0@ != pairs[i].0@);
    } else if i < p {
        assert(pairs[i].0@ != pairs[p].0@);
    }
}

/// Adding an entry under a key that is not there yet inserts it into the map.
pub proof fn lemma_pairs_map_push<V>(pairs: Seq<(String, V)>, key: String, value: V)
    requires
        distinct_keys(pairs),
        !has_key(pairs, key@),
    ensures
        distinct_keys(pairs.push((key, value))),
        pairs_map(pairs.push((key, value))) == pairs_map(pairs).insert(key@, value),
{
    let next = pairs.push((key, value));
    assert forall|i: int, j: int| 0 <= i < j < next.len() implies (#[trigger] next[i]).0@ != (
    #[trigger] next[j]).0@ by {
        if j == pairs.len() {
            assert(next[i] == pairs[i]);
        } else {
            assert(next[i] == pairs[i] && next[j] == pairs[j]);
        }
    }
    assert forall|k: Seq<char>| #[trigger]
        pairs_map(next).contains_key(k) == pairs_map(pairs).insert(key@, value).contains_key(
            k,
        ) by {
        if has_key(pairs, k) {
            let p = key_position(pairs, k);
            assert(next[p] == pairs[p]);
        }
        if has_key(next, k) && k != key@ {
            let p = key_position(next, k);
            assert(p < pairs.len());
            assert(next[p] == pairs[p]);
        }
        if k == key@ {
            assert(next[pairs.len() as int].0@ == k);
        }
    }
    assert forall|k: Seq<char>| #[trigger] pairs_map(next).contains_key(k) implies pairs_map(
        next,
    )[k] == pairs_map(pairs).insert(key@, value)[k] by {
        let p = key_position(next, k);
        lemma_pairs_map_entry(next, p);
        if k != key@ {
            assert(next[p] == pairs[p]);
            lemma_pairs_map_entry(pairs, p);
        }
    }
    assert(pairs_map(next) =~= pairs_map(pairs).insert(key@, value));
}

/// Replacing the value of the entry at position `i`, under the same key,
/// updates the map under that key.
pub proof fn lemma_pairs_map_update<V>(pairs: Seq<(String, V)>, i: int, key: String, value: V)
    requires
        distinct_keys(pairs),
        0 <= i < pairs.len(),
        pairs[i].0@ == key@,
    ensures
        distinct_keys(pairs.update(i, (key, value))),
        pairs_map(pairs.update(i, (key, value))) == pairs_map(pairs).insert(key@, value),
{
    let next = pairs.update(i, (key, value));
    assert forall|a: int, b: int| 0 <= a < b < next.len() implies (#[trigger] next[a]).0@ != (
    #[trigger] next[b]).0@ by {
        assert(next[a].0@ == pairs[a].0@ && next[b].0@ == pairs[b].0@);
    }
    assert forall|k: Seq<char>| #[trigger]
        pairs_map(next).contains_key(k) == pairs_map(pairs).insert(key@, value).contains_key(
            k,
        ) by {
        if has_key(pairs, k) {
            let p = key_position(pairs, k);
            assert(next[p].0@ == pairs[p].0@);
        }
        if has_key(next, k) {
            let p = key_position(next, k);
            assert(next[p].0@ == pairs[p].0@);
        }
        if k == key@ {
            assert(next[i].0@ == k);
        }
    }
    assert forall|k: Seq<char>| #[trigger] pairs_map(next).contains_key(k) implies pairs_map(
        next,
    )[k] == pairs_map(pairs).insert(key@, value)[k] by {
        let p = key_position(next, k);
        lemma_pairs_map_entry(next, p);
        if k != key@ {
            assert(next[p] == pairs[p]);
            lemma_pairs_map_entry(pairs, p);
        } else {
            lemma_pairs_map_entry(next, i);
        }
    }
    assert(pairs_map(next) =~= pairs_map(pairs).insert(key@, value));
}

/// A map from text keys to values of type `V`.
pub struct StrMap<V> {
    entries: Vec<(String, V)>,
}

impl<V> View for StrMap<V> {
    type V = Map<Seq<char>, V>;

    open spec fn view(&self) -> Map<Seq<char>, V> {
        pairs_map(self.pairs())
    }
}

impl<V> StrMap<V> {
    #[verifier::type_invariant]
    spec fn well_formed(self) -> bool {
        distinct_keys(self.entries@)
    }

    /// The entries of the map, in the order in which their keys came.
    pub closed spec fn pairs(&self) -> Seq<(String, V)> {
        self.entries@
    }

    /// The empty map.
    pub fn new() -> (m: StrMap<V>)
        ensures
            m@ == Map::<Seq<char>, V>::empty(),
            m.pairs() == Seq::<(String, V)>::empty(),
    {
        let m = StrMap { entries: Vec::new() };
        assert(m@ =~= Map::<Seq<char>, V>::empty());
        m
    }

    /// The number of entries.
    pub fn len(&self) -> (n: usize)
        ensures
            n == self.pairs().len(),
    {
        self.entries.len()
    }

    /// The key of the entry at position `i`.
    pub fn key_at(&self, i: usize) -> (k: &String)
        requires
            i < self.pairs().len(),
        ensures
            k@ == self.pairs()[i as int].0@,
            self@.contains_key(k@),
    {
        proof {
            use_type_invariant(self);
            lemma_pairs_map_entry(self.entries@, i as int);
        }
        &self.entries[i].0
    }

    /// The value of the entry at position `i`.
    pub fn value_at(&self, i: usize) -> (v: &V)
        requires
            i < self.pairs().len(),
        ensures
            *v == self.pairs()[i as int].1,
            self@.contains_key(self.pairs()[i as int].0@),
            *v == self@[self.pairs()[i as int].0@],
    {
        proof {
            use_type_invariant(self);
            lemma_pairs_map_entry(self.entries@, i as int);
        }
        &self.entries[i].1
    }

    /// The position of the entry under `key`, if the map holds the key.
    fn position(&self, key: &String) -> (r: Option<usize>)
        ensures
            match r {
                Some(i) => i < self.entries.len() && self.entries[i as int].0@ == key@,
                None => !has_key(self.entries@, key@),
            },
    {
        let mut i: usize = 0;
        while i < self.entries.len()
            invariant
                i <= self.entries.len(),
                forall|j: int| 0 <= j < i ==> (#[trigger] self.entries[j]).0@ != key@,
            decreases self.entries.len() - i,
        {
            if self.entries[i].0 == *key {
                return Some(i);
            }
            i += 1;
        }
        None
    }

    /// Whether the map holds `key`.
    pub fn contains_key(&self, key: &str) -> (b: bool)
        ensures
            b == self@.contains_key(key@),
    {
        let k = key.to_string();
        self.position(&k).is_some()
    }

    /// The value under `key`, if the map holds the key.
    pub fn get(&self, key: &str) -> (r: Option<&V>)
        ensures
            match r {
                Some(v) => self@.contains_key(key@) && *v == self@[key@],
                None => !self@.contains_key(key@),
            },
    {
        let k = key.to_string();
        match self.position(&k) {
            Some(i) => {
                proof {
                    use_type_invariant(self);
                    lemma_pairs_map_entry(self.entries@, i as int);
                }
                Some(&self.entries[i].1)
            },
            None => None,
        }
    }

    /// Puts `value` under `key`, in place of what the key held before.
    pub fn insert(&mut self, key: String, value: V)
        ensures
            final(self)@ == old(self)@.insert(key@, value),
    {
        proof {
            use_type_invariant(&*self);
        }
        let found = self.position(&key);
        let mut taken: StrMap<V> = StrMap::new();
        core::mem::swap(self, &mut taken);
        let mut entries = taken.entries;
        match found {
            Some(i) => {
                proof {
                    lemma_pairs_map_update(entries@, i as int, key, value);
                }
                entries[i] = (key, value);
            },
            None => {
                proof {
                    lemma_pairs_map_push(entries@, key, value);
                }
                entries.push((key, value));
            },
        }
        *self = StrMap { entries };
    }
}

} // verus!
