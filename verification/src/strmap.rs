//! A map from text keys to values that keeps its entries in insertion order:
//! its view is the mathematical map of its entries, no key occurs twice, and
//! the order of the entries is the order in which they are walked.
use vstd::prelude::*;
use crate::text::str_eq;

verus! {

/// The map that a list of `(key, value)` pairs denotes; a later pair wins
/// over an earlier pair with the same key.
pub open spec fn pairs_to_map<V>(s: Seq<(Seq<char>, V)>) -> Map<Seq<char>, V>
    decreases s.len(),
{
    if s.len() == 0 {
        Map::empty()
    } else {
        pairs_to_map(s.drop_last()).insert(s.last().0, s.last().1)
    }
}

/// No two pairs share a key.
pub open spec fn keys_distinct<V>(s: Seq<(Seq<char>, V)>) -> bool {
    forall|i: int, j: int| 0 <= i < j < s.len() ==> #[trigger] s[i].0 != #[trigger] s[j].0
}

/// The keys of a list of pairs, in order.
pub open spec fn keys_of<V>(s: Seq<(Seq<char>, V)>) -> Seq<Seq<char>> {
    s.map_values(|e: (Seq<char>, V)| e.0)
}

/// Where keys are distinct, the map holds exactly the keys of the pairs,
/// each bound to its pair's value, and has as many keys as there are pairs.
pub proof fn lemma_pairs_to_map<V>(s: Seq<(Seq<char>, V)>)
    requires
        keys_distinct(s),
    ensures
        pairs_to_map(s).dom().finite(),
        pairs_to_map(s).dom().len() == s.len(),
        forall|k: Seq<char>|
            pairs_to_map(s).contains_key(k) <==> (exists|i: int| 0 <= i < s.len() && s[i].0 == k),
        forall|i: int| 0 <= i < s.len() ==> #[trigger] pairs_to_map(s)[s[i].0] == s[i].1,
    decreases s.len(),
{
    if s.len() > 0 {
        let t = s.drop_last();
        assert(keys_distinct(t)) by {
            assert forall|i: int, j: int| 0 <= i < j < t.len() implies #[trigger] t[i].0
                != #[trigger] t[j].0 by {
                assert(t[i] == s[i] && t[j] == s[j]);
            }
        }
        lemma_pairs_to_map(t);
        let m = pairs_to_map(t);
        let last = s.last();
        assert(!m.contains_key(last.0)) by {
            if m.contains_key(last.0) {
                let i = choose|i: int| 0 <= i < t.len() && t[i].0 == last.0;
                assert(s[i].0 == s[s.len() - 1].0);
            }
        }
        assert forall|k: Seq<char>|
            pairs_to_map(s).contains_key(k) <==> (exists|i: int|
                0 <= i < s.len() && s[i].0 == k) by {
            if pairs_to_map(s).contains_key(k) && k != last.0 {
                let i = choose|i: int| 0 <= i < t.len() && t[i].0 == k;
                assert(s[i].0 == k);
            }
            if exists|i: int| 0 <= i < s.len() && s[i].0 == k {
                let i = choose|i: int| 0 <= i < s.len() && s[i].0 == k;
                if i < s.len() - 1 {
                    assert(t[i].0 == k);
                }
            }
        }
        assert forall|i: int| 0 <= i < s.len() implies #[trigger] pairs_to_map(s)[s[i].0]
            == s[i].1 by {
            if i < s.len() - 1 {
                assert(t[i] == s[i]);
                assert(m[t[i].0] == t[i].1);
                assert(s[i].0 != last.0);
            }
        }
    }
}

/// A key is in the map of a list of pairs exactly when some pair has it,
/// and then it is bound to the value of the last pair that has it.
pub proof fn lemma_pairs_to_map_last<V>(s: Seq<(Seq<char>, V)>, x: Seq<char>)
    ensures
        pairs_to_map(s).contains_key(x) <==> exists|i: int| 0 <= i < s.len() && #[trigger] s[i].0 == x,
        pairs_to_map(s).contains_key(x) ==> exists|i: int|
            0 <= i < s.len() && #[trigger] s[i].0 == x && pairs_to_map(s)[x] == s[i].1 && forall|j: int|
                i < j < s.len() ==> s[j].0 != x,
    decreases s.len(),
{
    if s.len() > 0 {
        let t = s.drop_last();
        lemma_pairs_to_map_last(t, x);
        let n = s.len() - 1;
        if s[n].0 == x {
            assert(pairs_to_map(s)[x] == s[n].1);
        } else {
            if pairs_to_map(s).contains_key(x) {
                let i = choose|i: int|
                    0 <= i < t.len() && #[trigger] t[i].0 == x && pairs_to_map(t)[x] == t[i].1
                        && forall|j: int| i < j < t.len() ==> t[j].0 != x;
                assert(s[i].0 == x);
                assert forall|j: int| i < j < s.len() implies s[j].0 != x by {
                    if j < n {
                        assert(t[j] == s[j]);
                    }
                }
            }
            if exists|i: int| 0 <= i < s.len() && #[trigger] s[i].0 == x {
                let i = choose|i: int| 0 <= i < s.len() && #[trigger] s[i].0 == x;
                assert(t[i].0 == x);
            }
        }
    }
}

/// Entries of `StrMap`, keyed by text.
#[derive(Debug)]
pub struct StrMap<V> {
    entries: Vec<(String, V)>,
}

impl<V> View for StrMap<V> {
    type V = Map<Seq<char>, V>;

    /// The map these entries denote.
    open spec fn view(&self) -> Map<Seq<char>, V> {
        pairs_to_map(self.pairs())
    }
}

impl<V> StrMap<V> {
    /// The entries, in order, with each key taken by its characters.
    pub closed spec fn pairs(&self) -> Seq<(Seq<char>, V)> {
        Seq::new(self.entries@.len(), |i: int| (self.entries@[i].0@, self.entries@[i].1))
    }

    #[verifier::type_invariant]
    closed spec fn distinct_keys(&self) -> bool {
        keys_distinct(self.pairs())
    }

    /// An empty map.
    pub fn new() -> (m: Self)
        ensures
            m.pairs() == Seq::<(Seq<char>, V)>::empty(),
            m@ == Map::<Seq<char>, V>::empty(),
    {
        let m = StrMap { entries: Vec::new() };
        assert(m.pairs() =~= Seq::<(Seq<char>, V)>::empty());
        m
    }

    /// The number of entries, which is the number of keys.
    pub fn len(&self) -> (n: usize)
        ensures
            n == self.pairs().len(),
            n == self@.len(),
            self@.dom().finite(),
    {
        proof {
            use_type_invariant(self);
            lemma_pairs_to_map(self.pairs());
        }
        self.entries.len()
    }

    /// The position of the entry with the given key, if there is one.
    pub fn position(&self, key: &str) -> (r: Option<usize>)
        ensures
            match r {
                Some(i) => i < self.pairs().len() && self.pairs()[i as int].0 == key@,
                None => forall|i: int| 0 <= i < self.pairs().len() ==> self.pairs()[i].0 != key@,
            },
            r is Some <==> self@.contains_key(key@),
    {
        proof {
            use_type_invariant(self);
            lemma_pairs_to_map(self.pairs());
        }
        let mut i: usize = 0;
        while i < self.entries.len()
            invariant
                i <= self.pairs().len(),
                forall|j: int| 0 <= j < i ==> self.pairs()[j].0 != key@,
            decreases self.pairs().len() - i,
        {
            if str_eq(self.entries[i].0.as_str(), key) {
                proof {
                    use_type_invariant(self);
                    lemma_pairs_to_map(self.pairs());
                    assert(self.pairs()[i as int].0 == key@);
                }
                return Some(i);
            }
            i = i + 1;
        }
        None
    }

    /// The entry at position `i`.
    pub fn entry(&self, i: usize) -> (r: (&String, &V))
        requires
            i < self.pairs().len(),
        ensures
            r.0@ == self.pairs()[i as int].0,
            *r.1 == self.pairs()[i as int].1,
            self@.contains_key(r.0@),
            self@[r.0@] == *r.1,
    {
        proof {
            use_type_invariant(self);
            lemma_pairs_to_map(self.pairs());
        }
        let e = &self.entries[i];
        (&e.0, &e.1)
    }

    /// The value bound to `key`, if any.
    pub fn get(&self, key: &str) -> (r: Option<&V>)
        ensures
            match r {
                Some(v) => self@.contains_key(key@) && *v == self@[key@],
                None => !self@.contains_key(key@),
            },
    {
        match self.position(key) {
            Some(i) => {
                let (_, v) = self.entry(i);
                Some(v)
            },
            None => None,
        }
    }

    /// Whether `key` is bound.
    pub fn contains_key(&self, key: &str) -> (r: bool)
        ensures
            r == self@.contains_key(key@),
    {
        self.position(key).is_some()
    }

    /// Binds `key` to `value`: an entry with that key keeps its position and
    /// takes the new value; otherwise the entry goes at the end.
    pub fn insert(&mut self, key: String, value: V)
        ensures
            final(self)@ == old(self)@.insert(key@, value),
            old(self)@.contains_key(key@) ==> exists|i: int|
                0 <= i < old(self).pairs().len() && old(self).pairs()[i].0 == key@
                    && final(self).pairs() == old(self).pairs().update(i, (key@, value)),
            !old(self)@.contains_key(key@) ==> final(self).pairs() == old(self).pairs().push(
                (key@, value),
            ),
    {
        proof {
            use_type_invariant(&*self);
            lemma_pairs_to_map(self.pairs());
        }
        let ghost old_pairs = self.pairs();
        match self.position(key.as_str()) {
            Some(i) => {
                let ghost kv = key@;
                let mut entries: Vec<(String, V)> = Vec::new();
                std::mem::swap(&mut entries, &mut self.entries);
                entries.set(i, (key, value));
                proof {
                    let np = Seq::new(entries@.len(), |j: int| (entries@[j].0@, entries@[j].1));
                    assert(np =~= old_pairs.update(i as int, (kv, value)));
                    assert(keys_distinct(np)) by {
                        assert forall|a: int, b: int| 0 <= a < b < np.len() implies #[trigger] np[a].0
                            != #[trigger] np[b].0 by {
                            assert(old_pairs[a].0 != old_pairs[b].0);
                        }
                    }
                }
                self.entries = entries;
                assert(self.pairs() =~= old_pairs.update(i as int, (kv, value)));
                proof {
                    lemma_pairs_to_map(self.pairs());
                    assert(self@ =~= pairs_to_map(old_pairs).insert(kv, value)) by {
                        lemma_pairs_to_map(old_pairs);
                        assert forall|k: Seq<char>| #[trigger] self@.contains_key(k)
                            <==> pairs_to_map(old_pairs).insert(kv, value).contains_key(k) by {
                            if pairs_to_map(old_pairs).contains_key(k) {
                                let j = choose|j: int|
                                    0 <= j < old_pairs.len() && old_pairs[j].0 == k;
                                assert(self.pairs()[j].0 == k);
                            }
                            if self@.contains_key(k) {
                                let j = choose|j: int|
                                    0 <= j < self.pairs().len() && self.pairs()[j].0 == k;
                                assert(old_pairs[j].0 == k);
                            }
                        }
                        assert forall|k: Seq<char>| #[trigger] self@.contains_key(k) implies self@[k]
                            == pairs_to_map(old_pairs).insert(kv, value)[k] by {
                            let j = choose|j: int|
                                0 <= j < self.pairs().len() && self.pairs()[j].0 == k;
                            assert(self@[self.pairs()[j].0] == self.pairs()[j].1);
                            if j != i {
                                assert(pairs_to_map(old_pairs)[old_pairs[j].0] == old_pairs[j].1);
                            }
                        }
                    }
                }
            },
            None => {
                let ghost kv = key@;
                let mut entries: Vec<(String, V)> = Vec::new();
                std::mem::swap(&mut entries, &mut self.entries);
                entries.push((key, value));
                proof {
                    let np = Seq::new(entries@.len(), |j: int| (entries@[j].0@, entries@[j].1));
                    assert(np =~= old_pairs.push((kv, value)));
                    assert(keys_distinct(np)) by {
                        assert forall|a: int, b: int| 0 <= a < b < np.len() implies #[trigger] np[a].0
                            != #[trigger] np[b].0 by {
                            if b < old_pairs.len() {
                                assert(old_pairs[a].0 != old_pairs[b].0);
                            } else {
                                assert(old_pairs[a].0 != kv);
                            }
                        }
                    }
                }
                self.entries = entries;
                assert(self.pairs() =~= old_pairs.push((kv, value)));
                assert(self.pairs().drop_last() =~= old_pairs);
            },
        }
    }
}

/// Reading a key gives back what was last bound to it, and binding one key
/// leaves every other key as it was.
pub proof fn law_insert_then_get<V>(m: Map<Seq<char>, V>, key: Seq<char>, value: V, other: Seq<char>)
    requires
        other != key,
    ensures
        m.insert(key, value).contains_key(key),
        m.insert(key, value)[key] == value,
        m.insert(key, value).contains_key(other) == m.contains_key(other),
        m.contains_key(other) ==> m.insert(key, value)[other] == m[other],
{
}

} // verus!
