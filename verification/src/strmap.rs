//! A map keyed by text, kept as a list of entries whose keys are distinct.
use vstd::prelude::*;

use crate::text::str_eq;

verus! {

/// The map that a list of entries stands for: a later entry of a key wins.
pub open spec fn pairs_to_map<V>(s: Seq<(String, V)>) -> Map<Seq<char>, V>
    decreases s.len(),
{
    if s.len() == 0 {
        Map::empty()
    } else {
        pairs_to_map(s.drop_last()).insert(s.last().0@, s.last().1)
    }
}

/// No key occurs twice among the entries.
pub open spec fn keys_distinct<V>(s: Seq<(String, V)>) -> bool {
    forall|i: int, j: int| 0 <= i < s.len() && 0 <= j < s.len() && i != j ==> #[trigger] s[i].0@ != #[trigger] s[j].0@
}

/// With distinct keys, the map holds exactly the entries' keys, each with its entry's value.
pub proof fn lemma_pairs_to_map<V>(s: Seq<(String, V)>)
    requires
        keys_distinct(s),
    ensures
        forall|i: int| 0 <= i < s.len() ==> #[trigger] pairs_to_map(s).contains_key(s[i].0@) && pairs_to_map(s)[s[i].0@] == s[i].1,
        forall|k: Seq<char>| #[trigger] pairs_to_map(s).contains_key(k) ==> exists|i: int| 0 <= i < s.len() && s[i].0@ == k,
    decreases s.len(),
{
    if s.len() > 0 {
        let t = s.drop_last();
        assert(keys_distinct(t)) by {
            assert forall|i: int, j: int| 0 <= i < t.len() && 0 <= j < t.len() && i != j implies #[trigger] t[i].0@ != #[trigger] t[j].0@ by {
                assert(t[i] == s[i] && t[j] == s[j]);
            }
        }
        lemma_pairs_to_map(t);
        assert forall|i: int| 0 <= i < s.len() implies #[trigger] pairs_to_map(s).contains_key(s[i].0@) && pairs_to_map(s)[s[i].0@] == s[i].1 by {
            assert(pairs_to_map(s) == pairs_to_map(t).insert(s.last().0@, s.last().1));
            if i < s.len() - 1 {
                assert(t[i] == s[i]);
                assert(s[i].0@ != s[s.len() - 1].0@);
                assert(pairs_to_map(t).contains_key(t[i].0@));
            }
        }
        assert forall|k: Seq<char>| #[trigger] pairs_to_map(s).contains_key(k) implies exists|i: int| 0 <= i < s.len() && s[i].0@ == k by {
            if k != s.last().0@ {
                assert(pairs_to_map(t).contains_key(k));
                let i = choose|i: int| 0 <= i < t.len() && t[i].0@ == k;
                assert(s[i] == t[i]);
            } else {
                assert(s[s.len() - 1].0@ == k);
            }
        }
    }
}

/// A map from text keys to values.
pub struct StrMap<V> {
    entries: Vec<(String, V)>,
}

impl<V> StrMap<V> {
    /// The entries, in the order in which their keys were first inserted.
    pub closed spec fn spec_entries(&self) -> Seq<(String, V)> {
        self.entries@
    }

    /// The map's contents.
    pub open spec fn view(&self) -> Map<Seq<char>, V> {
        pairs_to_map(self.spec_entries())
    }

    /// Well-formedness: no key is held twice.
    pub open spec fn wf(&self) -> bool {
        keys_distinct(self.spec_entries())
    }

    /// An empty map.
    pub fn new() -> (m: Self)
        ensures
            m.wf(),
            m.view() == Map::<Seq<char>, V>::empty(),
            m.spec_entries().len() == 0,
    {
        StrMap { entries: Vec::new() }
    }

    /// The number of keys.
    pub fn len(&self) -> (n: usize)
        requires
            self.wf(),
        ensures
            n == self.view().len(),
            n == self.spec_entries().len(),
    {
        proof {
            self.lemma_dom_len();
        }
        self.entries.len()
    }

    proof fn lemma_dom_len(&self)
        requires
            self.wf(),
        ensures
            self.view().len() == self.spec_entries().len(),
            self.view().dom().finite(),
    {
        let s = self.spec_entries();
        lemma_pairs_to_map(s);
        let keys = s.map_values(|p: (String, V)| p.0@);
        assert(self.view().dom() =~= keys.to_set()) by {
            assert forall|k| self.view().dom().contains(k) implies keys.to_set().contains(k) by {
                let i = choose|i: int| 0 <= i < s.len() && s[i].0@ == k;
                assert(keys[i] == k);
            }
            assert forall|k| keys.to_set().contains(k) implies self.view().dom().contains(k) by {
                let i = choose|i: int| 0 <= i < keys.len() && keys[i] == k;
                assert(s[i].0@ == k);
            }
        }
        assert(keys.no_duplicates()) by {
            assert forall|i: int, j: int| 0 <= i < keys.len() && 0 <= j < keys.len() && i != j implies keys[i] != keys[j] by {
                assert(s[i].0@ != s[j].0@);
            }
        }
        keys.unique_seq_to_set();
    }

    /// The position of the entry whose key is `k`, if there is one.
    fn find(&self, k: &str) -> (r: Option<usize>)
        requires
            self.wf(),
        ensures
            match r {
                Some(i) => i < self.spec_entries().len() && self.spec_entries()[i as int].0@ == k@,
                None => forall|i: int| 0 <= i < self.spec_entries().len() ==> #[trigger] self.spec_entries()[i].0@ != k@,
            },
    {
        let mut i: usize = 0;
        while i < self.entries.len()
            invariant
                i <= self.entries@.len(),
                forall|j: int| 0 <= j < i ==> #[trigger] self.entries@[j].0@ != k@,
            decreases self.entries@.len() - i,
        {
            if str_eq(self.entries[i].0.as_str(), k) {
                return Some(i);
            }
            i = i + 1;
        }
        None
    }

    /// Whether `k` is a key, as `HashMap::contains_key` answers.
    pub fn contains_key(&self, k: &str) -> (b: bool)
        requires
            self.wf(),
        ensures
            b == self.view().contains_key(k@),
    {
        proof {
            lemma_pairs_to_map(self.spec_entries());
        }
        match self.find(k) {
            Some(_) => true,
            None => {
                proof {
                    if self.view().contains_key(k@) {
                        let i = choose|i: int| 0 <= i < self.spec_entries().len() && self.spec_entries()[i].0@ == k@;
                        assert(self.spec_entries()[i].0@ != k@);
                    }
                }
                false
            },
        }
    }

    /// The value held for `k`, as `HashMap::get` answers.
    pub fn get(&self, k: &str) -> (r: Option<&V>)
        requires
            self.wf(),
        ensures
            match r {
                Some(v) => self.view().contains_key(k@) && *v == self.view()[k@],
                None => !self.view().contains_key(k@),
            },
    {
        proof {
            lemma_pairs_to_map(self.spec_entries());
        }
        match self.find(k) {
            Some(i) => {
                proof {
                    assert(self.view().contains_key(self.spec_entries()[i as int].0@));
                }
                Some(&self.entries[i].1)
            },
            None => {
                proof {
                    if self.view().contains_key(k@) {
                        let i = choose|i: int| 0 <= i < self.spec_entries().len() && self.spec_entries()[i].0@ == k@;
                        assert(self.spec_entries()[i].0@ != k@);
                    }
                }
                None
            },
        }
    }

    /// Holds `v` for `k`, replacing what `k` held before, as `HashMap::insert` does.
    /// A new key is placed after all others; an old key keeps its place.
    pub fn insert(&mut self, k: String, v: V)
        requires
            old(self).wf(),
        ensures
            final(self).wf(),
            final(self).view() == old(self).view().insert(k@, v),
            old(self).view().contains_key(k@) ==> final(self).spec_entries().len() == old(self).spec_entries().len(),
            old(self).view().contains_key(k@) ==> entry_keys(final(self).spec_entries()) == entry_keys(old(self).spec_entries()),
            !old(self).view().contains_key(k@) ==> final(self).spec_entries() == old(self).spec_entries().push((k, v)),
    {
        let ghost old_s = self.spec_entries();
        proof {
            lemma_pairs_to_map(old_s);
        }
        match self.find(k.as_str()) {
            Some(i) => {
                let ghost kk = k;
                self.entries.set(i, (k, v));
                proof {
                    let s = self.spec_entries();
                    assert(s == old_s.update(i as int, (kk, v)));
                    assert(entry_keys(s) =~= entry_keys(old_s));
                    assert(keys_distinct(s)) by {
                        assert forall|a: int, b: int| 0 <= a < s.len() && 0 <= b < s.len() && a != b implies #[trigger] s[a].0@ != #[trigger] s[b].0@ by {
                            assert(old_s[a].0@ != old_s[b].0@);
                            if a == i {
                                assert(s[a].0@ == old_s[a].0@);
                            }
                            if b == i {
                                assert(s[b].0@ == old_s[b].0@);
                            }
                        }
                    }
                    lemma_pairs_to_map(s);
                    assert(self.view() =~= old(self).view().insert(kk@, v)) by {
                        assert forall|key| #[trigger] self.view().contains_key(key) <==> old(self).view().insert(kk@, v).contains_key(key) by {
                            if self.view().contains_key(key) {
                                let j = choose|j: int| 0 <= j < s.len() && s[j].0@ == key;
                                if j != i {
                                    assert(s[j] == old_s[j]);
                                }
                            }
                            if old(self).view().contains_key(key) {
                                let j = choose|j: int| 0 <= j < old_s.len() && old_s[j].0@ == key;
                                if j != i {
                                    assert(s[j] == old_s[j]);
                                } else {
                                    assert(s[j].0@ == key);
                                }
                            }
                        }
                        assert forall|key| #[trigger] self.view().contains_key(key) implies self.view()[key] == old(self).view().insert(kk@, v)[key] by {
                            let j = choose|j: int| 0 <= j < s.len() && s[j].0@ == key;
                            if j != i {
                                assert(s[j] == old_s[j]);
                            }
                        }
                    }
                }
            },
            None => {
                let ghost kk = k;
                self.entries.push((k, v));
                proof {
                    let s = self.spec_entries();
                    assert(s == old_s.push((kk, v)));
                    assert(s.drop_last() =~= old_s);
                    assert(keys_distinct(s)) by {
                        assert forall|a: int, b: int| 0 <= a < s.len() && 0 <= b < s.len() && a != b implies #[trigger] s[a].0@ != #[trigger] s[b].0@ by {
                            if a < old_s.len() && b < old_s.len() {
                                assert(old_s[a].0@ != old_s[b].0@);
                            } else if a < old_s.len() {
                                assert(old_s[a].0@ != kk@);
                            } else {
                                assert(old_s[b].0@ != kk@);
                            }
                        }
                    }
                    assert(old(self).view().contains_key(kk@) ==> exists|j: int| 0 <= j < old_s.len() && old_s[j].0@ == kk@);
                }
            },
        }
    }

    /// The entries, each key with its value, in the order of `spec_entries`.
    pub fn entries(&self) -> (r: &Vec<(String, V)>)
        ensures
            r@ == self.spec_entries(),
    {
        &self.entries
    }
}

/// Values that can be copied, each copy holding the same value as its source.
pub trait Duplicate: Sized {
    /// Whether `other` holds the same value as `self`.
    spec fn same_value(&self, other: &Self) -> bool;

    /// A copy of `self`.
    fn duplicate(&self) -> (r: Self)
        ensures
            self.same_value(&r),
    ;
}

impl Duplicate for String {
    open spec fn same_value(&self, other: &Self) -> bool {
        *self == *other
    }

    fn duplicate(&self) -> (r: Self) {
        self.clone()
    }
}

impl<V: Duplicate> StrMap<V> {
    /// A copy of the value held for `k`.
    pub fn get_copy(&self, k: &str) -> (r: Option<V>)
        requires
            self.wf(),
        ensures
            match r {
                Some(v) => self.view().contains_key(k@) && self.view()[k@].same_value(&v),
                None => !self.view().contains_key(k@),
            },
    {
        match self.get(k) {
            Some(v) => Some(v.duplicate()),
            None => None,
        }
    }
}

/// The values of a list of entries, in order.
pub open spec fn entry_values<V>(s: Seq<(String, V)>) -> Seq<V> {
    s.map_values(|p: (String, V)| p.1)
}

/// The keys of a list of entries, in order.
pub open spec fn entry_keys<V>(s: Seq<(String, V)>) -> Seq<Seq<char>> {
    s.map_values(|p: (String, V)| p.0@)
}

impl<V> StrMap<V> {
    /// The keys in entry order name each key once, and the values in entry
    /// order are what the map holds for them.
    pub proof fn lemma_entries(&self)
        requires
            self.wf(),
        ensures
            entry_keys(self.spec_entries()).no_duplicates(),
            entry_keys(self.spec_entries()).len() == entry_values(self.spec_entries()).len(),
            forall|i: int| 0 <= i < entry_keys(self.spec_entries()).len() ==> self.view().contains_key(#[trigger] entry_keys(self.spec_entries())[i]) && self.view()[entry_keys(self.spec_entries())[i]] == entry_values(self.spec_entries())[i],
            forall|k: Seq<char>| #[trigger] self.view().contains_key(k) <==> entry_keys(self.spec_entries()).contains(k),
    {
        let s = self.spec_entries();
        lemma_pairs_to_map(s);
        let keys = entry_keys(s);
        assert forall|i: int| 0 <= i < keys.len() implies self.view().contains_key(#[trigger] keys[i]) && self.view()[keys[i]] == entry_values(s)[i] by {
            assert(keys[i] == s[i].0@);
        }
        assert forall|k: Seq<char>| #[trigger] self.view().contains_key(k) <==> keys.contains(k) by {
            if self.view().contains_key(k) {
                let i = choose|i: int| 0 <= i < s.len() && s[i].0@ == k;
                assert(keys[i] == k);
            }
            if keys.contains(k) {
                let i = choose|i: int| 0 <= i < keys.len() && keys[i] == k;
                assert(s[i].0@ == k);
            }
        }
        assert forall|i: int, j: int| 0 <= i < keys.len() && 0 <= j < keys.len() && i != j implies keys[i] != keys[j] by {
            assert(s[i].0@ != s[j].0@);
        }
    }
}

} // verus!
