//! The parameter map that a command is invoked with: text keys, text
//! values, each key at most once.

use vstd::prelude::*;
use crate::text::{chars_of, same_chars};

verus! {

/// A map from names to values. It carries the flags given on the command
/// line, the values seeded from the configuration and the answers gathered
/// at the prompt.
pub struct ParameterMap {
    entries: Vec<(String, String)>,
}

/// No key occurs twice among the entries.
pub open spec fn keys_distinct(entries: Seq<(String, String)>) -> bool {
    forall|i: int, j: int| 0 <= i < j < entries.len() ==> entries[i].0@ != entries[j].0@
}

/// Whether some entry has the key `key`.
pub open spec fn has_key(entries: Seq<(String, String)>, key: Seq<char>) -> bool {
    exists|i: int| 0 <= i < entries.len() && (#[trigger] entries[i]).0@ == key
}

/// The position of an entry with the key `key`.
pub open spec fn position_of(entries: Seq<(String, String)>, key: Seq<char>) -> int {
    choose|i: int| 0 <= i < entries.len() && (#[trigger] entries[i]).0@ == key
}

/// The map that a list of entries with distinct keys stands for.
pub open spec fn entries_map(entries: Seq<(String, String)>) -> Map<Seq<char>, Seq<char>> {
    Map::new(
        |key: Seq<char>| has_key(entries, key),
        |key: Seq<char>| entries[position_of(entries, key)].1@,
    )
}

/// With distinct keys, the entry at `i` is the one that the map shows for
/// its key.
pub proof fn lemma_entry_shown(entries: Seq<(String, String)>, i: int)
    requires
        keys_distinct(entries),
        0 <= i < entries.len(),
    ensures
        entries_map(entries).contains_key(entries[i].0@),
        entries_map(entries)[entries[i].0@] == entries[i].1@,
{
    let key = entries[i].0@;
    assert(has_key(entries, key));
    let p = position_of(entries, key);
    assert(0 <= p < entries.len() && entries[p].0@ == key);
    if p < i {
        assert(entries[p].0@ != entries[i].0@);
    } else if i < p {
        assert(entries[i].0@ != entries[p].0@);
    }
}

impl View for ParameterMap {
    type V = Map<Seq<char>, Seq<char>>;

    closed spec fn view(&self) -> Map<Seq<char>, Seq<char>> {
        entries_map(self.entries@)
    }
}

impl ParameterMap {
    #[verifier::type_invariant]
    spec fn wf(self) -> bool {
        keys_distinct(self.entries@)
    }

    /// A map without entries.
    pub fn new() -> (m: ParameterMap)
        ensures
            m@ == Map::<Seq<char>, Seq<char>>::empty(),
    {
        let m = ParameterMap { entries: Vec::new() };
        assert(m@ =~= Map::<Seq<char>, Seq<char>>::empty());
        m
    }

    /// Where the key stands among the entries, if it is there.
    fn find(&self, key: &str) -> (r: Option<usize>)
        ensures
            match r {
                Some(i) => i < self.entries@.len() && self.entries@[i as int].0@ == key@,
                None => !has_key(self.entries@, key@),
            },
    {
        let wanted = chars_of(key);
        let mut i: usize = 0;
        while i < self.entries.len()
            invariant
                i <= self.entries.len(),
                wanted@ == key@,
                forall|k: int| 0 <= k < i ==> (#[trigger] self.entries@[k]).0@ != key@,
            decreases self.entries.len() - i,
        {
            let here = chars_of(self.entries[i].0.as_str());
            if same_chars(&here, &wanted) {
                return Some(i);
            }
            i += 1;
        }
        None
    }

    /// Whether the map has a value for `key`.
    pub fn contains_key(&self, key: &str) -> (r: bool)
        ensures
            r == self@.contains_key(key@),
    {
        self.find(key).is_some()
    }

    /// The value stored for `key`, if there is one.
    pub fn get(&self, key: &str) -> (r: Option<&String>)
        ensures
            match r {
                Some(value) => self@.contains_key(key@) && value@ == self@[key@],
                None => !self@.contains_key(key@),
            },
    {
        proof {
            use_type_invariant(self);
        }
        match self.find(key) {
            Some(i) => {
                proof {
                    lemma_entry_shown(self.entries@, i as int);
                }
                Some(&self.entries[i].1)
            },
            None => None,
        }
    }

    /// Stores `value` for `key`, in place of any value that was stored for
    /// it before, and returns that earlier value.
    pub fn insert(&mut self, key: String, value: String) -> (r: Option<String>)
        ensures
            final(self)@ == old(self)@.insert(key@, value@),
            match r {
                Some(earlier) => old(self)@.contains_key(key@) && earlier@ == old(self)@[key@],
                None => !old(self)@.contains_key(key@),
            },
    {
        proof {
            use_type_invariant(&*self);
        }
        let ghost before = self.entries@;
        let found = self.find(key.as_str());
        let mut taken = ParameterMap::new();
        std::mem::swap(self, &mut taken);
        let ParameterMap { entries } = taken;
        let mut entries = entries;
        let mut earlier: Option<String> = None;
        match found {
            Some(i) => {
                proof {
                    lemma_entry_shown(before, i as int);
                }
                let gone = entries.remove(i);
                earlier = Some(gone.1);
            },
            None => {},
        }
        let ghost kept = entries@;
        let ghost k = key@;
        let ghost v = value@;
        entries.push((key, value));
        let ghost after = entries@;
        proof {
            assert(keys_distinct(kept)) by {
                if found is Some {
                    let i = found->0 as int;
                    assert forall|a: int, b: int| 0 <= a < b < kept.len() implies kept[a].0@ != kept[b].0@ by {
                        let a0 = if a < i { a } else { a + 1 };
                        let b0 = if b < i { b } else { b + 1 };
                        assert(kept[a] == before[a0]);
                        assert(kept[b] == before[b0]);
                    }
                }
            }
            assert(!has_key(kept, k)) by {
                if has_key(kept, k) {
                    let a = position_of(kept, k);
                    if found is Some {
                        let i = found->0 as int;
                        let a0 = if a < i { a } else { a + 1 };
                        assert(kept[a] == before[a0]);
                        if a0 < i {
                            assert(before[a0].0@ != before[i].0@);
                        } else {
                            assert(before[i].0@ != before[a0].0@);
                        }
                    }
                }
            }
            assert(keys_distinct(after)) by {
                assert forall|a: int, b: int| 0 <= a < b < after.len() implies after[a].0@ != after[b].0@ by {
                    if b < kept.len() {
                        assert(after[a] == kept[a] && after[b] == kept[b]);
                    } else {
                        assert(after[a] == kept[a]);
                        assert(has_key(kept, kept[a].0@));
                    }
                }
            }
            let want = entries_map(before).insert(k, v);
            assert forall|q: Seq<char>| entries_map(after).contains_key(q) <==> want.contains_key(q) by {
                if has_key(after, q) {
                    let a = position_of(after, q);
                    if a < kept.len() {
                        assert(after[a] == kept[a]);
                        if found is Some {
                            let i = found->0 as int;
                            let a0 = if a < i { a } else { a + 1 };
                            assert(kept[a] == before[a0]);
                            assert(has_key(before, q));
                        } else {
                            assert(has_key(before, q));
                        }
                    }
                }
                if q == k {
                    assert(after[kept.len() as int].0@ == k);
                } else if has_key(before, q) {
                    let a0 = position_of(before, q);
                    if found is Some {
                        let i = found->0 as int;
                        let a = if a0 < i { a0 } else { a0 - 1 };
                        assert(kept[a] == before[a0]);
                        assert(after[a] == kept[a]);
                    } else {
                        assert(after[a0] == before[a0]);
                    }
                }
            }
            assert forall|q: Seq<char>| entries_map(after).contains_key(q) implies entries_map(after)[q] == want[q] by {
                let a = position_of(after, q);
                lemma_entry_shown(after, a);
                if a < kept.len() {
                    assert(after[a] == kept[a]);
                    let a0 = if found is Some && a >= found->0 as int { a + 1 } else { a };
                    assert(kept[a] == before[a0]);
                    lemma_entry_shown(before, a0);
                    assert(has_key(kept, q));
                }
            }
            assert(entries_map(after) =~= want);
        }
        *self = ParameterMap { entries };
        earlier
    }

    /// How many keys the map holds.
    pub fn len(&self) -> (n: usize)
        ensures
            self@.dom().finite(),
            n == self@.dom().len(),
    {
        proof {
            use_type_invariant(self);
            lemma_entries_count(self.entries@);
        }
        self.entries.len()
    }
}

/// Entries with distinct keys stand for a map with as many keys as there
/// are entries.
pub proof fn lemma_entries_count(entries: Seq<(String, String)>)
    requires
        keys_distinct(entries),
    ensures
        entries_map(entries).dom().finite(),
        entries_map(entries).dom().len() == entries.len(),
    decreases entries.len(),
{
    if entries.len() == 0 {
        assert(entries_map(entries).dom() =~= Set::<Seq<char>>::empty());
    } else {
        let head = entries.drop_last();
        let last = entries.last();
        assert(keys_distinct(head)) by {
            assert forall|i: int, j: int| 0 <= i < j < head.len() implies head[i].0@ != head[j].0@ by {
                assert(head[i] == entries[i] && head[j] == entries[j]);
            }
        }
        lemma_entries_count(head);
        assert(!has_key(head, last.0@)) by {
            if has_key(head, last.0@) {
                let i = position_of(head, last.0@);
                assert(head[i] == entries[i]);
                assert(entries[i].0@ != entries[entries.len() - 1].0@);
            }
        }
        assert(entries_map(entries).dom() =~= entries_map(head).dom().insert(last.0@)) by {
            assert forall|q: Seq<char>| has_key(entries, q) <==> (has_key(head, q) || q == last.0@) by {
                if has_key(entries, q) {
                    let i = position_of(entries, q);
                    if i < head.len() {
                        assert(head[i] == entries[i]);
                    }
                }
                if has_key(head, q) {
                    let i = position_of(head, q);
                    assert(entries[i] == head[i]);
                }
                if q == last.0@ {
                    assert(entries[entries.len() - 1].0@ == q);
                }
            }
        }
    }
}

impl Clone for ParameterMap {
    fn clone(&self) -> (r: Self)
        ensures
            r@ == self@,
    {
        proof {
            use_type_invariant(self);
        }
        let mut entries: Vec<(String, String)> = Vec::new();
        let mut i: usize = 0;
        while i < self.entries.len()
            invariant
                i <= self.entries.len(),
                entries@ == self.entries@.take(i as int),
            decreases self.entries.len() - i,
        {
            let key = self.entries[i].0.clone();
            let value = self.entries[i].1.clone();
            assert(self.entries@.take(i + 1) == self.entries@.take(i as int).push(
                self.entries@[i as int],
            ));
            entries.push((key, value));
            i += 1;
        }
        assert(self.entries@.take(self.entries.len() as int) == self.entries@);
        ParameterMap { entries }
    }
}

impl ParameterMap {
    /// The entries of the map, each key once, in no order that matters.
    pub fn pairs(&self) -> (out: Vec<(String, String)>)
        ensures
            keys_distinct(out@),
            entries_map(out@) == self@,
    {
        proof {
            use_type_invariant(self);
        }
        let copy = self.clone();
        proof {
            use_type_invariant(&copy);
        }
        copy.entries
    }
}

} // verus!
