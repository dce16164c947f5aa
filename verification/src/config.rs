//! What the client remembers between runs: the account that is logged
//! in, and the programs that open files.

use vstd::prelude::*;
use crate::params::ParameterMap;
use crate::text::{byte_len, bytes_in, chars_of, replace_all, replaced, same_text};

verus! {

/// The account that is logged in on this device. Empty fields stand for
/// no account.
#[derive(Debug, PartialEq, Eq)]
pub struct AccountConfig {
    pub id: String,
    pub instance: String,
    pub token: String,
}

impl Default for AccountConfig {
    fn default() -> (r: Self)
        ensures
            r.id@.len() == 0,
            r.instance@.len() == 0,
            r.token@.len() == 0,
    {
        AccountConfig { id: String::new(), instance: String::new(), token: String::new() }
    }
}

/// Whether a map holds a value for `key` that is not empty.
pub open spec fn filled(map: Map<Seq<char>, Seq<char>>, key: Seq<char>) -> bool {
    map.contains_key(key) && map[key].len() > 0
}

/// Whether a map names an account: id, instance and token are all there
/// and none is empty.
pub open spec fn logged_in(map: Map<Seq<char>, Seq<char>>) -> bool {
    filled(map, "id"@) && filled(map, "instance"@) && filled(map, "token"@)
}

/// Whether the map holds a value for `key` that is not empty.
fn has_filled(map: &ParameterMap, key: &str) -> (r: bool)
    ensures
        r == filled(map@, key@),
{
    match map.get(key) {
        Some(value) => !value.as_str().is_empty(),
        None => false,
    }
}

impl AccountConfig {
    /// The account as the parameters that commands read.
    pub open spec fn spec_map(&self) -> Map<Seq<char>, Seq<char>> {
        Map::<Seq<char>, Seq<char>>::empty().insert("id"@, self.id@).insert(
            "instance"@,
            self.instance@,
        ).insert("token"@, self.token@)
    }

    /// Whether an account is logged in: none of the fields is empty.
    pub fn is_loggedin(&self) -> (r: bool)
        ensures
            r == (self.id@.len() > 0 && self.instance@.len() > 0 && self.token@.len() > 0),
    {
        !(self.id.as_str().is_empty() || self.instance.as_str().is_empty()
            || self.token.as_str().is_empty())
    }

    /// Whether the parameters name an account.
    pub fn is_loggedin_map(map: &ParameterMap) -> (r: bool)
        ensures
            r == logged_in(map@),
    {
        has_filled(map, "id") && has_filled(map, "instance") && has_filled(map, "token")
    }

    /// The account as the parameters that commands read.
    pub fn to_map(&self) -> (map: ParameterMap)
        ensures
            map@ == self.spec_map(),
    {
        let mut map = ParameterMap::new();
        map.insert(String::from_str("id"), self.id.clone());
        map.insert(String::from_str("instance"), self.instance.clone());
        map.insert(String::from_str("token"), self.token.clone());
        map
    }

    /// Stores the account in `map`, over what the map held under the same
    /// keys.
    pub fn extend_map(&self, map: &mut ParameterMap)
        ensures
            final(map)@ == old(map)@.union_prefer_right(self.spec_map()),
    {
        map.insert(String::from_str("id"), self.id.clone());
        map.insert(String::from_str("instance"), self.instance.clone());
        map.insert(String::from_str("token"), self.token.clone());
        assert(map@ =~= old(map)@.union_prefer_right(self.spec_map()));
    }
}

/// The programs that open files: pairs of a file extension and the
/// command line that opens files with it.
#[derive(Debug, PartialEq, Eq)]
pub struct ApplicationsConfig {
    pub entries: Vec<(String, String)>,
}

/// How many dots a text holds.
pub open spec fn dot_count(s: Seq<char>) -> nat
    decreases s.len(),
{
    if s.len() == 0 {
        0
    } else if s.last() == '.' {
        dot_count(s.drop_last()) + 1
    } else {
        dot_count(s.drop_last())
    }
}

/// Whether the extension `a` is tried before the extension `b`: it has
/// more dots, or as many and more bytes.
pub open spec fn sorts_before(a: Seq<char>, b: Seq<char>) -> bool {
    dot_count(a) > dot_count(b) || (dot_count(a) == dot_count(b) && byte_len(a) > byte_len(b))
}

/// Where an entry with the given extension goes among sorted entries:
/// before the first one that it sorts before, and so after every entry
/// that is its equal.
pub open spec fn slot(sorted: Seq<(String, String)>, key: Seq<char>) -> int
    decreases sorted.len(),
{
    if sorted.len() == 0 {
        0
    } else if sorts_before(key, sorted[0].0@) {
        0
    } else {
        1 + slot(sorted.drop_first(), key)
    }
}

/// The entries in the order in which they are tried: most dots first,
/// then most bytes, and entries that are equal in both in the order in
/// which they stood.
pub open spec fn ranked(entries: Seq<(String, String)>) -> Seq<(String, String)>
    decreases entries.len(),
{
    if entries.len() == 0 {
        Seq::empty()
    } else {
        let before = ranked(entries.drop_last());
        before.insert(slot(before, entries.last().0@), entries.last())
    }
}

/// No entry stands behind one that it sorts before.
pub open spec fn in_order(entries: Seq<(String, String)>) -> bool {
    forall|i: int, j: int|
        0 <= i < j < entries.len() ==> !sorts_before(
            (#[trigger] entries[j]).0@,
            (#[trigger] entries[i]).0@,
        )
}

/// The slot of an entry lies within the list; the entry sorts before
/// what stands at its slot, and before nothing that stands earlier.
pub proof fn lemma_slot(sorted: Seq<(String, String)>, key: Seq<char>)
    ensures
        0 <= slot(sorted, key) <= sorted.len(),
        slot(sorted, key) < sorted.len() ==> sorts_before(key, sorted[slot(sorted, key)].0@),
        forall|k: int| 0 <= k < slot(sorted, key) ==> !sorts_before(key, (#[trigger] sorted[k]).0@),
    decreases sorted.len(),
{
    if sorted.len() > 0 && !sorts_before(key, sorted[0].0@) {
        let rest = sorted.drop_first();
        lemma_slot(rest, key);
        assert forall|k: int| 0 <= k < slot(sorted, key) implies !sorts_before(
            key,
            (#[trigger] sorted[k]).0@,
        ) by {
            if k > 0 {
                assert(sorted[k] == rest[k - 1]);
            }
        }
        if slot(sorted, key) < sorted.len() {
            assert(sorted[slot(sorted, key)] == rest[slot(rest, key)]);
        }
    }
}

/// The ranked entries are the given entries, each as often as it was
/// given, and they are in order.
pub proof fn lemma_ranked(entries: Seq<(String, String)>)
    ensures
        ranked(entries).len() == entries.len(),
        ranked(entries).to_multiset() == entries.to_multiset(),
        in_order(ranked(entries)),
    decreases entries.len(),
{
    broadcast use vstd::seq_lib::to_multiset_build, vstd::seq_lib::to_multiset_insert;

    if entries.len() == 0 {
        assert(entries == Seq::<(String, String)>::empty());
    } else {
        let head = entries.drop_last();
        let last = entries.last();
        let before = ranked(head);
        lemma_ranked(head);
        lemma_slot(before, last.0@);
        let at = slot(before, last.0@);
        let after = before.insert(at, last);
        assert(entries == head.push(last));
        assert(after.to_multiset() == before.to_multiset().insert(last));
        assert forall|i: int, j: int| 0 <= i < j < after.len() implies !sorts_before(
            (#[trigger] after[j]).0@,
            (#[trigger] after[i]).0@,
        ) by {
            if j < at {
                assert(after[i] == before[i] && after[j] == before[j]);
            } else if j == at {
                assert(after[i] == before[i]);
            } else if i < at {
                assert(after[i] == before[i] && after[j] == before[j - 1]);
            } else if i == at {
                assert(after[j] == before[j - 1]);
                assert(sorts_before(last.0@, before[at].0@));
                if j - 1 > at {
                    assert(!sorts_before(before[j - 1].0@, before[at].0@));
                }
            } else {
                assert(after[i] == before[i - 1] && after[j] == before[j - 1]);
            }
        }
    }
}

/// The command line stored for an extension: that of the first entry
/// with the extension.
pub open spec fn command_for(entries: Seq<(String, String)>, key: Seq<char>) -> Option<Seq<char>>
    decreases entries.len(),
{
    if entries.len() == 0 {
        None
    } else if entries[0].0@ == key {
        Some(entries[0].1@)
    } else {
        command_for(entries.drop_first(), key)
    }
}

/// How many dots a string holds.
fn dots_in(s: &str) -> (n: usize)
    ensures
        n == dot_count(s@),
{
    let chars = chars_of(s);
    let mut n: usize = 0;
    let mut i: usize = 0;
    assert(chars@.take(0) == Seq::<char>::empty());
    while i < chars.len()
        invariant
            i <= chars.len(),
            n <= i,
            n == dot_count(chars@.take(i as int)),
        decreases chars.len() - i,
    {
        assert(chars@.take(i + 1).drop_last() == chars@.take(i as int));
        assert(chars@.take(i + 1).last() == chars@[i as int]);
        if chars[i] == '.' {
            n += 1;
        }
        i += 1;
    }
    assert(chars@.take(chars.len() as int) == chars@);
    n
}

/// Whether the extension `a` is tried before the extension `b`.
fn tried_before(a: &str, b: &str) -> (r: bool)
    ensures
        r == sorts_before(a@, b@),
{
    let da = dots_in(a);
    let db = dots_in(b);
    da > db || (da == db && bytes_in(a) > bytes_in(b))
}

impl ApplicationsConfig {
    /// Puts the entries in the order in which they are tried: extensions
    /// with more dots first, among those the longer ones first. Entries
    /// that are equal in both keep their order.
    pub fn sort(&mut self)
        ensures
            final(self).entries@ == ranked(old(self).entries@),
            final(self).entries@.to_multiset() == old(self).entries@.to_multiset(),
            in_order(final(self).entries@),
    {
        let ghost all = self.entries@;
        let mut out: Vec<(String, String)> = Vec::new();
        let mut i: usize = 0;
        assert(all.take(0) == Seq::<(String, String)>::empty());
        while i < self.entries.len()
            invariant
                i <= self.entries.len(),
                self.entries@ == all,
                out@ == ranked(all.take(i as int)),
            decreases self.entries.len() - i,
        {
            let key = self.entries[i].0.clone();
            let value = self.entries[i].1.clone();
            proof {
                lemma_ranked(all.take(i as int));
                assert(all.take(i + 1).drop_last() == all.take(i as int));
                assert(all.take(i + 1).last() == all[i as int]);
            }
            let mut at: usize = 0;
            assert(out@.skip(0) == out@);
            while at < out.len() && !tried_before(key.as_str(), out[at].0.as_str())
                invariant
                    at <= out.len(),
                    slot(out@, key@) == at + slot(out@.skip(at as int), key@),
                decreases out.len() - at,
            {
                assert(out@.skip(at as int).drop_first() == out@.skip(at + 1));
                at += 1;
            }
            out.insert(at, (key, value));
            i += 1;
        }
        proof {
            assert(all.take(all.len() as int) == all);
            lemma_ranked(all);
        }
        self.entries = out;
    }

    /// The command line that opens files with the extension `k`, if one is
    /// stored.
    pub fn get(&self, k: &str) -> (r: Option<&str>)
        ensures
            match command_for(self.entries@, k@) {
                Some(command) => r matches Some(found) && found@ == command,
                None => r is None,
            },
    {
        let mut i: usize = 0;
        assert(self.entries@.skip(0) == self.entries@);
        while i < self.entries.len()
            invariant
                i <= self.entries.len(),
                command_for(self.entries@, k@) == command_for(self.entries@.skip(i as int), k@),
            decreases self.entries.len() - i,
        {
            assert(self.entries@.skip(i as int).drop_first() == self.entries@.skip(i + 1));
            if same_text(self.entries[i].0.as_str(), k) {
                return Some(self.entries[i].1.as_str());
            }
            i += 1;
        }
        None
    }
}

/// The command line that opens the file at `path`: the stored command
/// line with `path` in every place that is marked `{path}`.
pub fn open_command(command: &str, path: &str) -> (out: String)
    ensures
        out@ == replaced(command@, "{path}"@, path@),
{
    proof {
        reveal_strlit("{path}");
    }
    replace_all(command, "{path}", path)
}

/// Whether the extension of the entry at `j` is that of an earlier entry.
pub open spec fn repeats_earlier(entries: Seq<(String, String)>, j: int) -> bool {
    exists|i: int| 0 <= i < j && (#[trigger] entries[i]).0@ == entries[j].0@
}

impl ApplicationsConfig {
    /// The position of the first entry whose extension an earlier entry
    /// has already, if there is one. Such an entry is never reached when a
    /// command line is looked up.
    pub fn double_entry(&self) -> (r: Option<usize>)
        ensures
            match r {
                Some(j) => j < self.entries@.len() && repeats_earlier(self.entries@, j as int)
                    && forall|k: int| 0 <= k < j ==> !repeats_earlier(self.entries@, k),
                None => forall|k: int|
                    0 <= k < self.entries@.len() ==> !repeats_earlier(self.entries@, k),
            },
    {
        let mut j: usize = 0;
        while j < self.entries.len()
            invariant
                j <= self.entries.len(),
                forall|k: int| 0 <= k < j ==> !repeats_earlier(self.entries@, k),
            decreases self.entries.len() - j,
        {
            let mut i: usize = 0;
            while i < j
                invariant
                    i <= j < self.entries.len(),
                    forall|k: int| 0 <= k < j ==> !repeats_earlier(self.entries@, k),
                    forall|k: int|
                        0 <= k < i ==> (#[trigger] self.entries@[k]).0@ != self.entries@[j as int].0@,
                decreases j - i,
            {
                if same_text(self.entries[i].0.as_str(), self.entries[j].0.as_str()) {
                    assert(self.entries@[i as int].0@ == self.entries@[j as int].0@);
                    return Some(j);
                }
                i += 1;
            }
            j += 1;
        }
        None
    }
}

} // verus!
