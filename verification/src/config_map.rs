//! The plugin configuration: a finite map from option names to values.
use vstd::prelude::*;

use crate::text::chars_of;

verus! {

/// A map from configuration keys to values, kept as a list of entries whose
/// keys are pairwise distinct.
pub struct Config {
    entries: Vec<(String, String)>,
}

/// The map that a list of entries with distinct keys stands for.
pub open spec fn entries_map(es: Seq<(String, String)>) -> Map<Seq<char>, Seq<char>>
    decreases es.len(),
{
    if es.len() == 0 {
        Map::empty()
    } else {
        entries_map(es.drop_last()).insert(es.last().0@, es.last().1@)
    }
}

/// No two entries share a key.
pub open spec fn distinct_keys(es: Seq<(String, String)>) -> bool {
    forall|i: int, j: int| 0 <= i < j < es.len() ==> es[i].0@ != es[j].0@
}

/// Entry `i` is in the map, and nothing else is.
pub proof fn lemma_entries_map(es: Seq<(String, String)>)
    requires
        distinct_keys(es),
    ensures
        forall|i: int|
            0 <= i < es.len() ==> #[trigger] entries_map(es).contains_key(es[i].0@) && entries_map(
                es,
            )[es[i].0@] == es[i].1@,
        forall|k: Seq<char>|
            #[trigger] entries_map(es).contains_key(k) ==> exists|i: int|
                0 <= i < es.len() && es[i].0@ == k,
    decreases es.len(),
{
    if es.len() > 0 {
        let init = es.drop_last();
        assert(distinct_keys(init));
        lemma_entries_map(init);
        assert forall|k: Seq<char>| #[trigger] entries_map(es).contains_key(k) implies exists|i: int|
            0 <= i < es.len() && es[i].0@ == k by {
            if k != es.last().0@ {
                assert(entries_map(init).contains_key(k));
                let i = choose|i: int| 0 <= i < init.len() && init[i].0@ == k;
                assert(es[i].0@ == k);
            } else {
                assert(es[es.len() - 1].0@ == k);
            }
        }
        assert forall|i: int| 0 <= i < es.len() implies #[trigger] entries_map(es).contains_key(
            es[i].0@,
        ) && entries_map(es)[es[i].0@] == es[i].1@ by {
            if i < es.len() - 1 {
                assert(init[i] == es[i]);
                assert(entries_map(init).contains_key(init[i].0@));
                assert(es[i].0@ != es[es.len() - 1].0@);
            }
        }
    }
}

/// Replacing the value of entry `i` updates the map at its key.
proof fn lemma_entries_map_update(es: Seq<(String, String)>, i: int, v: String)
    requires
        distinct_keys(es),
        0 <= i < es.len(),
    ensures
        entries_map(es.update(i, (es[i].0, v))) == entries_map(es).insert(es[i].0@, v@),
    decreases es.len(),
{
    let es2 = es.update(i, (es[i].0, v));
    if i == es.len() - 1 {
        assert(es2.drop_last() =~= es.drop_last());
        assert(entries_map(es2) =~= entries_map(es).insert(es[i].0@, v@)) by {
            lemma_entries_map(es);
            lemma_entries_map(es.drop_last());
            assert(distinct_keys(es.drop_last()));
            if entries_map(es.drop_last()).contains_key(es[i].0@) {
                let j = choose|j: int|
                    0 <= j < es.drop_last().len() && es.drop_last()[j].0@ == es[i].0@;
                assert(es[j].0@ == es[i].0@);
            }
        }
    } else {
        assert(distinct_keys(es.drop_last()));
        lemma_entries_map_update(es.drop_last(), i, v);
        assert(es2.drop_last() =~= es.drop_last().update(i, (es[i].0, v)));
        assert(es[i].0@ != es.last().0@);
        assert(entries_map(es2) =~= entries_map(es).insert(es[i].0@, v@));
    }
}

impl Config {
    #[verifier::type_invariant]
    spec fn keys_distinct(self) -> bool {
        distinct_keys(self.entries@)
    }

    /// The entries, in the order they are kept.
    pub closed spec fn entries_seq(self) -> Seq<(String, String)> {
        self.entries@
    }

    /// An empty configuration.
    pub fn new() -> (res: Config)
        ensures
            res@ == Map::<Seq<char>, Seq<char>>::empty(),
            res.entries_seq().len() == 0,
    {
        Config { entries: Vec::new() }
    }

    /// The number of entries; the entries are exactly the map, with distinct
    /// keys.
    pub fn len(&self) -> (res: usize)
        ensures
            res == self.entries_seq().len(),
            distinct_keys(self.entries_seq()),
            self@ == entries_map(self.entries_seq()),
    {
        proof {
            use_type_invariant(self);
            lemma_entries_map(self.entries@);
        }
        self.entries.len()
    }

    /// The key of entry `i`.
    pub fn key_at(&self, i: usize) -> (res: &String)
        requires
            i < self.entries_seq().len(),
        ensures
            *res == self.entries_seq()[i as int].0,
    {
        &self.entries[i].0
    }

    /// The value of entry `i`.
    pub fn value_at(&self, i: usize) -> (res: &String)
        requires
            i < self.entries_seq().len(),
        ensures
            *res == self.entries_seq()[i as int].1,
    {
        &self.entries[i].1
    }

    /// The index of the entry with key `key`.
    fn position(&self, key: &[char]) -> (res: Option<usize>)
        ensures
            res matches Some(i) ==> i < self.entries_seq().len() && self.entries_seq()[i as int].0@
                == key@,
            res is None ==> !self@.contains_key(key@),
    {
        proof {
            use_type_invariant(self);
            lemma_entries_map(self.entries@);
        }
        let mut i: usize = 0;
        while i < self.entries.len()
            invariant
                i <= self.entries@.len(),
                forall|j: int| 0 <= j < i ==> self.entries@[j].0@ != key@,
            decreases self.entries.len() - i,
        {
            let k = chars_of(self.entries[i].0.as_str());
            if same_chars(&k, key) {
                return Some(i);
            }
            i += 1;
        }
        None
    }

    /// The value stored under `key`.
    pub fn get(&self, key: &str) -> (res: Option<&String>)
        ensures
            match res {
                Some(v) => self@.contains_key(key@) && v@ == self@[key@],
                None => !self@.contains_key(key@),
            },
    {
        proof {
            use_type_invariant(self);
            lemma_entries_map(self.entries@);
        }
        let k = chars_of(key);
        match self.position(&k) {
            Some(i) => {
                assert(entries_map(self.entries@).contains_key(self.entries@[i as int].0@));
                Some(&self.entries[i].1)
            },
            None => None,
        }
    }

    /// Whether `key` has a value.
    pub fn contains_key(&self, key: &str) -> (res: bool)
        ensures
            res == self@.contains_key(key@),
    {
        self.get(key).is_some()
    }

    /// A copy of this configuration.
    pub fn duplicate(&self) -> (res: Config)
        ensures
            res@ == self@,
    {
        proof {
            use_type_invariant(self);
        }
        let mut entries: Vec<(String, String)> = Vec::new();
        let mut i: usize = 0;
        while i < self.entries.len()
            invariant
                i <= self.entries@.len(),
                entries@ == self.entries@.take(i as int),
            decreases self.entries.len() - i,
        {
            let k = self.entries[i].0.clone();
            let v = self.entries[i].1.clone();
            entries.push((k, v));
            assert(entries@ =~= self.entries@.take(i + 1));
            i += 1;
        }
        assert(entries@ =~= self.entries@);
        Config { entries }
    }

    /// Stores `value` under `key`, replacing an earlier value.
    pub fn insert(&mut self, key: String, value: String)
        ensures
            final(self)@ == old(self)@.insert(key@, value@),
    {
        let mut taken = Config::new();
        std::mem::swap(&mut taken, self);
        *self = taken.with_entry(key, value);
    }

    /// This configuration with `value` stored under `key`.
    pub fn with_entry(self, key: String, value: String) -> (res: Config)
        ensures
            res@ == self@.insert(key@, value@),
    {
        proof {
            use_type_invariant(&self);
            lemma_entries_map(self.entries@);
        }
        let k = chars_of(key.as_str());
        let pos = self.position(&k);
        let Config { mut entries } = self;
        match pos {
            Some(i) => {
                proof {
                    lemma_entries_map_update(entries@, i as int, value);
                }
                let ghost before = entries@;
                let key_i = key_i_exec(&entries, i);
                entries.set(i, (key_i, value));
                assert(entries@ == before.update(i as int, (before[i as int].0, value)));
                assert(distinct_keys(entries@)) by {
                    assert forall|a: int, b: int| 0 <= a < b < entries@.len() implies entries@[a].0@
                        != entries@[b].0@ by {
                        assert(entries@[a].0 == before[a].0);
                        assert(entries@[b].0 == before[b].0);
                    }
                }
                Config { entries }
            },
            None => {
                let ghost before = entries@;
                proof {
                    assert forall|j: int| 0 <= j < before.len() implies before[j].0@ != key@ by {
                        assert(entries_map(before).contains_key(before[j].0@));
                    }
                }
                entries.push((key, value));
                assert(entries@.drop_last() =~= before);
                Config { entries }
            },
        }
    }
}

/// A copy of the key of entry `i`.
fn key_i_exec(entries: &Vec<(String, String)>, i: usize) -> (res: String)
    requires
        i < entries@.len(),
    ensures
        res == entries@[i as int].0,
{
    entries[i].0.clone()
}

/// Whether two character sequences are equal.
pub fn same_chars(a: &[char], b: &[char]) -> (res: bool)
    ensures
        res == (a@ == b@),
{
    if a.len() != b.len() {
        return false;
    }
    let mut i: usize = 0;
    while i < a.len()
        invariant
            i <= a@.len(),
            a@.len() == b@.len(),
            forall|j: int| 0 <= j < i ==> a@[j] == b@[j],
        decreases a.len() - i,
    {
        if a[i] != b[i] {
            return false;
        }
        i += 1;
    }
    assert(a@ =~= b@);
    true
}

/// The value of `key`, if any.
pub open spec fn lookup(cfg: Map<Seq<char>, Seq<char>>, key: Seq<char>) -> Option<Seq<char>> {
    if cfg.contains_key(key) {
        Some(cfg[key])
    } else {
        None
    }
}

/// The view of an optional string.
pub open spec fn opt_view(o: Option<String>) -> Option<Seq<char>> {
    match o {
        Some(s) => Some(s@),
        None => None,
    }
}

impl Config {
    /// A copy of the value stored under `key`.
    pub fn get_owned(&self, key: &str) -> (res: Option<String>)
        ensures
            opt_view(res) == lookup(self@, key@),
    {
        match self.get(key) {
            Some(v) => Some(v.clone()),
            None => None,
        }
    }

    /// Whether `key` is set to exactly `value`.
    pub fn is_set_to(&self, key: &str, value: &str) -> (res: bool)
        ensures
            res == (lookup(self@, key@) == Some(value@)),
    {
        match self.get(key) {
            Some(v) => {
                let a = chars_of(v.as_str());
                let b = chars_of(value);
                same_chars(&a, &b)
            },
            None => false,
        }
    }
}

impl View for Config {
    type V = Map<Seq<char>, Seq<char>>;

    closed spec fn view(&self) -> Map<Seq<char>, Seq<char>> {
        entries_map(self.entries@)
    }
}

} // verus!
