//! A map from names to values.

use vstd::prelude::*;
use crate::text::{self, insert_ascending, same};

verus! {

/// A map whose keys are texts.
#[derive(Debug)]
pub struct Table<V> {
    entries: Vec<(String, V)>,
}

/// What a list of entries stands for: of two entries with one key, the later one counts.
pub open spec fn mapping<V>(s: Seq<(String, V)>) -> Map<Seq<char>, V>
    decreases s.len(),
{
    if s.len() == 0 {
        Map::empty()
    } else {
        mapping(s.drop_last()).insert(s.last().0@, s.last().1)
    }
}

proof fn mapping_without<V>(s: Seq<(String, V)>, n: int, key: Seq<char>)
    requires
        0 <= n <= s.len(),
        forall|j: int| n <= j < s.len() ==> s[j].0@ != key,
    ensures
        mapping(s).dom().contains(key) == mapping(s.take(n)).dom().contains(key),
        mapping(s).dom().contains(key) ==> mapping(s)[key] == mapping(s.take(n))[key],
    decreases s.len(),
{
    if n < s.len() {
        assert(s.drop_last().take(n) =~= s.take(n));
        mapping_without(s.drop_last(), n, key);
    } else {
        assert(s.take(n) =~= s);
    }
}

proof fn mapping_update<V>(s: Seq<(String, V)>, i: int, key: String, v: V)
    requires
        0 <= i < s.len(),
        s[i].0@ == key@,
        forall|j: int| i < j < s.len() ==> s[j].0@ != key@,
    ensures
        mapping(s.update(i, (key, v))) == mapping(s).insert(key@, v),
    decreases s.len(),
{
    let new = s.update(i, (key, v));
    if i == s.len() - 1 {
        assert(new.drop_last() =~= s.drop_last());
    } else {
        assert(new.drop_last() =~= s.drop_last().update(i, (key, v)));
        mapping_update(s.drop_last(), i, key, v);
    }
    assert(mapping(new) =~= mapping(s).insert(key@, v));
}

proof fn mapping_remove<V>(s: Seq<(String, V)>, i: int)
    requires
        0 <= i < s.len(),
        forall|j: int| i < j < s.len() ==> s[j].0@ != s[i].0@,
    ensures
        mapping(s.remove(i)).remove(s[i].0@) == mapping(s).remove(s[i].0@),
    decreases s.len(),
{
    let new = s.remove(i);
    let key = s[i].0@;
    if i == s.len() - 1 {
        assert(new =~= s.drop_last());
    } else {
        assert(new.drop_last() =~= s.drop_last().remove(i));
        mapping_remove(s.drop_last(), i);
        assert(s.drop_last()[i] == s[i]);
        assert(new.last() == s.last());
        let m = mapping(new.drop_last());
        let o = mapping(s.drop_last());
        assert(mapping(new).remove(key) =~= m.remove(key).insert(s.last().0@, s.last().1));
        assert(mapping(s).remove(key) =~= o.remove(key).insert(s.last().0@, s.last().1));
    }
    assert(mapping(new).remove(key) =~= mapping(s).remove(key));
}

/// The keys of a mapping are those of the entries.
proof fn mapping_keys<V>(s: Seq<(String, V)>, key: Seq<char>)
    ensures
        mapping(s).dom().contains(key) <==> exists|i: int|
            0 <= i < s.len() && (#[trigger] s[i]).0@ == key,
    decreases s.len(),
{
    if s.len() > 0 {
        let t = s.drop_last();
        mapping_keys(t, key);
        if mapping(t).dom().contains(key) {
            let i = choose|i: int| 0 <= i < t.len() && (#[trigger] t[i]).0@ == key;
            assert(s[i] == t[i]);
        }
        if exists|i: int| 0 <= i < s.len() && (#[trigger] s[i]).0@ == key {
            let i = choose|i: int| 0 <= i < s.len() && (#[trigger] s[i]).0@ == key;
            if i < t.len() {
                assert(t[i] == s[i]);
            }
        }
        if s.last().0@ == key {
            assert(s[s.len() - 1].0@ == key);
        }
    }
}

impl<V> View for Table<V> {
    type V = Map<Seq<char>, V>;

    closed spec fn view(&self) -> Map<Seq<char>, V> {
        mapping(self.entries@)
    }
}

impl<V> Table<V> {
    /// A table without entries.
    pub fn new() -> (r: Table<V>)
        ensures
            r@ == Map::<Seq<char>, V>::empty(),
    {
        Table { entries: Vec::new() }
    }

    fn last(&self, key: &str) -> (r: Option<usize>)
        ensures
            match r {
                Some(i) => i < self.entries@.len() && self.entries@[i as int].0@ == key@ && forall|
                    j: int,
                |
                    i < j < self.entries@.len() ==> self.entries@[j].0@ != key@,
                None => forall|j: int|
                    0 <= j < self.entries@.len() ==> self.entries@[j].0@ != key@,
            },
    {
        let mut i: usize = self.entries.len();
        while i > 0
            invariant
                i <= self.entries@.len(),
                forall|j: int| i <= j < self.entries@.len() ==> self.entries@[j].0@ != key@,
            decreases i,
        {
            i -= 1;
            if same(self.entries[i].0.as_str(), key) {
                return Some(i);
            }
        }
        None
    }

    /// The value of `key`, where it has one.
    pub fn get(&self, key: &str) -> (r: Option<&V>)
        ensures
            match r {
                Some(v) => self@.dom().contains(key@) && self@[key@] == *v,
                None => !self@.dom().contains(key@),
            },
    {
        match self.last(key) {
            Some(i) => {
                proof {
                    mapping_without(self.entries@, i + 1, key@);
                    assert(self.entries@.take(i + 1).drop_last() =~= self.entries@.take(i as int));
                }
                Some(&self.entries[i].1)
            },
            None => {
                proof {
                    mapping_without(self.entries@, 0, key@);
                }
                None
            },
        }
    }

    /// Whether `key` has a value.
    pub fn contains_key(&self, key: &str) -> (r: bool)
        ensures
            r == self@.dom().contains(key@),
    {
        self.get(key).is_some()
    }

    /// Gives `key` the value `v`.
    pub fn insert(&mut self, key: &str, v: V)
        ensures
            final(self)@ == old(self)@.insert(key@, v),
    {
        let k = key.to_owned();
        let ghost before = self.entries@;
        match self.last(key) {
            Some(i) => {
                proof {
                    mapping_update(before, i as int, k, v);
                }
                self.entries.set(i, (k, v));
            },
            None => {
                self.entries.push((k, v));
                assert(self.entries@.drop_last() =~= before);
            },
        }
    }

    /// Takes `key` out.
    pub fn remove(&mut self, key: &str)
        ensures
            final(self)@ == old(self)@.remove(key@),
    {
        loop
            invariant
                self@.remove(key@) == old(self)@.remove(key@),
            decreases self.entries@.len(),
        {
            match self.last(key) {
                Some(i) => {
                    proof {
                        mapping_remove(self.entries@, i as int);
                    }
                    self.entries.remove(i);
                },
                None => {
                    proof {
                        mapping_without(self.entries@, 0, key@);
                        assert(self@.remove(key@) =~= self@);
                    }
                    return ;
                },
            }
        }
    }

    /// Takes `key` out and hands back its value.
    pub fn take(&mut self, key: &str) -> (r: Option<V>)
        ensures
            final(self)@ == old(self)@.remove(key@),
            match r {
                Some(v) => old(self)@.dom().contains(key@) && old(self)@[key@] == v,
                None => !old(self)@.dom().contains(key@),
            },
    {
        let ghost before = self.entries@;
        match self.last(key) {
            Some(i) => {
                proof {
                    mapping_without(before, i + 1, key@);
                    assert(before.take(i + 1).drop_last() =~= before.take(i as int));
                    mapping_remove(before, i as int);
                }
                let (_, v) = self.entries.remove(i);
                self.remove(key);
                Some(v)
            },
            None => {
                proof {
                    mapping_without(before, 0, key@);
                    assert(self@.remove(key@) =~= self@);
                }
                None
            },
        }
    }

    /// The keys, in order, each once.
    pub fn keys(&self) -> (r: Vec<String>)
        ensures
            text::ascending(text::texts(r@)),
            text::texts(r@).to_set() == self@.dom(),
            text::texts(r@) == text::sorted(self@.dom()),
    {
        let mut out: Vec<String> = Vec::new();
        let mut i: usize = 0;
        assert(text::texts(out@).to_set() =~= mapping(self.entries@.take(0)).dom());
        while i < self.entries.len()
            invariant
                i <= self.entries@.len(),
                text::ascending(text::texts(out@)),
                text::texts(out@).to_set() == mapping(self.entries@.take(i as int)).dom(),
            decreases self.entries@.len() - i,
        {
            insert_ascending(&mut out, self.entries[i].0.clone());
            assert(self.entries@.take(i + 1).drop_last() =~= self.entries@.take(i as int));
            i += 1;
            assert(text::texts(out@).to_set() =~= mapping(self.entries@.take(i as int)).dom());
        }
        assert(self.entries@.take(i as int) =~= self.entries@);
        proof {
            text::ascending_is_unique(text::texts(out@), text::sorted(self@.dom()));
        }
        out
    }

    /// Whether there is no entry.
    pub fn is_empty(&self) -> (r: bool)
        ensures
            r == (self@.dom() =~= Set::<Seq<char>>::empty()),
    {
        let r = self.entries.len() == 0;
        proof {
            if self.entries@.len() > 0 {
                mapping_keys(self.entries@, self.entries@[0].0@);
                assert(self@.dom().contains(self.entries@[0].0@));
            }
        }
        r
    }
}

impl Table<String> {
    /// A copy.
    pub fn copy(&self) -> (r: Table<String>)
        ensures
            r@ == self@,
    {
        let mut out: Vec<(String, String)> = Vec::new();
        let mut i: usize = 0;
        while i < self.entries.len()
            invariant
                i <= self.entries@.len(),
                out@ =~= self.entries@.take(i as int),
            decreases self.entries@.len() - i,
        {
            out.push((self.entries[i].0.clone(), self.entries[i].1.clone()));
            i += 1;
        }
        assert(out@ =~= self.entries@);
        Table { entries: out }
    }
}

} // verus!
