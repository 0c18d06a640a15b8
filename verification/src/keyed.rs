//! A map from the names of objects to values.

use vstd::prelude::*;
use crate::resource::{KeyView, ResourceKey};
use crate::text::{self, less, same};

verus! {

// ---- the order of keys ---------------------------------------------------------------------

/// The parts of a key, in the order in which they count. An object that lives in no namespace
/// comes before those that live in one.
pub open spec fn parts(k: KeyView) -> Seq<Seq<char>> {
    seq![
        k.group,
        k.version,
        k.kind,
        match k.namespace {
            Some(ns) => seq!['/'] + ns,
            None => Seq::empty(),
        },
        k.name,
    ]
}

/// A list comes before another where the first part in which they differ does.
pub open spec fn list_less(a: Seq<Seq<char>>, b: Seq<Seq<char>>) -> bool
    decreases a.len(),
{
    if b.len() == 0 {
        false
    } else if a.len() == 0 {
        true
    } else if a[0] == b[0] {
        list_less(a.skip(1), b.skip(1))
    } else {
        text::lex_less(a[0], b[0])
    }
}

/// The order of keys.
pub open spec fn key_less(a: KeyView, b: KeyView) -> bool {
    list_less(parts(a), parts(b))
}

proof fn list_less_transitive(a: Seq<Seq<char>>, b: Seq<Seq<char>>, c: Seq<Seq<char>>)
    requires
        list_less(a, b),
        list_less(b, c),
    ensures
        list_less(a, c),
    decreases a.len(),
{
    if a.len() > 0 && b.len() > 0 && c.len() > 0 {
        if a[0] == b[0] && b[0] == c[0] {
            list_less_transitive(a.skip(1), b.skip(1), c.skip(1));
        } else if a[0] != b[0] && b[0] != c[0] {
            text::lex_less_transitive(a[0], b[0], c[0]);
            text::lex_less_irreflexive(a[0]);
        }
    }
}

proof fn list_less_total(a: Seq<Seq<char>>, b: Seq<Seq<char>>)
    ensures
        a == b || list_less(a, b) || list_less(b, a),
    decreases a.len(),
{
    if a.len() == 0 || b.len() == 0 {
        assert(a.len() == b.len() ==> a =~= b);
    } else if a[0] == b[0] {
        list_less_total(a.skip(1), b.skip(1));
        if a.skip(1) == b.skip(1) {
            assert(a =~= seq![a[0]] + a.skip(1));
            assert(b =~= seq![b[0]] + b.skip(1));
        }
    } else {
        text::lex_less_total(a[0], b[0]);
    }
}

proof fn parts_tell_keys_apart(a: KeyView, b: KeyView)
    requires
        parts(a) == parts(b),
    ensures
        a == b,
{
    assert(parts(a)[0] == parts(b)[0]);
    assert(parts(a)[1] == parts(b)[1]);
    assert(parts(a)[2] == parts(b)[2]);
    assert(parts(a)[3] == parts(b)[3]);
    assert(parts(a)[4] == parts(b)[4]);
    match (a.namespace, b.namespace) {
        (Some(x), Some(y)) => {
            assert((seq!['/'] + x).skip(1) =~= x);
            assert((seq!['/'] + y).skip(1) =~= y);
        },
        _ => {},
    }
}

proof fn key_less_unfolds(a: KeyView, b: KeyView)
    ensures
        key_less(a, b) == (if a.group != b.group {
            text::lex_less(a.group, b.group)
        } else if a.version != b.version {
            text::lex_less(a.version, b.version)
        } else if a.kind != b.kind {
            text::lex_less(a.kind, b.kind)
        } else if a.namespace != b.namespace {
            match (a.namespace, b.namespace) {
                (Some(x), Some(y)) => text::lex_less(x, y),
                (None, Some(_)) => true,
                _ => false,
            }
        } else {
            text::lex_less(a.name, b.name)
        }),
{
    reveal_with_fuel(list_less, 6);
    let p = parts(a);
    let q = parts(b);
    assert(p.skip(1).skip(1) =~= p.skip(2) && q.skip(1).skip(1) =~= q.skip(2));
    assert(p.skip(2).skip(1) =~= p.skip(3) && q.skip(2).skip(1) =~= q.skip(3));
    assert(p.skip(3).skip(1) =~= p.skip(4) && q.skip(3).skip(1) =~= q.skip(4));
    assert(p.skip(4).skip(1) =~= p.skip(5) && q.skip(4).skip(1) =~= q.skip(5));
    match (a.namespace, b.namespace) {
        (Some(x), Some(y)) => {
            let s = seq!['/'] + x;
            let t = seq!['/'] + y;
            assert(s.skip(1) =~= x && t.skip(1) =~= y);
            assert(s[0] == t[0]);
        },
        _ => {},
    }
    text::lex_less_irreflexive(a.name);
}

fn before(a: &ResourceKey, b: &ResourceKey) -> (r: bool)
    ensures
        r == key_less(a@, b@),
{
    proof {
        key_less_unfolds(a@, b@);
    }
    if !same(a.group.as_str(), b.group.as_str()) {
        return less(a.group.as_str(), b.group.as_str());
    }
    if !same(a.version.as_str(), b.version.as_str()) {
        return less(a.version.as_str(), b.version.as_str());
    }
    if !same(a.kind.as_str(), b.kind.as_str()) {
        return less(a.kind.as_str(), b.kind.as_str());
    }
    match (&a.namespace, &b.namespace) {
        (Some(x), Some(y)) => if !same(x.as_str(), y.as_str()) {
            return less(x.as_str(), y.as_str());
        },
        (None, Some(_)) => {
            return true;
        },
        (Some(_), None) => {
            return false;
        },
        (None, None) => {},
    }
    less(a.name.as_str(), b.name.as_str())
}

/// What a list of keys stands for.
pub open spec fn key_views(v: Seq<ResourceKey>) -> Seq<KeyView> {
    v.map_values(|k: ResourceKey| k@)
}

/// Each key of the list comes before every later one: the list is in order and holds nothing
/// twice.
pub open spec fn ascending(v: Seq<KeyView>) -> bool {
    forall|i: int, j: int| 0 <= i < j < v.len() ==> #[trigger] key_less(v[i], v[j])
}

/// The keys of a set, in order.
pub open spec fn sorted(s: Set<KeyView>) -> Seq<KeyView> {
    choose|v: Seq<KeyView>| ascending(v) && v.to_set() == s
}

proof fn list_less_irreflexive(a: Seq<Seq<char>>)
    ensures
        !list_less(a, a),
    decreases a.len(),
{
    if a.len() > 0 {
        list_less_irreflexive(a.skip(1));
    }
}

/// There is one list of a set's keys in order.
pub proof fn ascending_is_unique(a: Seq<KeyView>, b: Seq<KeyView>)
    requires
        ascending(a),
        ascending(b),
        a.to_set() == b.to_set(),
    ensures
        a == b,
    decreases a.len(),
{
    if a.len() == 0 {
        if b.len() > 0 {
            assert(b.to_set().contains(b[0]));
            assert(a.to_set().contains(b[0]));
        }
        assert(a =~= b);
    } else {
        assert(a.to_set().contains(a[0]));
        assert(b.to_set().contains(a[0]));
        assert(b.len() > 0);
        let x = a.last();
        let y = b.last();
        assert(a[a.len() - 1] == x && b[b.len() - 1] == y);
        assert(a.to_set().contains(x) && b.to_set().contains(y));
        let j = choose|j: int| 0 <= j < b.len() && b[j] == x;
        let i = choose|i: int| 0 <= i < a.len() && a[i] == y;
        if x != y {
            assert(key_less(b[j], b[b.len() - 1]));
            assert(key_less(a[i], a[a.len() - 1]));
            list_less_transitive(parts(x), parts(y), parts(x));
            list_less_irreflexive(parts(x));
        }
        let p = a.drop_last();
        let q = b.drop_last();
        without_last(a);
        without_last(b);
        assert(p.to_set() =~= q.to_set());
        ascending_is_unique(p, q);
        assert(a =~= p.push(x));
        assert(b =~= q.push(y));
    }
}

proof fn without_last(a: Seq<KeyView>)
    requires
        ascending(a),
        a.len() > 0,
    ensures
        ascending(a.drop_last()),
        a.drop_last().to_set() == a.to_set().remove(a.last()),
{
    let p = a.drop_last();
    assert forall|i: int, j: int| 0 <= i < j < p.len() implies #[trigger] key_less(p[i], p[j]) by {
        assert(p[i] == a[i] && p[j] == a[j]);
    }
    assert forall|x: KeyView| p.to_set().contains(x) <==> a.to_set().remove(
        a.last(),
    ).contains(x) by {
        if p.to_set().contains(x) {
            let i = choose|i: int| 0 <= i < p.len() && p[i] == x;
            assert(a[i] == x);
            assert(key_less(a[i], a[a.len() - 1]));
            list_less_irreflexive(parts(x));
        }
        if a.to_set().remove(a.last()).contains(x) {
            let i = choose|i: int| 0 <= i < a.len() && a[i] == x;
            assert(p[i] == x);
        }
    }
    assert(p.to_set() =~= a.to_set().remove(a.last()));
}

/// The keys of a list up to and with one are those before it, and that one.
pub proof fn one_more_key(all: Seq<KeyView>, i: int)
    requires
        0 <= i < all.len(),
    ensures
        all.take(i + 1).to_set() == all.take(i).to_set().insert(all[i]),
{
    let p = all.take(i + 1);
    assert forall|x: KeyView| p.to_set().contains(x) <==> all.take(i).to_set().insert(
        all[i],
    ).contains(x) by {
        if all.take(i).contains(x) {
            let k = choose|k: int| 0 <= k < i && all.take(i)[k] == x;
            assert(p[k] == x);
        }
        if x == all[i] {
            assert(p[i] == x);
        }
        if p.contains(x) {
            let k = choose|k: int| 0 <= k < i + 1 && p[k] == x;
            if k < i {
                assert(all.take(i)[k] == x);
            }
        }
    }
    assert(p.to_set() =~= all.take(i).to_set().insert(all[i]));
}


/// Puts a key into an ascending list, where it is not in it yet.
pub fn insert_key(v: &mut Vec<ResourceKey>, k: ResourceKey)
    requires
        ascending(key_views(old(v)@)),
    ensures
        ascending(key_views(final(v)@)),
        key_views(final(v)@).to_set() == key_views(old(v)@).to_set().insert(k@),
{
    let ghost was = key_views(v@);
    let mut i: usize = 0;
    while i < v.len() && before(&v[i], &k)
        invariant
            i <= v@.len(),
            key_views(v@) == was,
            forall|j: int| 0 <= j < i ==> #[trigger] key_less(was[j], k@),
        decreases v@.len() - i,
    {
        i += 1;
    }
    if i < v.len() && v[i].same(&k) {
        assert(was[i as int] == k@);
        assert(was.to_set().insert(k@) =~= was.to_set());
    } else {
        let ghost new = was.insert(i as int, k@);
        proof {
            if i < v@.len() {
                list_less_total(parts(was[i as int]), parts(k@));
                if parts(was[i as int]) == parts(k@) {
                    parts_tell_keys_apart(was[i as int], k@);
                }
                assert(key_less(k@, was[i as int]));
            }
            assert forall|a: int, b: int| 0 <= a < b < new.len() implies #[trigger] key_less(
                new[a],
                new[b],
            ) by {
                if b == i {
                    assert(key_less(was[a], k@));
                } else if a == i {
                    if b - 1 > i {
                        assert(key_less(was[i as int], was[b - 1]));
                        list_less_transitive(
                            parts(k@),
                            parts(was[i as int]),
                            parts(was[b - 1]),
                        );
                    }
                } else {
                    let x = if a < i {
                        a
                    } else {
                        a - 1
                    };
                    let y = if b < i {
                        b
                    } else {
                        b - 1
                    };
                    assert(key_less(was[x], was[y]));
                }
            }
            assert(new.to_set() =~= was.to_set().insert(k@)) by {
                assert forall|x: KeyView| new.contains(x) <==> was.contains(x) || x == k@ by {
                    if was.contains(x) {
                        let j = choose|j: int| 0 <= j < was.len() && was[j] == x;
                        assert(new[if j < i {
                            j
                        } else {
                            j + 1
                        }] == x);
                    }
                    if x == k@ {
                        assert(new[i as int] == x);
                    }
                    if new.contains(x) {
                        let j = choose|j: int| 0 <= j < new.len() && new[j] == x;
                        if j < i {
                            assert(was[j] == x);
                        } else if j > i {
                            assert(was[j - 1] == x);
                        }
                    }
                }
            }
        }
        v.insert(i, k);
        assert(key_views(v@) =~= new);
    }
}

// ---- the map -------------------------------------------------------------------------------

/// A map whose keys are the names of objects.
#[derive(Debug)]
pub struct KeyTable<V> {
    entries: Vec<(ResourceKey, V)>,
}

/// What a list of entries stands for: of two entries with one key, the later one counts.
pub open spec fn mapping<V>(s: Seq<(ResourceKey, V)>) -> Map<KeyView, V>
    decreases s.len(),
{
    if s.len() == 0 {
        Map::empty()
    } else {
        mapping(s.drop_last()).insert(s.last().0@, s.last().1)
    }
}

proof fn mapping_without<V>(s: Seq<(ResourceKey, V)>, n: int, key: KeyView)
    requires
        0 <= n <= s.len(),
        forall|j: int| n <= j < s.len() ==> s[j].0@ != key,
    ensures
        mapping(s).dom().contains(key) == mapping(s.take(n)).dom().contains(key),
        mapping(s).dom().contains(key) ==> mapping(s)[key] == mapping(s.take(n))[key],
    decreases s.len(),
{
    if n < s.len() {
        assert(s.drop_last().take(n) =~= s.take(n));
        mapping_without(s.drop_last(), n, key);
    } else {
        assert(s.take(n) =~= s);
    }
}

proof fn mapping_update<V>(s: Seq<(ResourceKey, V)>, i: int, key: ResourceKey, v: V)
    requires
        0 <= i < s.len(),
        s[i].0@ == key@,
        forall|j: int| i < j < s.len() ==> s[j].0@ != key@,
    ensures
        mapping(s.update(i, (key, v))) == mapping(s).insert(key@, v),
    decreases s.len(),
{
    let new = s.update(i, (key, v));
    if i == s.len() - 1 {
        assert(new.drop_last() =~= s.drop_last());
    } else {
        assert(new.drop_last() =~= s.drop_last().update(i, (key, v)));
        mapping_update(s.drop_last(), i, key, v);
    }
    assert(mapping(new) =~= mapping(s).insert(key@, v));
}

proof fn mapping_remove<V>(s: Seq<(ResourceKey, V)>, i: int)
    requires
        0 <= i < s.len(),
        forall|j: int| i < j < s.len() ==> s[j].0@ != s[i].0@,
    ensures
        mapping(s.remove(i)).remove(s[i].0@) == mapping(s).remove(s[i].0@),
    decreases s.len(),
{
    let new = s.remove(i);
    let key = s[i].0@;
    if i == s.len() - 1 {
        assert(new =~= s.drop_last());
    } else {
        assert(new.drop_last() =~= s.drop_last().remove(i));
        mapping_remove(s.drop_last(), i);
        assert(s.drop_last()[i] == s[i]);
        assert(new.last() == s.last());
        let m = mapping(new.drop_last());
        let o = mapping(s.drop_last());
        assert(mapping(new).remove(key) =~= m.remove(key).insert(s.last().0@, s.last().1));
        assert(mapping(s).remove(key) =~= o.remove(key).insert(s.last().0@, s.last().1));
    }
    assert(mapping(new).remove(key) =~= mapping(s).remove(key));
}

/// The keys of a mapping are those of the entries.
proof fn mapping_keys<V>(s: Seq<(ResourceKey, V)>, key: KeyView)
    ensures
        mapping(s).dom().contains(key) <==> exists|i: int|
            0 <= i < s.len() && (#[trigger] s[i]).0@ == key,
    decreases s.len(),
{
    if s.len() > 0 {
        let t = s.drop_last();
        mapping_keys(t, key);
        if mapping(t).dom().contains(key) {
            let i = choose|i: int| 0 <= i < t.len() && (#[trigger] t[i]).0@ == key;
            assert(s[i] == t[i]);
        }
        if exists|i: int| 0 <= i < s.len() && (#[trigger] s[i]).0@ == key {
            let i = choose|i: int| 0 <= i < s.len() && (#[trigger] s[i]).0@ == key;
            if i < t.len() {
                assert(t[i] == s[i]);
            }
        }
        if s.last().0@ == key {
            assert(s[s.len() - 1].0@ == key);
        }
    }
}

impl<V> View for KeyTable<V> {
    type V = Map<KeyView, V>;

    closed spec fn view(&self) -> Map<KeyView, V> {
        mapping(self.entries@)
    }
}

impl<V> KeyTable<V> {
    /// A table without entries.
    pub fn new() -> (r: KeyTable<V>)
        ensures
            r@ == Map::<KeyView, V>::empty(),
    {
        KeyTable { entries: Vec::new() }
    }

    fn last(&self, key: &ResourceKey) -> (r: Option<usize>)
        ensures
            match r {
                Some(i) => i < self.entries@.len() && self.entries@[i as int].0@ == key@ && forall|
                    j: int,
                |
                    i < j < self.entries@.len() ==> self.entries@[j].0@ != key@,
                None => forall|j: int|
                    0 <= j < self.entries@.len() ==> self.entries@[j].0@ != key@,
            },
    {
        let mut i: usize = self.entries.len();
        while i > 0
            invariant
                i <= self.entries@.len(),
                forall|j: int| i <= j < self.entries@.len() ==> self.entries@[j].0@ != key@,
            decreases i,
        {
            i -= 1;
            if self.entries[i].0.same(key) {
                return Some(i);
            }
        }
        None
    }

    /// The value of `key`, where it has one.
    pub fn get(&self, key: &ResourceKey) -> (r: Option<&V>)
        ensures
            match r {
                Some(v) => self@.dom().contains(key@) && self@[key@] == *v,
                None => !self@.dom().contains(key@),
            },
    {
        match self.last(key) {
            Some(i) => {
                proof {
                    mapping_without(self.entries@, i + 1, key@);
                    assert(self.entries@.take(i + 1).drop_last() =~= self.entries@.take(i as int));
                }
                Some(&self.entries[i].1)
            },
            None => {
                proof {
                    mapping_without(self.entries@, 0, key@);
                }
                None
            },
        }
    }

    /// Whether `key` has a value.
    pub fn contains_key(&self, key: &ResourceKey) -> (r: bool)
        ensures
            r == self@.dom().contains(key@),
    {
        self.get(key).is_some()
    }

    /// Gives `key` the value `v`.
    pub fn insert(&mut self, key: &ResourceKey, v: V)
        ensures
            final(self)@ == old(self)@.insert(key@, v),
    {
        let k = key.copy();
        let ghost before = self.entries@;
        match self.last(key) {
            Some(i) => {
                proof {
                    mapping_update(before, i as int, k, v);
                }
                self.entries.set(i, (k, v));
            },
            None => {
                self.entries.push((k, v));
                assert(self.entries@.drop_last() =~= before);
            },
        }
    }

    /// Takes `key` out.
    pub fn remove(&mut self, key: &ResourceKey)
        ensures
            final(self)@ == old(self)@.remove(key@),
    {
        loop
            invariant
                self@.remove(key@) == old(self)@.remove(key@),
            decreases self.entries@.len(),
        {
            match self.last(key) {
                Some(i) => {
                    proof {
                        mapping_remove(self.entries@, i as int);
                    }
                    self.entries.remove(i);
                },
                None => {
                    proof {
                        mapping_without(self.entries@, 0, key@);
                        assert(self@.remove(key@) =~= self@);
                    }
                    return ;
                },
            }
        }
    }

    /// Takes `key` out and hands back its value.
    pub fn take(&mut self, key: &ResourceKey) -> (r: Option<V>)
        ensures
            final(self)@ == old(self)@.remove(key@),
            match r {
                Some(v) => old(self)@.dom().contains(key@) && old(self)@[key@] == v,
                None => !old(self)@.dom().contains(key@),
            },
    {
        let ghost before = self.entries@;
        match self.last(key) {
            Some(i) => {
                proof {
                    mapping_without(before, i + 1, key@);
                    assert(before.take(i + 1).drop_last() =~= before.take(i as int));
                    mapping_remove(before, i as int);
                }
                let (_, v) = self.entries.remove(i);
                self.remove(key);
                Some(v)
            },
            None => {
                proof {
                    mapping_without(before, 0, key@);
                    assert(self@.remove(key@) =~= self@);
                }
                None
            },
        }
    }

    /// The keys, in order, each once.
    pub fn keys(&self) -> (r: Vec<ResourceKey>)
        ensures
            ascending(key_views(r@)),
            key_views(r@).to_set() == self@.dom(),
            key_views(r@) == sorted(self@.dom()),
    {
        let mut out: Vec<ResourceKey> = Vec::new();
        let mut i: usize = 0;
        assert(key_views(out@).to_set() =~= mapping(self.entries@.take(0)).dom());
        while i < self.entries.len()
            invariant
                i <= self.entries@.len(),
                ascending(key_views(out@)),
                key_views(out@).to_set() == mapping(self.entries@.take(i as int)).dom(),
            decreases self.entries@.len() - i,
        {
            insert_key(&mut out, self.entries[i].0.copy());
            assert(self.entries@.take(i + 1).drop_last() =~= self.entries@.take(i as int));
            i += 1;
            assert(key_views(out@).to_set() =~= mapping(self.entries@.take(i as int)).dom());
        }
        assert(self.entries@.take(i as int) =~= self.entries@);
        proof {
            ascending_is_unique(key_views(out@), sorted(self@.dom()));
        }
        out
    }

    /// Whether there is no entry.
    pub fn is_empty(&self) -> (r: bool)
        ensures
            r == (self@.dom() =~= Set::<KeyView>::empty()),
    {
        let r = self.entries.len() == 0;
        proof {
            if self.entries@.len() > 0 {
                mapping_keys(self.entries@, self.entries@[0].0@);
                assert(self@.dom().contains(self.entries@[0].0@));
            }
        }
        r
    }
}

} // verus!
