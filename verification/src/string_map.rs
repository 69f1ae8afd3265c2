//! Maps from text to text, as labels, annotations and node selectors are:
//! each key at most once, entries kept in ascending key order, as a
//! `BTreeMap` keeps them.
use std::collections::BTreeMap;
use vstd::prelude::*;

use crate::text::{
    is_text_less, lemma_text_less_asymmetric, lemma_text_less_total, lemma_text_less_transitive,
    str_eq, text_less,
};

verus! {

pub type Entries = Seq<(Seq<char>, Seq<char>)>;

pub open spec fn keys_distinct(s: Entries) -> bool {
    forall|i: int, j: int| 0 <= i < j < s.len() ==> s[i].0 != s[j].0
}

/// The map that a list of entries with distinct keys holds.
pub open spec fn map_of_entries(s: Entries) -> Map<Seq<char>, Seq<char>>
    decreases s.len(),
{
    if s.len() == 0 {
        Map::empty()
    } else {
        map_of_entries(s.drop_last()).insert(s.last().0, s.last().1)
    }
}

pub open spec fn entry_views(v: Seq<(String, String)>) -> Entries {
    v.map_values(|e: (String, String)| (e.0@, e.1@))
}

/// What a list of distinct-key entries maps each key to.
pub proof fn lemma_map_of_entries(s: Entries)
    requires
        keys_distinct(s),
    ensures
        map_of_entries(s).dom().finite(),
        map_of_entries(s).len() == s.len(),
        forall|k: Seq<char>| #[trigger]
            map_of_entries(s).contains_key(k) <==> exists|i: int| 0 <= i < s.len() && s[i].0 == k,
        forall|i: int| 0 <= i < s.len() ==> #[trigger] map_of_entries(s)[s[i].0] == s[i].1,
    decreases s.len(),
{
    if s.len() > 0 {
        let t = s.drop_last();
        assert(keys_distinct(t));
        lemma_map_of_entries(t);
        let m = map_of_entries(t);
        assert(!m.contains_key(s.last().0)) by {
            if m.contains_key(s.last().0) {
                let i = choose|i: int| 0 <= i < t.len() && t[i].0 == s.last().0;
                assert(s[i].0 == s[s.len() - 1].0);
            }
        }
        assert forall|k: Seq<char>| #[trigger]
            map_of_entries(s).contains_key(k) implies exists|i: int|
                0 <= i < s.len() && s[i].0 == k by {
            if k != s.last().0 {
                let i = choose|i: int| 0 <= i < t.len() && t[i].0 == k;
                assert(s[i].0 == k);
            } else {
                assert(s[s.len() - 1].0 == k);
            }
        }
        assert forall|i: int| 0 <= i < s.len() implies #[trigger] map_of_entries(s)[s[i].0]
            == s[i].1 by {
            if i < s.len() - 1 {
                assert(t[i] == s[i]);
                assert(s[i].0 != s.last().0);
            }
        }
        assert forall|k: Seq<char>|
            (exists|i: int| 0 <= i < s.len() && s[i].0 == k) implies #[trigger]
            map_of_entries(s).contains_key(k) by {
            let i = choose|i: int| 0 <= i < s.len() && s[i].0 == k;
            if i < s.len() - 1 {
                assert(t[i] == s[i]);
            }
        }
    }
}

/// Each key comes before the next in the order of texts.
pub open spec fn keys_ascending(s: Entries) -> bool {
    forall|i: int, j: int| #![trigger s[i], s[j]] 0 <= i < j < s.len() ==> text_less(s[i].0, s[j].0)
}

/// The entries of a map in ascending key order.
pub open spec fn ascending_entries(m: Map<Seq<char>, Seq<char>>) -> Entries {
    choose|es: Entries| keys_ascending(es) && map_of_entries(es) == m
}

/// Keys in ascending order are distinct.
pub proof fn lemma_ascending_keys_distinct(s: Entries)
    requires
        keys_ascending(s),
    ensures
        keys_distinct(s),
{
    assert forall|i: int, j: int| 0 <= i < j < s.len() implies s[i].0 != s[j].0 by {
        assert(text_less(s[i].0, s[j].0));
        lemma_text_less_asymmetric(s[i].0, s[j].0);
    }
}

/// Without its last entry, a list of distinct-key entries holds the map
/// without the last key.
proof fn lemma_map_of_entries_drop_last(s: Entries)
    requires
        keys_distinct(s),
        s.len() > 0,
    ensures
        keys_distinct(s.drop_last()),
        map_of_entries(s.drop_last()) == map_of_entries(s).remove(s.last().0),
{
    let t = s.drop_last();
    assert(keys_distinct(t));
    lemma_map_of_entries(t);
    assert(!map_of_entries(t).contains_key(s.last().0)) by {
        if map_of_entries(t).contains_key(s.last().0) {
            let i = choose|i: int| 0 <= i < t.len() && t[i].0 == s.last().0;
            assert(s[i].0 == s[s.len() - 1].0);
        }
    }
    assert(map_of_entries(t) =~= map_of_entries(s).remove(s.last().0));
}

/// A map has a single list of entries in ascending key order.
pub proof fn lemma_ascending_entries_unique(s: Entries, t: Entries)
    requires
        keys_ascending(s),
        keys_ascending(t),
        map_of_entries(s) == map_of_entries(t),
    ensures
        s == t,
    decreases s.len(),
{
    lemma_ascending_keys_distinct(s);
    lemma_ascending_keys_distinct(t);
    lemma_map_of_entries(s);
    lemma_map_of_entries(t);
    if s.len() == 0 {
        assert(s =~= t);
    } else {
        let n = s.len() - 1;
        let ks = s[n].0;
        let kt = t[n].0;
        assert(map_of_entries(s).contains_key(ks));
        assert(map_of_entries(t).contains_key(kt));
        let j = choose|j: int| 0 <= j < t.len() && t[j].0 == ks;
        let i = choose|i: int| 0 <= i < s.len() && s[i].0 == kt;
        if ks != kt {
            assert(text_less(t[j].0, t[n].0));
            assert(text_less(s[i].0, s[n].0));
            lemma_text_less_asymmetric(ks, kt);
        }
        assert(ks == kt);
        assert(map_of_entries(s)[s[n].0] == s[n].1);
        assert(map_of_entries(t)[t[n].0] == t[n].1);
        assert(s[n] == t[n]);
        lemma_map_of_entries_drop_last(s);
        lemma_map_of_entries_drop_last(t);
        assert(keys_ascending(s.drop_last()));
        assert(keys_ascending(t.drop_last()));
        lemma_ascending_entries_unique(s.drop_last(), t.drop_last());
        assert forall|k: int| 0 <= k < s.len() implies s[k] == t[k] by {
            if k < n {
                assert(s[k] == s.drop_last()[k]);
                assert(t[k] == t.drop_last()[k]);
            }
        }
        assert(s =~= t);
    }
}

/// The entries of a map in ascending key order are those of any ascending
/// list of entries that holds it.
pub proof fn lemma_ascending_entries_of(s: Entries)
    requires
        keys_ascending(s),
    ensures
        ascending_entries(map_of_entries(s)) == s,
{
    let m = map_of_entries(s);
    assert(keys_ascending(s) && map_of_entries(s) == m);
    let es = ascending_entries(m);
    lemma_ascending_entries_unique(es, s);
}

/// Entries with a new entry placed among them hold the map with that entry.
proof fn lemma_map_of_entries_insert(s: Entries, p: int, e: (Seq<char>, Seq<char>))
    requires
        keys_distinct(s),
        0 <= p <= s.len(),
        !map_of_entries(s).contains_key(e.0),
    ensures
        keys_distinct(s.insert(p, e)),
        map_of_entries(s.insert(p, e)) == map_of_entries(s).insert(e.0, e.1),
{
    let u = s.insert(p, e);
    s.insert_ensures(p, e);
    lemma_map_of_entries(s);
    assert forall|i: int| 0 <= i < s.len() implies s[i].0 != e.0 by {
        if s[i].0 == e.0 {
            assert(map_of_entries(s).contains_key(s[i].0));
        }
    }
    assert forall|a: int, b: int| 0 <= a < b < u.len() implies u[a].0 != u[b].0 by {
        if b < p {
            assert(s[a].0 != s[b].0);
        } else if b == p {
            assert(s[a].0 != e.0);
        } else if a < p {
            assert(u[b] == s[b - 1]);
            assert(s[a].0 != s[b - 1].0);
        } else if a == p {
            assert(u[b] == s[b - 1]);
        } else {
            assert(u[a] == s[a - 1]);
            assert(u[b] == s[b - 1]);
            assert(s[a - 1].0 != s[b - 1].0);
        }
    }
    lemma_map_of_entries(u);
    let m = map_of_entries(s).insert(e.0, e.1);
    assert forall|k: Seq<char>| #[trigger] map_of_entries(u).contains_key(k) <==> m.contains_key(k) by {
        if map_of_entries(u).contains_key(k) {
            let j = choose|j: int| 0 <= j < u.len() && u[j].0 == k;
            if j < p {
                assert(s[j].0 == k);
            } else if j > p {
                assert(u[j] == s[j - 1]);
                assert(s[j - 1].0 == k);
            }
        }
        if map_of_entries(s).contains_key(k) {
            let j = choose|j: int| 0 <= j < s.len() && s[j].0 == k;
            if j < p {
                assert(u[j].0 == k);
            } else {
                assert(u[j + 1] == s[j]);
                assert(u[j + 1].0 == k);
            }
        }
        if k == e.0 {
            assert(u[p].0 == k);
        }
    }
    assert forall|k: Seq<char>| #[trigger] map_of_entries(u).contains_key(k) implies map_of_entries(u)[k]
        == m[k] by {
        let j = choose|j: int| 0 <= j < u.len() && u[j].0 == k;
        if j < p {
            assert(u[j] == s[j]);
        } else if j > p {
            assert(u[j] == s[j - 1]);
        }
    }
    assert(map_of_entries(u) =~= m);
}

/// A map from text to text.
pub struct StringMap {
    entries: Vec<(String, String)>,
}

impl View for StringMap {
    type V = Map<Seq<char>, Seq<char>>;

    closed spec fn view(&self) -> Map<Seq<char>, Seq<char>> {
        map_of_entries(self.entries_view())
    }
}

impl StringMap {
    #[verifier::type_invariant]
    spec fn inv(self) -> bool {
        &&& keys_distinct(entry_views(self.entries@))
        &&& keys_ascending(entry_views(self.entries@))
    }

    /// The entries in ascending key order.
    pub closed spec fn entries_view(&self) -> Entries {
        entry_views(self.entries@)
    }

    /// The empty map.
    pub fn new() -> (r: StringMap)
        ensures
            r@ == Map::<Seq<char>, Seq<char>>::empty(),
            r.entries_view() == Seq::<(Seq<char>, Seq<char>)>::empty(),
    {
        let r = StringMap { entries: Vec::new() };
        assert(r.entries_view() =~= Seq::<(Seq<char>, Seq<char>)>::empty());
        r
    }

    /// The number of entries.
    pub fn len(&self) -> (r: usize)
        ensures
            r == self@.len(),
            r == self.entries_view().len(),
    {
        proof {
            use_type_invariant(self);
            lemma_map_of_entries(self.entries_view());
        }
        self.entries.len()
    }

    /// The entries in ascending key order.
    pub fn entries(&self) -> (r: &Vec<(String, String)>)
        ensures
            entry_views(r@) == self.entries_view(),
            entry_views(r@) == ascending_entries(self@),
            keys_ascending(entry_views(r@)),
            map_of_entries(entry_views(r@)) == self@,
    {
        proof {
            use_type_invariant(self);
            lemma_ascending_entries_of(self.entries_view());
        }
        &self.entries
    }

    /// The position of `key` among the entries.
    #[verifier::loop_isolation(false)]
    fn position(&self, key: &str) -> (r: Option<usize>)
        ensures
            r is None <==> !self@.contains_key(key@),
            r matches Some(i) ==> i < self.entries_view().len() && self.entries_view()[i as int].0
                == key@,
    {
        proof {
            use_type_invariant(self);
            lemma_map_of_entries(self.entries_view());
        }
        let mut i: usize = 0;
        while i < self.entries.len()
            invariant
                i <= self.entries@.len(),
                forall|j: int| 0 <= j < i ==> self.entries_view()[j].0 != key@,
            decreases self.entries@.len() - i,
        {
            if str_eq(self.entries[i].0.as_str(), key) {
                assert(self.entries_view()[i as int].0 == key@);
                assert(self@.contains_key(key@));
                return Some(i);
            }
            i = i + 1;
        }
        None
    }

    /// The value of `key`, if the map holds it.
    pub fn get(&self, key: &str) -> (r: Option<&String>)
        ensures
            r is Some <==> self@.contains_key(key@),
            r matches Some(v) ==> v@ == self@[key@],
    {
        proof {
            use_type_invariant(self);
            lemma_map_of_entries(self.entries_view());
        }
        match self.position(key) {
            Some(i) => Some(&self.entries[i].1),
            None => None,
        }
    }

    /// Whether the map holds `key`.
    pub fn contains_key(&self, key: &str) -> (r: bool)
        ensures
            r == self@.contains_key(key@),
    {
        self.position(key).is_some()
    }

    /// Sets `key` to `value`: an entry that holds `key` keeps its place,
    /// a new key takes its place in key order.
    pub fn insert(&mut self, key: String, value: String)
        ensures
            final(self)@ == old(self)@.insert(key@, value@),
    {
        proof {
            use_type_invariant(&*self);
            lemma_map_of_entries(self.entries_view());
        }
        let ghost old_entries = self.entries_view();
        match self.position(key.as_str()) {
            Some(i) => {
                let ghost kv = key@;
                let ghost vv = value@;
                let mut entries: Vec<(String, String)> = Vec::new();
                std::mem::swap(&mut entries, &mut self.entries);
                entries.set(i, (key, value));
                assert(entry_views(entries@) =~= old_entries.update(i as int, (kv, vv)));
                proof {
                    assert forall|a: int, b: int| 0 <= a < b < entry_views(entries@).len()
                        implies entry_views(entries@)[a].0 != entry_views(entries@)[b].0 by {
                        assert(old_entries[a].0 != old_entries[b].0);
                    }
                }
                self.entries = entries;
                assert(self.entries_view() =~= old_entries.update(i as int, (kv, vv)));
                proof {
                    assert(keys_ascending(self.entries_view())) by {
                        assert forall|a: int, b: int| 0 <= a < b < self.entries_view().len()
                            implies text_less(self.entries_view()[a].0, self.entries_view()[b].0) by {
                            assert(text_less(old_entries[a].0, old_entries[b].0));
                        }
                    }
                    assert(keys_distinct(self.entries_view())) by {
                        assert forall|a: int, b: int| 0 <= a < b < self.entries_view().len()
                            implies self.entries_view()[a].0 != self.entries_view()[b].0 by {
                            if a != i && b != i {
                                assert(old_entries[a].0 != old_entries[b].0);
                            } else if a == i {
                                assert(old_entries[a].0 != old_entries[b].0);
                            } else {
                                assert(old_entries[a].0 != old_entries[b].0);
                            }
                        }
                    }
                    lemma_map_of_entries(self.entries_view());
                    lemma_map_of_entries(old_entries);
                    assert(self@ =~= map_of_entries(old_entries).insert(kv, vv)) by {
                        assert forall|k: Seq<char>| #[trigger]
                            self@.contains_key(k) <==> map_of_entries(old_entries).insert(
                                kv,
                                vv,
                            ).contains_key(k) by {
                            if self@.contains_key(k) {
                                let j = choose|j: int|
                                    0 <= j < self.entries_view().len()
                                        && self.entries_view()[j].0 == k;
                                if j != i {
                                    assert(old_entries[j].0 == k);
                                }
                            }
                            if map_of_entries(old_entries).contains_key(k) && k != kv {
                                let j = choose|j: int|
                                    0 <= j < old_entries.len() && old_entries[j].0 == k;
                                assert(self.entries_view()[j].0 == k);
                            }
                            if k == kv {
                                assert(self.entries_view()[i as int].0 == k);
                            }
                        }
                        assert forall|k: Seq<char>| #[trigger]
                            self@.contains_key(k) implies self@[k] == map_of_entries(
                                old_entries,
                            ).insert(kv, vv)[k] by {
                            let j = choose|j: int|
                                0 <= j < self.entries_view().len()
                                    && self.entries_view()[j].0 == k;
                            if j != i {
                                assert(old_entries[j] == self.entries_view()[j]);
                            }
                        }
                    }
                }
            },
            None => {
                let ghost kv = key@;
                let ghost vv = value@;
                proof {
                    lemma_map_of_entries(old_entries);
                    assert forall|t: int| 0 <= t < old_entries.len() implies old_entries[t].0 != kv by {
                        if old_entries[t].0 == kv {
                            assert(map_of_entries(old_entries).contains_key(old_entries[t].0));
                        }
                    }
                }
                let mut p: usize = 0;
                while p < self.entries.len() && is_text_less(self.entries[p].0.as_str(), key.as_str())
                    invariant
                        p <= self.entries@.len(),
                        old_entries == entry_views(self.entries@),
                        kv == key@,
                        forall|t: int| 0 <= t < p ==> text_less(#[trigger] old_entries[t].0, kv),
                    decreases self.entries@.len() - p,
                {
                    p = p + 1;
                }
                proof {
                    if p < old_entries.len() {
                        lemma_text_less_total(old_entries[p as int].0, kv);
                        assert forall|t: int| p <= t < old_entries.len() implies text_less(
                            kv,
                            #[trigger] old_entries[t].0,
                        ) by {
                            if t > p {
                                assert(text_less(old_entries[p as int].0, old_entries[t].0));
                                lemma_text_less_transitive(kv, old_entries[p as int].0, old_entries[t].0);
                            }
                        }
                    }
                }
                let mut entries: Vec<(String, String)> = Vec::new();
                std::mem::swap(&mut entries, &mut self.entries);
                entries.insert(p, (key, value));
                let ghost u = old_entries.insert(p as int, (kv, vv));
                proof {
                    old_entries.insert_ensures(p as int, (kv, vv));
                    assert(entry_views(entries@) =~= u);
                    lemma_map_of_entries_insert(old_entries, p as int, (kv, vv));
                    assert forall|a: int, b: int| 0 <= a < b < u.len() implies text_less(
                        #[trigger] u[a].0,
                        #[trigger] u[b].0,
                    ) by {
                        if b < p {
                            assert(text_less(old_entries[a].0, old_entries[b].0));
                        } else if b == p {
                            assert(text_less(old_entries[a].0, kv));
                        } else if a < p {
                            assert(u[b] == old_entries[b - 1]);
                            assert(text_less(old_entries[a].0, old_entries[b - 1].0));
                        } else if a == p {
                            assert(u[b] == old_entries[b - 1]);
                            assert(text_less(kv, old_entries[b - 1].0));
                        } else {
                            assert(u[a] == old_entries[a - 1]);
                            assert(u[b] == old_entries[b - 1]);
                            assert(text_less(old_entries[a - 1].0, old_entries[b - 1].0));
                        }
                    }
                    assert(keys_ascending(entry_views(entries@)));
                }
                self.entries = entries;
            },
        }
    }

    /// Drops `key` from the map; the other entries keep their order.
    pub fn remove(&mut self, key: &str)
        ensures
            final(self)@ == old(self)@.remove(key@),
    {
        proof {
            use_type_invariant(&*self);
            lemma_map_of_entries(self.entries_view());
        }
        let ghost old_entries = self.entries_view();
        match self.position(key) {
            Some(i) => {
                let mut entries: Vec<(String, String)> = Vec::new();
                std::mem::swap(&mut entries, &mut self.entries);
                entries.remove(i);
                assert(entry_views(entries@) =~= old_entries.remove(i as int));
                proof {
                    assert forall|a: int, b: int| 0 <= a < b < entry_views(entries@).len()
                        implies entry_views(entries@)[a].0 != entry_views(entries@)[b].0 by {
                        let a2 = if a < i { a } else { a + 1 };
                        let b2 = if b < i { b } else { b + 1 };
                        assert(old_entries[a2].0 != old_entries[b2].0);
                    }
                }
                self.entries = entries;
                assert(self.entries_view() =~= old_entries.remove(i as int));
                proof {
                    assert(keys_ascending(self.entries_view())) by {
                        assert forall|a: int, b: int| 0 <= a < b < self.entries_view().len()
                            implies text_less(self.entries_view()[a].0, self.entries_view()[b].0) by {
                            let a2 = if a < i { a } else { a + 1 };
                            let b2 = if b < i { b } else { b + 1 };
                            assert(text_less(old_entries[a2].0, old_entries[b2].0));
                        }
                    }
                    assert(keys_distinct(self.entries_view())) by {
                        assert forall|a: int, b: int| 0 <= a < b < self.entries_view().len()
                            implies self.entries_view()[a].0 != self.entries_view()[b].0 by {
                            let a2 = if a < i { a } else { a + 1 };
                            let b2 = if b < i { b } else { b + 1 };
                            assert(old_entries[a2].0 != old_entries[b2].0);
                        }
                    }
                    lemma_map_of_entries(self.entries_view());
                    lemma_map_of_entries(old_entries);
                    assert(self@ =~= map_of_entries(old_entries).remove(key@)) by {
                        assert forall|k: Seq<char>| #[trigger]
                            self@.contains_key(k) <==> map_of_entries(old_entries).remove(
                                key@,
                            ).contains_key(k) by {
                            if self@.contains_key(k) {
                                let j = choose|j: int|
                                    0 <= j < self.entries_view().len()
                                        && self.entries_view()[j].0 == k;
                                if j < i {
                                    assert(old_entries[j].0 == k);
                                } else {
                                    assert(old_entries[j + 1].0 == k);
                                }
                            }
                            if map_of_entries(old_entries).contains_key(k) && k != key@ {
                                let j = choose|j: int|
                                    0 <= j < old_entries.len() && old_entries[j].0 == k;
                                if j < i {
                                    assert(self.entries_view()[j].0 == k);
                                } else {
                                    assert(self.entries_view()[j - 1].0 == k);
                                }
                            }
                        }
                        assert forall|k: Seq<char>| #[trigger]
                            self@.contains_key(k) implies self@[k] == map_of_entries(
                                old_entries,
                            ).remove(key@)[k] by {
                            let j = choose|j: int|
                                0 <= j < self.entries_view().len()
                                    && self.entries_view()[j].0 == k;
                            if j < i {
                                assert(old_entries[j] == self.entries_view()[j]);
                            } else {
                                assert(old_entries[j + 1] == self.entries_view()[j]);
                            }
                        }
                    }
                }
            },
            None => {
                assert(old(self)@.remove(key@) =~= old(self)@);
            },
        }
    }

    /// Whether every key of `self` is a key of `other`.
    #[verifier::loop_isolation(false)]
    pub fn keys_within(&self, other: &StringMap) -> (r: bool)
        ensures
            r == self@.dom().subset_of(other@.dom()),
    {
        proof {
            use_type_invariant(self);
            lemma_map_of_entries(self.entries_view());
        }
        let mut i: usize = 0;
        while i < self.entries.len()
            invariant
                i <= self.entries@.len(),
                forall|j: int| 0 <= j < i ==> other@.contains_key(#[trigger] self.entries_view()[j].0),
            decreases self.entries@.len() - i,
        {
            if !other.contains_key(self.entries[i].0.as_str()) {
                assert(self@.contains_key(self.entries_view()[i as int].0));
                return false;
            }
            i = i + 1;
        }
        proof {
            assert forall|k: Seq<char>| self@.contains_key(k) implies other@.contains_key(k) by {
                let j = choose|j: int|
                    0 <= j < self.entries_view().len() && self.entries_view()[j].0 == k;
            }
        }
        true
    }

    /// Whether the two maps hold the same entries.
    #[verifier::loop_isolation(false)]
    #[verifier::spinoff_prover]
    pub fn same_as(&self, other: &StringMap) -> (r: bool)
        ensures
            r == (self@ == other@),
    {
        proof {
            use_type_invariant(self);
            use_type_invariant(other);
            lemma_map_of_entries(self.entries_view());
            lemma_map_of_entries(other.entries_view());
        }
        if self.entries.len() != other.entries.len() {
            return false;
        }
        let mut i: usize = 0;
        while i < self.entries.len()
            invariant
                i <= self.entries@.len(),
                self@.len() == other@.len(),
                self@.dom().finite(),
                other@.dom().finite(),
                forall|j: int|
                    0 <= j < i ==> #[trigger] other@.contains_key(self.entries_view()[j].0)
                        && other@[self.entries_view()[j].0] == self.entries_view()[j].1,
            decreases self.entries@.len() - i,
        {
            match other.get(self.entries[i].0.as_str()) {
                Some(v) => {
                    if !str_eq(v.as_str(), self.entries[i].1.as_str()) {
                        assert(self@.contains_key(self.entries_view()[i as int].0));
                        assert(self@[self.entries_view()[i as int].0] == self.entries_view()[i as int].1);
                        return false;
                    }
                    assert(self.entries_view()[i as int] == (self.entries@[i as int].0@, self.entries@[i as int].1@));
                    assert(other@.contains_key(self.entries_view()[i as int].0));
                    assert(other@[self.entries_view()[i as int].0] == self.entries_view()[i as int].1);
                    assert forall|j: int| 0 <= j < i + 1 implies #[trigger] other@.contains_key(
                        self.entries_view()[j].0,
                    ) && other@[self.entries_view()[j].0] == self.entries_view()[j].1 by {
                        if j < i {
                        }
                    }
                },
                None => {
                    assert(self@.contains_key(self.entries_view()[i as int].0));
                    return false;
                },
            }
            i = i + 1;
        }
        proof {
            assert forall|k: Seq<char>| self@.contains_key(k) implies other@.contains_key(k)
                && self@[k] == other@[k] by {
                let es = self.entries_view();
                assert(map_of_entries(es).contains_key(k));
                let j = choose|j: int| 0 <= j < es.len() && es[j].0 == k;
                assert(map_of_entries(es)[es[j].0] == es[j].1);
                assert(other@.contains_key(es[j].0) && other@[es[j].0] == es[j].1);
            }
            vstd::set_lib::lemma_subset_equality(self@.dom(), other@.dom());
            assert(self@ =~= other@);
        }
        true
    }

    /// A copy of the map with the same entries in the same order.
    pub fn duplicate(&self) -> (r: StringMap)
        ensures
            r@ == self@,
            r.entries_view() == self.entries_view(),
    {
        proof {
            use_type_invariant(self);
        }
        let mut entries: Vec<(String, String)> = Vec::new();
        let mut i: usize = 0;
        while i < self.entries.len()
            invariant
                i <= self.entries@.len(),
                entries@.len() == i,
                forall|j: int| 0 <= j < i ==> entry_views(entries@)[j] == #[trigger] entry_views(self.entries@)[j],
            decreases self.entries@.len() - i,
        {
            let k = self.entries[i].0.clone();
            let v = self.entries[i].1.clone();
            entries.push((k, v));
            i = i + 1;
        }
        assert(entry_views(entries@) =~= entry_views(self.entries@));
        StringMap { entries }
    }
}

/// What serde_json reads from a text as an optional map of strings: `None`
/// when the text is not such a JSON value, `Some(None)` for `null`.
pub uninterp spec fn json_optional_string_map(text: Seq<char>) -> Option<Option<Map<Seq<char>, Seq<char>>>>;

/// What serde_json reads from a text as a map of strings, `None` when the
/// text is not such a JSON object.
pub uninterp spec fn json_string_map(text: Seq<char>) -> Option<Map<Seq<char>, Seq<char>>>;

/// The JSON text that serde_json writes for an optional map of strings,
/// `None` when it reports an error.
pub uninterp spec fn json_text_of_optional_map(m: Option<Map<Seq<char>, Seq<char>>>) -> Option<Seq<char>>;

pub open spec fn opt_text_view(t: Option<String>) -> Option<Seq<char>> {
    match t {
        Some(t) => Some(t@),
        None => None,
    }
}

pub open spec fn optional_map_view(m: Option<&StringMap>) -> Option<Map<Seq<char>, Seq<char>>> {
    match m {
        Some(m) => Some(m@),
        None => None,
    }
}

pub open spec fn parsed_optional_map_view(r: Option<Option<StringMap>>) -> Option<Option<Map<Seq<char>, Seq<char>>>> {
    match r {
        Some(Some(m)) => Some(Some(m@)),
        Some(None) => Some(None),
        None => None,
    }
}

pub open spec fn parsed_map_view(r: Option<StringMap>) -> Option<Map<Seq<char>, Seq<char>>> {
    match r {
        Some(m) => Some(m@),
        None => None,
    }
}

/// `serde_json::from_str::<Option<BTreeMap<String, String>>>`, the error
/// dropped. A `BTreeMap` hands out its entries in ascending key order, the
/// byte order of UTF-8 and so the order of `text_less`.
#[verifier::external_body]
pub(crate) fn parse_json_optional_map(text: &str) -> (r: Option<Option<StringMap>>)
    ensures
        parsed_optional_map_view(r) == json_optional_string_map(text@),
{
    match serde_json::from_str::<Option<BTreeMap<String, String>>>(text) {
        Ok(Some(m)) => Some(Some(StringMap { entries: m.into_iter().collect() })),
        Ok(None) => Some(None),
        Err(_) => None,
    }
}

/// `serde_json::from_str::<BTreeMap<String, String>>`, the error dropped;
/// the entries come in ascending key order, as above.
#[verifier::external_body]
pub(crate) fn parse_json_map(text: &str) -> (r: Option<StringMap>)
    ensures
        parsed_map_view(r) == json_string_map(text@),
{
    match serde_json::from_str::<BTreeMap<String, String>>(text) {
        Ok(m) => Some(StringMap { entries: m.into_iter().collect() }),
        Err(_) => None,
    }
}

/// `serde_json::to_string` of an optional map of strings. It never fails:
/// serde_json fails only on a `Serialize` impl that fails or on a map key
/// that is not a string, and neither occurs for a map of strings. serde_json
/// reads back the map it wrote.
#[verifier::external_body]
pub(crate) fn optional_map_to_json(m: Option<&StringMap>) -> (r: Option<String>)
    ensures
        r is Some,
        opt_text_view(r) == json_text_of_optional_map(optional_map_view(m)),
        r matches Some(t) ==> json_optional_string_map(t@) == Some(optional_map_view(m)),
{
    let m: Option<BTreeMap<String, String>> = m.map(|m| m.entries.iter().cloned().collect());
    serde_json::to_string(&m).ok()
}

} // verus!
