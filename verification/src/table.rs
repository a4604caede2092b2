//! A table keyed by strings: entries keep the order in which their keys were first inserted,
//! and no key occurs twice.
use vstd::prelude::*;

use crate::text::{chars_eq, chars_of, owned};

verus! {

/// The keys of a sequence of entries, in order.
pub open spec fn keys_of<V>(s: Seq<(Seq<char>, V)>) -> Seq<Seq<char>> {
    s.map_values(|p: (Seq<char>, V)| p.0)
}

/// No key occurs twice.
pub open spec fn unique_keys<V>(s: Seq<(Seq<char>, V)>) -> bool {
    forall|i: int, j: int| 0 <= i < j < s.len() ==> #[trigger] s[i].0 != #[trigger] s[j].0
}

/// Whether a key occurs.
pub open spec fn has_key<V>(s: Seq<(Seq<char>, V)>, k: Seq<char>) -> bool {
    exists|i: int| 0 <= i < s.len() && #[trigger] s[i].0 == k
}

/// Whether `i` is the first position of key `k`.
pub open spec fn is_first_pos<V>(s: Seq<(Seq<char>, V)>, k: Seq<char>, i: int) -> bool {
    &&& 0 <= i < s.len()
    &&& s[i].0 == k
    &&& forall|j: int| 0 <= j < i ==> #[trigger] s[j].0 != k
}

/// The first position of a key that occurs.
pub open spec fn key_pos<V>(s: Seq<(Seq<char>, V)>, k: Seq<char>) -> int {
    choose|i: int| is_first_pos(s, k, i)
}

/// The value of a key, if it occurs.
pub open spec fn lookup<V>(s: Seq<(Seq<char>, V)>, k: Seq<char>) -> Option<V> {
    if has_key(s, k) {
        Some(s[key_pos(s, k)].1)
    } else {
        None
    }
}

/// The first position of a key is the one that `key_pos` names.
pub proof fn lemma_key_pos<V>(s: Seq<(Seq<char>, V)>, k: Seq<char>, i: int)
    requires
        is_first_pos(s, k, i),
    ensures
        has_key(s, k),
        key_pos(s, k) == i,
        lookup(s, k) == Some(s[i].1),
{
    assert(has_key(s, k));
    let c = key_pos(s, k);
    assert(is_first_pos(s, k, c));
    if c < i {
        assert(s[c].0 != k);
    } else if c > i {
        assert(s[i].0 != k);
    }
}

/// A key that occurs has a first position, which `key_pos` names.
pub proof fn lemma_first_pos_exists<V>(s: Seq<(Seq<char>, V)>, k: Seq<char>)
    requires
        has_key(s, k),
    ensures
        is_first_pos(s, k, key_pos(s, k)),
    decreases s.len(),
{
    let p = s.drop_last();
    if has_key(p, k) {
        lemma_first_pos_exists(p, k);
        let i = key_pos(p, k);
        assert forall|j: int| 0 <= j < i implies #[trigger] s[j].0 != k by {
            assert(p[j].0 != k);
        }
        assert(is_first_pos(s, k, i));
    } else {
        let w = choose|j: int| 0 <= j < s.len() && #[trigger] s[j].0 == k;
        if w < s.len() - 1 {
            assert(p[w].0 == k);
        }
        let i = s.len() - 1;
        assert forall|j: int| 0 <= j < i implies #[trigger] s[j].0 != k by {
            if s[j].0 == k {
                assert(p[j].0 == k);
            }
        }
        assert(is_first_pos(s, k, i));
    }
}

/// Setting the value of a key: replaced where the key first occurs, or appended.
pub open spec fn set_entry<V>(s: Seq<(Seq<char>, V)>, k: Seq<char>, v: V) -> Seq<(Seq<char>, V)> {
    if has_key(s, k) {
        s.update(key_pos(s, k), (k, v))
    } else {
        s.push((k, v))
    }
}

/// Setting several keys, in order.
pub open spec fn insert_all<V>(s: Seq<(Seq<char>, V)>, kvs: Seq<(Seq<char>, V)>) -> Seq<(Seq<char>, V)>
    decreases kvs.len(),
{
    if kvs.len() == 0 {
        s
    } else {
        set_entry(insert_all(s, kvs.drop_last()), kvs.last().0, kvs.last().1)
    }
}

/// The entries of a table of strings, with the values' contents.
pub open spec fn str_entries(s: Seq<(Seq<char>, String)>) -> Seq<(Seq<char>, Seq<char>)> {
    s.map_values(|p: (Seq<char>, String)| (p.0, p.1@))
}

/// Two sequences with the same keys agree on whether a key occurs and where it first does.
pub proof fn lemma_same_keys<V, W>(s: Seq<(Seq<char>, V)>, t: Seq<(Seq<char>, W)>, k: Seq<char>)
    requires
        s.len() == t.len(),
        forall|i: int| 0 <= i < s.len() ==> #[trigger] s[i].0 == t[i].0,
    ensures
        has_key(s, k) == has_key(t, k),
        has_key(s, k) ==> key_pos(s, k) == key_pos(t, k),
{
    if has_key(s, k) {
        lemma_first_pos_exists(s, k);
        let i = key_pos(s, k);
        assert(t[i].0 == k);
        assert forall|j: int| 0 <= j < i implies #[trigger] t[j].0 != k by {
            assert(s[j].0 == t[j].0);
        }
        lemma_key_pos(t, k, i);
    }
    if has_key(t, k) {
        let j = choose|j: int| 0 <= j < t.len() && #[trigger] t[j].0 == k;
        assert(s[j].0 == k);
    }
}

/// Setting a string value commutes with taking the values' contents.
pub proof fn lemma_set_entry_str(s: Seq<(Seq<char>, String)>, k: Seq<char>, v: String)
    ensures
        str_entries(set_entry(s, k, v)) == set_entry(str_entries(s), k, v@),
{
    let t = str_entries(s);
    lemma_same_keys(s, t, k);
    if has_key(s, k) {
        lemma_first_pos_exists(s, k);
        let i = key_pos(s, k);
        assert(str_entries(s.update(i, (k, v))) =~= t.update(i, (k, v@)));
    } else {
        assert(str_entries(s.push((k, v))) =~= t.push((k, v@)));
    }
}

/// Read after write: once a key is set, looking it up gives the value set, and any other key
/// gives what it gave before.
pub proof fn law_lookup_after_set<V>(s: Seq<(Seq<char>, V)>, k: Seq<char>, v: V, other: Seq<char>)
    requires
        other != k,
    ensures
        lookup(set_entry(s, k, v), k) == Some(v),
        lookup(set_entry(s, k, v), other) == lookup(s, other),
        has_key(set_entry(s, k, v), k),
{
    let t = set_entry(s, k, v);
    if has_key(s, k) {
        lemma_first_pos_exists(s, k);
        let i = key_pos(s, k);
        assert forall|j: int| 0 <= j < i implies #[trigger] t[j].0 != k by {
            assert(s[j].0 != k);
        }
        lemma_key_pos(t, k, i);
        if has_key(s, other) {
            lemma_first_pos_exists(s, other);
            let p = key_pos(s, other);
            assert(p != i);
            assert forall|j: int| 0 <= j < p implies #[trigger] t[j].0 != other by {
                assert(s[j].0 != other);
            }
            lemma_key_pos(t, other, p);
        } else {
            if has_key(t, other) {
                let w = choose|w: int| 0 <= w < t.len() && #[trigger] t[w].0 == other;
                assert(s[w].0 == other);
            }
        }
    } else {
        let i = s.len() as int;
        assert forall|j: int| 0 <= j < i implies #[trigger] t[j].0 != k by {
            if s[j].0 == k {
                assert(has_key(s, k));
            }
        }
        lemma_key_pos(t, k, i);
        if has_key(s, other) {
            lemma_first_pos_exists(s, other);
            let p = key_pos(s, other);
            assert forall|j: int| 0 <= j < p implies #[trigger] t[j].0 != other by {
                assert(s[j].0 != other);
            }
            lemma_key_pos(t, other, p);
        } else {
            if has_key(t, other) {
                let w = choose|w: int| 0 <= w < t.len() && #[trigger] t[w].0 == other;
                assert(w < s.len());
                assert(s[w].0 == other);
            }
        }
    }
}

/// Setting keys which all differ from `k` leaves what looking `k` up gives.
pub proof fn lemma_lookup_insert_all_other<V>(s: Seq<(Seq<char>, V)>, xs: Seq<(Seq<char>, V)>, k: Seq<char>)
    requires
        forall|j: int| 0 <= j < xs.len() ==> (#[trigger] xs[j]).0 != k,
    ensures
        lookup(insert_all(s, xs), k) == lookup(s, k),
    decreases xs.len(),
{
    if xs.len() > 0 {
        let ys = xs.drop_last();
        assert forall|j: int| 0 <= j < ys.len() implies (#[trigger] ys[j]).0 != k by {
            assert(ys[j] == xs[j]);
        }
        lemma_lookup_insert_all_other(s, ys, k);
        assert(xs.last() == xs[xs.len() - 1]);
        law_lookup_after_set(insert_all(s, ys), xs.last().0, xs.last().1, k);
    }
}

/// No key occurs twice in a table built by setting keys: setting a key keeps the keys
/// unique, and so does removing entries.
pub proof fn law_set_keeps_unique<V>(s: Seq<(Seq<char>, V)>, k: Seq<char>, v: V)
    requires
        unique_keys(s),
    ensures
        unique_keys(set_entry(s, k, v)),
{
    if has_key(s, k) {
        lemma_first_pos_exists(s, k);
        let i = key_pos(s, k);
        lemma_update_keeps_unique(s, i, v);
        assert(s.update(i, (s[i].0, v)) == s.update(i, (k, v)));
    } else {
        lemma_push_keeps_unique(s, k, v);
    }
}

/// Keeping some entries keeps the keys unique.
pub proof fn law_kept_keeps_unique<V>(s: Seq<(Seq<char>, V)>, keep: Seq<bool>)
    requires
        unique_keys(s),
        keep.len() == s.len(),
    ensures
        unique_keys(kept(s, keep)),
    decreases s.len(),
{
    if s.len() > 0 {
        let t = s.drop_first();
        assert forall|a: int, b: int| 0 <= a < b < t.len() implies #[trigger] t[a].0
            != #[trigger] t[b].0 by {
            assert(s[a + 1].0 != s[b + 1].0);
        }
        law_kept_keeps_unique(t, keep.drop_first());
        if keep[0] {
            lemma_kept_members(t, keep.drop_first());
            let r = kept(s, keep);
            assert forall|a: int, b: int| 0 <= a < b < r.len() implies #[trigger] r[a].0
                != #[trigger] r[b].0 by {
                if a == 0 {
                    let x = r[b];
                    assert(kept(t, keep.drop_first())[b - 1] == x);
                    assert(kept(t, keep.drop_first()).contains(x));
                    let j = choose|j: int| 0 <= j < t.len() && keep.drop_first()[j] && #[trigger] t[j] == x;
                    assert(s[0].0 != s[j + 1].0);
                } else {
                    assert(kept(t, keep.drop_first())[a - 1] == r[a]);
                    assert(kept(t, keep.drop_first())[b - 1] == r[b]);
                }
            }
        }
    }
}

/// In a table where no key occurs twice, the key of each entry is first found at that
/// entry, and looking it up gives that entry's value.
pub proof fn law_lookup_entry<V>(s: Seq<(Seq<char>, V)>, i: int)
    requires
        unique_keys(s),
        0 <= i < s.len(),
    ensures
        key_pos(s, s[i].0) == i,
        lookup(s, s[i].0) == Some(s[i].1),
{
    assert forall|j: int| 0 <= j < i implies #[trigger] s[j].0 != s[i].0 by {
        assert(s[j].0 != s[i].0);
    }
    lemma_key_pos(s, s[i].0, i);
}

/// Where no key occurs twice, removing the entry of a key leaves no entry of that key.
pub proof fn law_remove_leaves_no_key<V>(s: Seq<(Seq<char>, V)>, k: Seq<char>)
    requires
        unique_keys(s),
        has_key(s, k),
    ensures
        !has_key(s.remove(key_pos(s, k)), k),
{
    lemma_first_pos_exists(s, k);
    let i = key_pos(s, k);
    let t = s.remove(i);
    if has_key(t, k) {
        let w = choose|w: int| 0 <= w < t.len() && #[trigger] t[w].0 == k;
        if w < i {
            assert(s[w].0 == k && s[i].0 == k);
        } else {
            assert(s[w + 1].0 == k && s[i].0 == k);
        }
    }
}

/// Taking the entry of a key that occurs without changing its value, as `or_insert` does when
/// nothing is written through what it gives, leaves the entries as they were: a second
/// `or_insert` of the same key changes nothing.
pub proof fn law_or_insert_again<V>(s: Seq<(Seq<char>, V)>, k: Seq<char>)
    requires
        has_key(s, k),
    ensures
        s.update(key_pos(s, k), (k, s[key_pos(s, k)].1)) == s,
{
    lemma_first_pos_exists(s, k);
    assert(s.update(key_pos(s, k), (k, s[key_pos(s, k)].1)) =~= s);
}

/// Where no key occurs twice, the keys are distinct.
pub proof fn law_unique_keys_distinct<V>(s: Seq<(Seq<char>, V)>)
    requires
        unique_keys(s),
    ensures
        forall|i: int, j: int| 0 <= i < s.len() && 0 <= j < s.len() && i != j ==> s[i].0 != s[j].0,
{
    assert forall|i: int, j: int| 0 <= i < s.len() && 0 <= j < s.len() && i != j implies s[i].0
        != s[j].0 by {
        if i < j {
            assert(s[i].0 != s[j].0);
        } else {
            assert(s[j].0 != s[i].0);
        }
    }
}

/// Replacing the value of an entry keeps the keys unique.
pub proof fn lemma_update_keeps_unique<V>(s: Seq<(Seq<char>, V)>, i: int, v: V)
    requires
        unique_keys(s),
        0 <= i < s.len(),
    ensures
        unique_keys(s.update(i, (s[i].0, v))),
{
    let t = s.update(i, (s[i].0, v));
    assert forall|a: int, b: int| 0 <= a < b < t.len() implies #[trigger] t[a].0
        != #[trigger] t[b].0 by {
        assert(s[a].0 != s[b].0);
    }
}

/// Appending a key that does not occur keeps the keys unique.
pub proof fn lemma_push_keeps_unique<V>(s: Seq<(Seq<char>, V)>, k: Seq<char>, v: V)
    requires
        unique_keys(s),
        !has_key(s, k),
    ensures
        unique_keys(s.push((k, v))),
{
    let t = s.push((k, v));
    assert forall|a: int, b: int| 0 <= a < b < t.len() implies #[trigger] t[a].0
        != #[trigger] t[b].0 by {
        if b == s.len() {
            assert(s[a].0 != k);
        } else {
            assert(s[a].0 != s[b].0);
        }
    }
}

/// Removing an entry keeps the keys unique.
pub proof fn lemma_remove_keeps_unique<V>(s: Seq<(Seq<char>, V)>, i: int)
    requires
        unique_keys(s),
        0 <= i < s.len(),
    ensures
        unique_keys(s.remove(i)),
{
    let t = s.remove(i);
    assert forall|a: int, b: int| 0 <= a < b < t.len() implies #[trigger] t[a].0
        != #[trigger] t[b].0 by {
        let a1 = if a < i { a } else { a + 1 };
        let b1 = if b < i { b } else { b + 1 };
        assert(s[a1].0 != s[b1].0);
    }
}

/// A table of entries keyed by strings. Each operation keeps the keys unique when they were
/// (see the lemmas above): a table built with these operations alone never holds a key twice.
#[derive(Debug)]
pub struct Table<V> {
    entries: Vec<(String, V)>,
}

impl<V: Clone> Clone for Table<V> {
    /// The same keys in the same order, each with a clone of its value.
    fn clone(&self) -> (r: Table<V>)
        ensures
            r@.len() == self@.len(),
            forall|i: int|
                0 <= i < r@.len() ==> (#[trigger] r@[i]).0 == self@[i].0 && vstd::pervasive::cloned(
                    self@[i].1,
                    r@[i].1,
                ),
    {
        let mut entries: Vec<(String, V)> = Vec::new();
        let mut i: usize = 0;
        while i < self.entries.len()
            invariant
                i <= self.entries@.len(),
                entries@.len() == i,
                forall|j: int|
                    0 <= j < i ==> (#[trigger] entries@[j]).0@ == self.entries@[j].0@
                        && vstd::pervasive::cloned(self.entries@[j].1, entries@[j].1),
            decreases self.entries@.len() - i,
        {
            let k = self.entries[i].0.clone();
            let v = self.entries[i].1.clone();
            entries.push((k, v));
            i = i + 1;
        }
        Table { entries }
    }
}

impl<V> View for Table<V> {
    type V = Seq<(Seq<char>, V)>;

    closed spec fn view(&self) -> Seq<(Seq<char>, V)> {
        self.entries@.map_values(|p: (String, V)| (p.0@, p.1))
    }
}

/// Any value may replace the value of an entry without making a key occur twice.
proof fn lemma_update_any_keeps_unique<V>(s: Seq<(Seq<char>, V)>, i: int)
    requires
        unique_keys(s),
        0 <= i < s.len(),
    ensures
        forall|v: V| unique_keys(#[trigger] s.update(i, (s[i].0, v))),
{
    assert forall|v: V| unique_keys(#[trigger] s.update(i, (s[i].0, v))) by {
        lemma_update_keeps_unique(s, i, v);
    }
}

impl<V> Table<V> {
    /// The table is well formed: no key occurs twice.
    pub open spec fn wf(&self) -> bool {
        unique_keys(self@)
    }

    /// An empty table.
    pub fn new() -> (r: Table<V>)
        ensures
            r@ == Seq::<(Seq<char>, V)>::empty(),
            r.wf(),
    {
        let r = Table { entries: Vec::new() };
        assert(r@ =~= Seq::<(Seq<char>, V)>::empty());
        r
    }

    /// The number of entries.
    pub fn len(&self) -> (r: usize)
        ensures
            r == self@.len(),
    {
        self.entries.len()
    }

    /// The key of the entry at a position.
    pub fn key_at(&self, i: usize) -> (r: &String)
        requires
            i < self@.len(),
        ensures
            r@ == self@[i as int].0,
    {
        &self.entries[i].0
    }

    /// The value of the entry at a position.
    pub fn value_at(&self, i: usize) -> (r: &V)
        requires
            i < self@.len(),
        ensures
            *r == self@[i as int].1,
    {
        &self.entries[i].1
    }

    /// The value of the entry at a position, to be changed in place.
    pub fn value_mut(&mut self, i: usize) -> (r: &mut V)
        requires
            i < old(self)@.len(),
        ensures
            *r == old(self)@[i as int].1,
            final(self)@ == old(self)@.update(i as int, (old(self)@[i as int].0, *final(r))),
            old(self).wf() ==> final(self).wf(),
    {
        proof {
            if old(self).wf() {
                lemma_update_any_keeps_unique(old(self)@, i as int);
            }
        }
        let r = &mut self.entries[i].1;
        r
    }

    /// The first position of a key, if it occurs.
    pub fn find(&self, k: &str) -> (r: Option<usize>)
        ensures
            r is Some <==> has_key(self@, k@),
            r matches Some(i) ==> i < self@.len() && is_first_pos(self@, k@, i as int) && key_pos(
                self@,
                k@,
            ) == i,
    {
        let kc = chars_of(k);
        let mut i: usize = 0;
        while i < self.entries.len()
            invariant
                i <= self@.len(),
                self@.len() == self.entries@.len(),
                kc@ == k@,
                forall|j: int| 0 <= j < i ==> #[trigger] self@[j].0 != k@,
            decreases self.entries@.len() - i,
        {
            let c = chars_of(self.entries[i].0.as_str());
            assert(self@[i as int].0 == self.entries@[i as int].0@);
            if chars_eq(c.as_slice(), kc.as_slice()) {
                proof {
                    lemma_key_pos(self@, k@, i as int);
                }
                return Some(i);
            }
            i = i + 1;
        }
        None
    }

    /// Whether a key occurs.
    pub fn contains_key(&self, k: &str) -> (r: bool)
        ensures
            r == has_key(self@, k@),
    {
        self.find(k).is_some()
    }

    /// The value of a key, if it occurs.
    pub fn get(&self, k: &str) -> (r: Option<&V>)
        ensures
            r matches Some(v) ==> lookup(self@, k@) == Some(*v),
            r is None ==> lookup(self@, k@) is None,
    {
        match self.find(k) {
            Some(i) => Some(&self.entries[i].1),
            None => None,
        }
    }

    /// The value of a key, inserting `v` under that key first when the key does not occur.
    pub fn or_insert(&mut self, k: &str, v: V) -> (r: &mut V)
        ensures
            has_key(old(self)@, k@) ==> {
                let i = key_pos(old(self)@, k@);
                &&& *r == old(self)@[i].1
                &&& final(self)@ == old(self)@.update(i, (k@, *final(r)))
            },
            !has_key(old(self)@, k@) ==> {
                &&& *r == v
                &&& final(self)@ == old(self)@.push((k@, *final(r)))
            },
            old(self).wf() ==> final(self).wf(),
    {
        match self.find(k) {
            Some(i) => self.value_mut(i),
            None => {
                let ghost s0 = self@;
                self.entries.push((owned(k), v));
                let n = self.entries.len() - 1;
                assert(self@ =~= s0.push((k@, v)));
                proof {
                    if unique_keys(s0) {
                        lemma_push_keeps_unique(s0, k@, v);
                    }
                }
                self.value_mut(n)
            },
        }
    }

    /// Sets the value of a key: the value is replaced where the key first occurs, or a new
    /// entry is appended. The replaced value is returned.
    pub fn insert(&mut self, k: String, v: V) -> (r: Option<V>)
        ensures
            has_key(old(self)@, k@) ==> {
                let i = key_pos(old(self)@, k@);
                &&& r == Some(old(self)@[i].1)
                &&& final(self)@ == old(self)@.update(i, (k@, v))
            },
            !has_key(old(self)@, k@) ==> r is None && final(self)@ == old(self)@.push((k@, v)),
            old(self).wf() ==> final(self).wf(),
    {
        match self.find(k.as_str()) {
            Some(i) => {
                let slot = self.value_mut(i);
                let mut held = v;
                std::mem::swap(slot, &mut held);
                Some(held)
            },
            None => {
                let ghost s0 = self@;
                let ghost kv = k@;
                self.entries.push((k, v));
                assert(self@ =~= s0.push((kv, v)));
                proof {
                    if unique_keys(s0) {
                        lemma_push_keeps_unique(s0, kv, v);
                    }
                }
                None
            },
        }
    }

    /// Removes the entry at a position and returns its value.
    pub fn remove_at(&mut self, i: usize) -> (r: V)
        requires
            i < old(self)@.len(),
        ensures
            r == old(self)@[i as int].1,
            final(self)@ == old(self)@.remove(i as int),
            old(self).wf() ==> final(self).wf(),
    {
        let ghost s0 = self@;
        let (_, v) = self.entries.remove(i);
        assert(self@ =~= s0.remove(i as int));
        proof {
            if unique_keys(s0) {
                lemma_remove_keeps_unique(s0, i as int);
            }
        }
        v
    }

    /// Removes the first entry of a key, if it occurs, and returns its value.
    pub fn remove(&mut self, k: &str) -> (r: Option<V>)
        ensures
            r == lookup(old(self)@, k@),
            has_key(old(self)@, k@) ==> final(self)@ == old(self)@.remove(key_pos(old(self)@, k@)),
            !has_key(old(self)@, k@) ==> final(self)@ == old(self)@,
            old(self).wf() ==> final(self).wf(),
            old(self).wf() ==> !has_key(final(self)@, k@),
    {
        proof {
            if old(self).wf() && has_key(old(self)@, k@) {
                law_remove_leaves_no_key(old(self)@, k@);
            }
        }
        match self.find(k) {
            Some(i) => Some(self.remove_at(i)),
            None => None,
        }
    }

    /// Keeps the entries whose positions are marked in `keep`, in order.
    pub fn retain_marked(&mut self, keep: &Vec<bool>)
        requires
            keep@.len() == old(self)@.len(),
        ensures
            final(self)@ == kept(old(self)@, keep@),
            old(self).wf() ==> final(self).wf(),
    {
        let ghost s0 = self@;
        let mut i: usize = self.entries.len();
        assert(s0.skip(s0.len() as int) =~= Seq::<(Seq<char>, V)>::empty());
        assert(s0.take(s0.len() as int) =~= s0);
        while i > 0
            invariant
                i <= s0.len(),
                keep@.len() == s0.len(),
                self@ == s0.take(i as int) + kept(s0.skip(i as int), keep@.skip(i as int)),
            decreases i,
        {
            i = i - 1;
            assert(s0.skip(i as int).drop_first() =~= s0.skip(i + 1));
            assert(keep@.skip(i as int).drop_first() =~= keep@.skip(i + 1));
            assert(s0.take(i + 1) =~= s0.take(i as int).push(s0[i as int]));
            if !keep[i] {
                self.remove_at(i);
            }
            assert(self@ =~= s0.take(i as int) + kept(s0.skip(i as int), keep@.skip(i as int)));
        }
        assert(s0.skip(0) =~= s0);
        assert(keep@.skip(0) =~= keep@);
        assert(s0.take(0) =~= Seq::<(Seq<char>, V)>::empty());
        assert(self@ =~= kept(s0, keep@));
        proof {
            if unique_keys(s0) {
                law_kept_keeps_unique(s0, keep@);
            }
        }
    }
}

/// The entries whose positions are marked, in order.
pub open spec fn kept<V>(s: Seq<(Seq<char>, V)>, keep: Seq<bool>) -> Seq<(Seq<char>, V)>
    decreases s.len(),
{
    if s.len() == 0 || keep.len() == 0 {
        Seq::empty()
    } else if keep[0] {
        seq![s[0]] + kept(s.drop_first(), keep.drop_first())
    } else {
        kept(s.drop_first(), keep.drop_first())
    }
}

/// An entry is kept exactly when it is one of the marked ones.
pub proof fn lemma_kept_members<V>(s: Seq<(Seq<char>, V)>, keep: Seq<bool>)
    requires
        keep.len() == s.len(),
    ensures
        forall|x: (Seq<char>, V)|
            #[trigger] kept(s, keep).contains(x) <==> exists|j: int|
                0 <= j < s.len() && keep[j] && #[trigger] s[j] == x,
        kept(s, keep).len() <= s.len(),
    decreases s.len(),
{
    if s.len() > 0 {
        let t = s.drop_first();
        let kt = keep.drop_first();
        lemma_kept_members(t, kt);
        assert forall|x: (Seq<char>, V)| #[trigger] kept(s, keep).contains(x) <==> exists|j: int|
            0 <= j < s.len() && keep[j] && #[trigger] s[j] == x by {
            if kept(s, keep).contains(x) {
                if keep[0] && x == s[0] {
                    assert(keep[0] && s[0] == x);
                } else {
                    if keep[0] {
                        let k = choose|k: int| 0 <= k < kept(s, keep).len() && kept(s, keep)[k] == x;
                        assert(k > 0);
                        assert(kept(t, kt)[k - 1] == x);
                        assert(kept(t, kt).contains(x));
                    } else {
                        assert(kept(t, kt).contains(x));
                    }
                    let j = choose|j: int| 0 <= j < t.len() && kt[j] && #[trigger] t[j] == x;
                    assert(keep[j + 1] && s[j + 1] == x);
                }
            }
            if exists|j: int| 0 <= j < s.len() && keep[j] && #[trigger] s[j] == x {
                let j = choose|j: int| 0 <= j < s.len() && keep[j] && #[trigger] s[j] == x;
                if j == 0 {
                    assert(kept(s, keep)[0] == x);
                } else {
                    assert(kt[j - 1] && t[j - 1] == x);
                    assert(kept(t, kt).contains(x));
                    let k = choose|k: int| 0 <= k < kept(t, kt).len() && kept(t, kt)[k] == x;
                    if keep[0] {
                        assert(kept(s, keep)[k + 1] == x);
                    } else {
                        assert(kept(s, keep)[k] == x);
                    }
                }
            }
        }
    }
}

} // verus!
