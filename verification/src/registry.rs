//! A mapping keyed by `Name`, shared by platforms, installers and packages.
//!
//! Entries are kept in the order in which their keys first arrived. No two
//! entries have the same key; a later value for a key replaces the earlier one.

use crate::name::Name;
use vstd::prelude::*;

verus! {

/// Whether some entry of `s` is keyed by `key`.
pub open spec fn has_key<V>(s: Seq<(Name, V)>, key: Seq<char>) -> bool {
    exists|i: int| 0 <= i < s.len() && (#[trigger] s[i]).0@ == key
}

/// The position of an entry of `s` keyed by `key`, where there is one.
pub open spec fn index_of<V>(s: Seq<(Name, V)>, key: Seq<char>) -> int {
    choose|i: int| 0 <= i < s.len() && (#[trigger] s[i]).0@ == key
}

/// No key occurs twice in `s`.
pub open spec fn distinct_keys<V>(s: Seq<(Name, V)>) -> bool {
    forall|i: int, j: int|
        0 <= i < j < s.len() ==> (#[trigger] s[i]).0@ != (#[trigger] s[j]).0@
}

/// The mapping that the entries of `s` stand for, from the text of a key to its value.
pub open spec fn map_of<V>(s: Seq<(Name, V)>) -> Map<Seq<char>, V> {
    Map::new(|key: Seq<char>| has_key(s, key), |key: Seq<char>| s[index_of(s, key)].1)
}

/// The entries `s` once `key` has the value `value`: an entry that is keyed
/// so keeps its place and its key and gets the value; otherwise a new entry
/// goes to the end.
pub open spec fn put<V>(s: Seq<(Name, V)>, key: Name, value: V) -> Seq<(Name, V)> {
    if has_key(s, key@) {
        s.update(index_of(s, key@), (s[index_of(s, key@)].0, value))
    } else {
        s.push((key, value))
    }
}

/// The entries `s` once the first `n` entries of `incoming` are put in, in their order.
pub open spec fn put_all<V>(s: Seq<(Name, V)>, incoming: Seq<(Name, V)>, n: int) -> Seq<(Name, V)>
    decreases n,
{
    if n <= 0 {
        s
    } else {
        put(put_all(s, incoming, n - 1), incoming[n - 1].0, incoming[n - 1].1)
    }
}

/// Each entry of a sequence with distinct keys is found in its mapping, under its key.
pub proof fn lemma_map_of_entry<V>(s: Seq<(Name, V)>, i: int)
    requires
        distinct_keys(s),
        0 <= i < s.len(),
    ensures
        map_of(s).contains_key(s[i].0@),
        map_of(s)[s[i].0@] == s[i].1,
        index_of(s, s[i].0@) == i,
{
    let key = s[i].0@;
    assert(has_key(s, key));
    let j = index_of(s, key);
    assert(0 <= j < s.len() && s[j].0@ == key);
    if j < i {
        assert(s[j].0@ != s[i].0@);
    } else if i < j {
        assert(s[i].0@ != s[j].0@);
    }
}

/// Every key of the mapping belongs to an entry of the sequence, with its value.
pub proof fn lemma_map_of_key<V>(s: Seq<(Name, V)>, key: Seq<char>)
    requires
        map_of(s).contains_key(key),
    ensures
        0 <= index_of(s, key) < s.len(),
        s[index_of(s, key)].0@ == key,
        map_of(s)[key] == s[index_of(s, key)].1,
{
    assert(has_key(s, key));
}

/// A mapping from names to values of type `V`.
#[derive(Debug)]
pub struct Registry<V> {
    pub(crate) entries: Vec<(Name, V)>,
}

impl<V> View for Registry<V> {
    type V = Map<Seq<char>, V>;

    open spec fn view(&self) -> Map<Seq<char>, V> {
        map_of(self.entries())
    }
}

impl<V> Registry<V> {
    #[verifier::type_invariant]
    pub(crate) closed spec fn well_formed(self) -> bool {
        distinct_keys(self.entries@)
    }

    /// The entries in the order in which the registry hands them out.
    pub closed spec fn entries(&self) -> Seq<(Name, V)> {
        self.entries@
    }

    /// An empty registry.
    pub fn new() -> (r: Registry<V>)
        ensures
            r.entries() == Seq::<(Name, V)>::empty(),
            r@ == Map::<Seq<char>, V>::empty(),
    {
        let r = Registry { entries: Vec::new() };
        assert(r@ =~= Map::<Seq<char>, V>::empty());
        r
    }

    /// The number of entries, which is the number of keys.
    pub fn len(&self) -> (r: usize)
        ensures
            r == self.entries().len(),
            self@.dom().finite(),
            r == self@.dom().len(),
    {
        proof {
            use_type_invariant(self);
            lemma_map_of_len(self.entries@);
        }
        self.entries.len()
    }

    /// Whether the registry has no entries.
    pub fn is_empty(&self) -> (r: bool)
        ensures
            r == (self.entries().len() == 0),
            r == (self@ == Map::<Seq<char>, V>::empty()),
    {
        let r = self.entries.len() == 0;
        proof {
            if r {
                assert(self@ =~= Map::<Seq<char>, V>::empty());
            } else {
                use_type_invariant(self);
                lemma_map_of_entry(self.entries@, 0);
            }
        }
        r
    }

    /// The entry at position `i` of the iteration order.
    pub fn entry(&self, i: usize) -> (r: (&Name, &V))
        requires
            i < self.entries().len(),
        ensures
            *r.0 == self.entries()[i as int].0,
            *r.1 == self.entries()[i as int].1,
            self@.contains_key(r.0@),
            self@[r.0@] == *r.1,
    {
        proof {
            use_type_invariant(self);
            lemma_map_of_entry(self.entries@, i as int);
        }
        let e = &self.entries[i];
        (&e.0, &e.1)
    }

    /// The entries, in the iteration order. No two of them have the same key.
    pub fn as_entries(&self) -> (r: &Vec<(Name, V)>)
        ensures
            r@ == self.entries(),
            distinct_keys(r@),
    {
        proof {
            use_type_invariant(self);
        }
        &self.entries
    }

    fn position(&self, key: &Name) -> (r: Option<usize>)
        ensures
            match r {
                Some(i) => i < self.entries().len() && self.entries()[i as int].0@ == key@,
                None => !has_key(self.entries(), key@),
            },
    {
        let mut i: usize = 0;
        while i < self.entries.len()
            invariant
                i <= self.entries@.len(),
                forall|j: int| 0 <= j < i ==> (#[trigger] self.entries@[j]).0@ != key@,
            decreases self.entries@.len() - i,
        {
            if self.entries[i].0 == *key {
                return Some(i);
            }
            i = i + 1;
        }
        None
    }

    /// Whether `key` has a value.
    pub fn contains_key(&self, key: &Name) -> (r: bool)
        ensures
            r == self@.contains_key(key@),
    {
        self.position(key).is_some()
    }

    /// The value of `key`, if it has one.
    pub fn get(&self, key: &Name) -> (r: Option<&V>)
        ensures
            match r {
                Some(value) => self@.contains_key(key@) && *value == self@[key@],
                None => !self@.contains_key(key@),
            },
    {
        match self.position(key) {
            Some(i) => {
                proof {
                    use_type_invariant(self);
                    lemma_map_of_entry(self.entries@, i as int);
                }
                Some(&self.entries[i].1)
            },
            None => None,
        }
    }

    /// Gives `key` the value `value`, and returns the value it had before.
    /// A key that is already present keeps its place in the iteration order;
    /// a new key goes to the end.
    pub fn insert(&mut self, key: Name, value: V) -> (r: Option<V>)
        ensures
            final(self)@ == old(self)@.insert(key@, value),
            final(self).entries() == put(old(self).entries(), key, value),
            match r {
                Some(previous) => old(self)@.contains_key(key@) && previous == old(self)@[key@],
                None => !old(self)@.contains_key(key@),
            },
    {
        proof {
            use_type_invariant(&*self);
        }
        let ghost before = self.entries@;
        match self.position(&key) {
            Some(i) => {
                let mut entries: Vec<(Name, V)> = Vec::new();
                std::mem::swap(&mut self.entries, &mut entries);
                let (stored, previous) = entries.remove(i);
                entries.insert(i, (stored, value));
                proof {
                    lemma_map_of_entry(before, i as int);
                    assert(entries@ =~= before.update(i as int, (stored, value)));
                    lemma_update_value(before, i as int, value);
                }
                std::mem::swap(&mut self.entries, &mut entries);
                Some(previous)
            },
            None => {
                let mut entries: Vec<(Name, V)> = Vec::new();
                std::mem::swap(&mut self.entries, &mut entries);
                entries.push((key, value));
                proof {
                    lemma_push_entry(before, key, value);
                }
                std::mem::swap(&mut self.entries, &mut entries);
                None
            },
        }
    }

    /// Takes `key` out of the registry and returns the value it had.
    pub fn remove(&mut self, key: &Name) -> (r: Option<V>)
        ensures
            final(self)@ == old(self)@.remove(key@),
            match r {
                Some(value) => old(self)@.contains_key(key@) && value == old(self)@[key@],
                None => !old(self)@.contains_key(key@),
            },
    {
        proof {
            use_type_invariant(&*self);
        }
        let ghost before = self.entries@;
        match self.position(key) {
            Some(i) => {
                let mut entries: Vec<(Name, V)> = Vec::new();
                std::mem::swap(&mut self.entries, &mut entries);
                let (_stored, value) = entries.remove(i);
                proof {
                    lemma_map_of_entry(before, i as int);
                    lemma_remove_entry(before, i as int);
                }
                std::mem::swap(&mut self.entries, &mut entries);
                Some(value)
            },
            None => {
                assert(self@ =~= old(self)@.remove(key@));
                None
            },
        }
    }

    /// Takes every entry of `other`, in its order. Where both have a key,
    /// the value of `other` replaces the one held before.
    pub fn extend(&mut self, other: Registry<V>)
        ensures
            final(self)@ == old(self)@.union_prefer_right(other@),
            final(self).entries() == put_all(
                old(self).entries(),
                other.entries(),
                other.entries().len() as int,
            ),
    {
        proof {
            use_type_invariant(&other);
        }
        let ghost target = old(self)@.union_prefer_right(other@);
        let ghost incoming = other.entries@;
        let items = other.entries;
        assert(self@.union_prefer_right(map_of(incoming.skip(0))) =~= target) by {
            assert(incoming.skip(0) =~= incoming);
        }
        for item in it: items
            invariant
                it.seq() == incoming,
                distinct_keys(incoming),
                self@.union_prefer_right(map_of(incoming.skip(it.index() as int))) == target,
                self.entries() == put_all(old(self).entries(), incoming, it.index() as int),
        {
            let ghost k = it.index() as int;
            let ghost held = self@;
            proof {
                lemma_skip_first(incoming, k);
            }
            let (key, value) = item;
            self.insert(key, value);
            assert(self@.union_prefer_right(map_of(incoming.skip(k + 1)))
                =~= held.union_prefer_right(map_of(incoming.skip(k))));
        }
        assert(map_of(incoming.skip(incoming.len() as int)) =~= Map::<Seq<char>, V>::empty());
        assert(self@.union_prefer_right(Map::<Seq<char>, V>::empty()) =~= self@);
    }

    /// Hands the entries out, in the iteration order.
    pub fn into_entries(self) -> (r: Vec<(Name, V)>)
        ensures
            r@ == self.entries(),
            distinct_keys(r@),
    {
        proof {
            use_type_invariant(&self);
        }
        self.entries
    }
}

/// Replacing the value at one position changes the mapping at that key only.
proof fn lemma_update_value<V>(s: Seq<(Name, V)>, i: int, value: V)
    requires
        distinct_keys(s),
        0 <= i < s.len(),
    ensures
        distinct_keys(s.update(i, (s[i].0, value))),
        map_of(s.update(i, (s[i].0, value))) == map_of(s).insert(s[i].0@, value),
{
    let t = s.update(i, (s[i].0, value));
    assert forall|a: int, b: int| 0 <= a < b < t.len() implies (#[trigger] t[a]).0@ != (
    #[trigger] t[b]).0@ by {
        assert(t[a].0 == s[a].0 && t[b].0 == s[b].0);
    }
    assert forall|key: Seq<char>| has_key(t, key) == has_key(s, key) by {
        if has_key(s, key) {
            let j = index_of(s, key);
            assert(t[j].0@ == key);
        }
        if has_key(t, key) {
            let j = index_of(t, key);
            assert(s[j].0@ == key);
        }
    }
    assert forall|key: Seq<char>| #[trigger] has_key(t, key) implies map_of(t)[key] == map_of(
        s,
    ).insert(s[i].0@, value)[key] by {
        let j = index_of(t, key);
        lemma_map_of_entry(t, j);
        lemma_map_of_entry(s, j);
    }
    lemma_map_of_entry(s, i);
    assert(map_of(t) =~= map_of(s).insert(s[i].0@, value));
}

/// An entry with a new key, put at the end, adds that key to the mapping.
pub proof fn lemma_push_entry<V>(s: Seq<(Name, V)>, key: Name, value: V)
    requires
        distinct_keys(s),
        !has_key(s, key@),
    ensures
        distinct_keys(s.push((key, value))),
        map_of(s.push((key, value))) == map_of(s).insert(key@, value),
{
    let t = s.push((key, value));
    assert forall|a: int, b: int| 0 <= a < b < t.len() implies (#[trigger] t[a]).0@ != (
    #[trigger] t[b]).0@ by {
        assert(t[a] == s[a]);
        if b < s.len() {
            assert(t[b] == s[b]);
        }
    }
    assert forall|q: Seq<char>| has_key(t, q) == (has_key(s, q) || q == key@) by {
        if has_key(s, q) {
            let j = index_of(s, q);
            assert(t[j].0@ == q);
        }
        if q == key@ {
            assert(t[s.len() as int].0@ == q);
        }
        if has_key(t, q) {
            let j = index_of(t, q);
            if j < s.len() {
                assert(s[j].0@ == q);
            }
        }
    }
    assert forall|q: Seq<char>| #[trigger] has_key(t, q) implies map_of(t)[q] == map_of(s).insert(
        key@,
        value,
    )[q] by {
        let j = index_of(t, q);
        lemma_map_of_entry(t, j);
        if j < s.len() {
            assert(t[j] == s[j]);
            lemma_map_of_entry(s, j);
        }
    }
    assert(map_of(t) =~= map_of(s).insert(key@, value));
}

/// A sequence with distinct keys stands for a mapping with as many keys as
/// the sequence has entries.
pub proof fn lemma_map_of_len<V>(s: Seq<(Name, V)>)
    requires
        distinct_keys(s),
    ensures
        map_of(s).dom().finite(),
        map_of(s).dom().len() == s.len(),
    decreases s.len(),
{
    if s.len() == 0 {
        assert(map_of(s).dom() =~= Set::<Seq<char>>::empty());
    } else {
        let rest = s.drop_last();
        let last = s.last();
        assert forall|a: int, b: int| 0 <= a < b < rest.len() implies (#[trigger] rest[a]).0@ != (
        #[trigger] rest[b]).0@ by {
            assert(rest[a] == s[a] && rest[b] == s[b]);
        }
        lemma_map_of_len(rest);
        if has_key(rest, last.0@) {
            let j = index_of(rest, last.0@);
            assert(rest[j] == s[j]);
            assert(s[j].0@ != s[s.len() - 1].0@);
        }
        lemma_push_entry(rest, last.0, last.1);
        assert(s =~= rest.push((last.0, last.1)));
        assert(map_of(s).dom() =~= map_of(rest).dom().insert(last.0@));
    }
}

/// Taking one entry out removes its key from the mapping and nothing else.
proof fn lemma_remove_entry<V>(s: Seq<(Name, V)>, i: int)
    requires
        distinct_keys(s),
        0 <= i < s.len(),
    ensures
        distinct_keys(s.remove(i)),
        map_of(s.remove(i)) == map_of(s).remove(s[i].0@),
{
    let t = s.remove(i);
    let key = s[i].0@;
    assert forall|a: int| 0 <= a < t.len() implies #[trigger] t[a] == s[if a < i {
        a
    } else {
        a + 1
    }] by {}
    assert forall|a: int, b: int| 0 <= a < b < t.len() implies (#[trigger] t[a]).0@ != (
    #[trigger] t[b]).0@ by {
        let a0 = if a < i { a } else { a + 1 };
        let b0 = if b < i { b } else { b + 1 };
        assert(t[a] == s[a0] && t[b] == s[b0]);
    }
    assert forall|q: Seq<char>| has_key(t, q) == (has_key(s, q) && q != key) by {
        if has_key(s, q) && q != key {
            let j = index_of(s, q);
            let j1 = if j < i { j } else { j - 1 };
            assert(t[j1] == s[j]);
            assert(t[j1].0@ == q);
        }
        if has_key(t, q) {
            let j = index_of(t, q);
            let j0 = if j < i { j } else { j + 1 };
            assert(t[j] == s[j0]);
            assert(s[j0].0@ == q);
            if j0 < i {
                assert(s[j0].0@ != s[i].0@);
            } else {
                assert(s[i].0@ != s[j0].0@);
            }
        }
    }
    assert forall|q: Seq<char>| #[trigger] has_key(t, q) implies map_of(t)[q] == map_of(s)[q] by {
        let j = index_of(t, q);
        let j0 = if j < i { j } else { j + 1 };
        assert(t[j] == s[j0]);
        lemma_map_of_entry(t, j);
        lemma_map_of_entry(s, j0);
    }
    assert(map_of(t) =~= map_of(s).remove(key));
}

/// The mapping of a sequence is the mapping of its tail with the first entry put in.
proof fn lemma_skip_first<V>(s: Seq<(Name, V)>, k: int)
    requires
        distinct_keys(s),
        0 <= k < s.len(),
    ensures
        !map_of(s.skip(k + 1)).contains_key(s[k].0@),
        map_of(s.skip(k)) == map_of(s.skip(k + 1)).insert(s[k].0@, s[k].1),
{
    let a = s.skip(k);
    let b = s.skip(k + 1);
    let key = s[k].0@;
    if has_key(b, key) {
        let j = index_of(b, key);
        assert(b[j] == s[k + 1 + j]);
        assert(s[k].0@ != s[k + 1 + j].0@);
    }
    assert forall|x: int, y: int| 0 <= x < y < a.len() implies (#[trigger] a[x]).0@ != (
    #[trigger] a[y]).0@ by {
        assert(a[x] == s[k + x] && a[y] == s[k + y]);
    }
    assert forall|x: int, y: int| 0 <= x < y < b.len() implies (#[trigger] b[x]).0@ != (
    #[trigger] b[y]).0@ by {
        assert(b[x] == s[k + 1 + x] && b[y] == s[k + 1 + y]);
    }
    assert forall|q: Seq<char>| has_key(a, q) == (has_key(b, q) || q == key) by {
        if has_key(b, q) {
            let j = index_of(b, q);
            assert(a[j + 1] == b[j]);
            assert(a[j + 1].0@ == q);
        }
        if q == key {
            assert(a[0].0@ == q);
        }
        if has_key(a, q) {
            let j = index_of(a, q);
            if j > 0 {
                assert(b[j - 1] == a[j]);
                assert(b[j - 1].0@ == q);
            }
        }
    }
    assert forall|q: Seq<char>| #[trigger] has_key(a, q) implies map_of(a)[q] == map_of(b).insert(
        key,
        s[k].1,
    )[q] by {
        let j = index_of(a, q);
        lemma_map_of_entry(a, j);
        if j > 0 {
            assert(b[j - 1] == a[j]);
            lemma_map_of_entry(b, j - 1);
        }
    }
    assert(map_of(a) =~= map_of(b).insert(key, s[k].1));
}

} // verus!
