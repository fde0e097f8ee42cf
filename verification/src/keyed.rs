//! Text-keyed maps kept as insertion-ordered entry lists.
use vstd::prelude::*;
use crate::text::str_eq;

verus! {

/// A map from text keys to values, kept as the list of its insertions; a
/// later insertion of a key overrides earlier ones.
#[derive(Debug)]
pub struct KeyedList<V> {
    pub entries: Vec<(String, V)>,
}

/// The map that a list of insertions builds, later entries winning.
pub open spec fn entries_map<V>(e: Seq<(String, V)>) -> Map<Seq<char>, V>
    decreases e.len(),
{
    if e.len() == 0 {
        Map::empty()
    } else {
        entries_map(e.drop_last()).insert(e.last().0@, e.last().1)
    }
}

/// The value of `k` in the map of the first `n` entries, found from the back.
proof fn lemma_entries_map_lookup<V>(e: Seq<(String, V)>, k: Seq<char>, n: int)
    requires
        0 <= n <= e.len(),
    ensures
        entries_map(e.take(n)).contains_key(k) <==> exists|i: int| 0 <= i < n && (#[trigger] e[i]).0@ == k,
    decreases n,
{
    if n > 0 {
        assert(e.take(n).drop_last() =~= e.take(n - 1));
        lemma_entries_map_lookup(e, k, n - 1);
        if entries_map(e.take(n)).contains_key(k) && e[n - 1].0@ != k {
            let i = choose|i: int| 0 <= i < n - 1 && (#[trigger] e[i]).0@ == k;
        }
    }
}

/// Replacing the value of the last entry of a key replaces the key's value
/// in the map.
proof fn lemma_entries_map_update_last<V>(e: Seq<(String, V)>, i: int, v: V)
    requires
        0 <= i < e.len(),
        forall|j: int| i < j < e.len() ==> (#[trigger] e[j]).0@ != e[i].0@,
    ensures
        entries_map(e.update(i, (e[i].0, v))) == entries_map(e).insert(e[i].0@, v),
    decreases e.len(),
{
    let u = e.update(i, (e[i].0, v));
    if i == e.len() - 1 {
        assert(u.drop_last() =~= e.drop_last());
        assert(entries_map(u) =~= entries_map(e).insert(e[i].0@, v));
    } else {
        let d = e.drop_last();
        assert(u.drop_last() =~= d.update(i, (d[i].0, v)));
        lemma_entries_map_update_last(d, i, v);
        assert(entries_map(u) =~= entries_map(e).insert(e[i].0@, v));
    }
}

impl<V> View for KeyedList<V> {
    type V = Map<Seq<char>, V>;

    open spec fn view(&self) -> Map<Seq<char>, V> {
        entries_map(self.entries@)
    }
}

impl<V> KeyedList<V> {
    /// An empty map.
    pub fn new() -> (m: KeyedList<V>)
        ensures
            m@ == Map::<Seq<char>, V>::empty(),
            m.entries@.len() == 0,
    {
        KeyedList { entries: Vec::new() }
    }

    /// Sets `key` to `value`.
    pub fn insert(&mut self, key: String, value: V)
        ensures
            final(self)@ == old(self)@.insert(key@, value),
            final(self).entries@ == old(self).entries@.push((key, value)),
    {
        let ghost e = self.entries@;
        self.entries.push((key, value));
        assert(self.entries@.drop_last() =~= e);
    }

    /// Whether the map has no entry.
    pub fn is_empty(&self) -> (b: bool)
        ensures
            b == (self@ == Map::<Seq<char>, V>::empty()),
    {
        proof {
            if self.entries@.len() > 0 {
                let e = self.entries@;
                assert(self@.contains_key(e.last().0@));
            }
        }
        self.entries.len() == 0
    }

    /// Position of the last entry of `key`, if any.
    fn last_index(&self, key: &str) -> (r: Option<usize>)
        ensures
            match r {
                Some(i) => {
                    &&& i < self.entries@.len()
                    &&& self.entries@[i as int].0@ == key@
                    &&& forall|j: int| i < j < self.entries@.len() ==> (#[trigger] self.entries@[j]).0@ != key@
                    &&& self@.contains_key(key@)
                    &&& self@[key@] == self.entries@[i as int].1
                },
                None => !self@.contains_key(key@),
            },
    {
        let ghost e = self.entries@;
        let mut n: usize = self.entries.len();
        assert(e.take(n as int) =~= e);
        while n > 0
            invariant
                n <= e.len(),
                e == self.entries@,
                forall|j: int| n <= j < e.len() ==> (#[trigger] e[j]).0@ != key@,
                forall|k: Seq<char>| k == key@ ==> (self@.contains_key(k) <==> entries_map(e.take(n as int)).contains_key(k)),
                self@.contains_key(key@) ==> self@[key@] == entries_map(e.take(n as int))[key@],
            decreases n,
        {
            assert(e.take(n as int).drop_last() =~= e.take(n - 1));
            if str_eq(self.entries[n - 1].0.as_str(), key) {
                return Some(n - 1);
            }
            n -= 1;
        }
        proof {
            lemma_entries_map_lookup(e, key@, 0);
        }
        None
    }

    /// Whether `key` has a value.
    pub fn contains_key(&self, key: &str) -> (b: bool)
        ensures
            b == self@.contains_key(key@),
    {
        self.last_index(key).is_some()
    }

    /// The value of `key`, to be changed in place.
    pub fn get_mut(&mut self, key: &str) -> (v: &mut V)
        requires
            old(self)@.contains_key(key@),
        ensures
            *v == old(self)@[key@],
            final(self)@ == old(self)@.insert(key@, *final(v)),
    {
        let i = self.last_index(key).unwrap();
        let ghost e = self.entries@;
        let r = &mut self.entries[i].1;
        proof {
            lemma_entries_map_update_last(e, i as int, *final(r));
        }
        r
    }

    /// The value of `key`, if any.
    pub fn get(&self, key: &str) -> (r: Option<&V>)
        ensures
            r matches Some(v) ==> self@.contains_key(key@) && self@[key@] == *v,
            r is None ==> !self@.contains_key(key@),
    {
        let ghost e = self.entries@;
        let mut n: usize = self.entries.len();
        assert(e.take(n as int) =~= e);
        while n > 0
            invariant
                n <= e.len(),
                e == self.entries@,
                forall|j: int| n <= j < e.len() ==> (#[trigger] e[j]).0@ != key@,
                forall|k: Seq<char>| k == key@ ==> (self@.contains_key(k) <==> entries_map(e.take(n as int)).contains_key(k)),
                self@.contains_key(key@) ==> self@[key@] == entries_map(e.take(n as int))[key@],
            decreases n,
        {
            assert(e.take(n as int).drop_last() =~= e.take(n - 1));
            if str_eq(self.entries[n - 1].0.as_str(), key) {
                return Some(&self.entries[n - 1].1);
            }
            n -= 1;
        }
        proof {
            lemma_entries_map_lookup(e, key@, 0);
        }
        None
    }
}

} // verus!
