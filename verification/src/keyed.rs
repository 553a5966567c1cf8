//! A small map from `(data id, group id)` keys to values, kept in insertion order.

use vstd::prelude::*;

verus! {

/// The view of a configuration key: its data id and its group id.
pub type KeyView = (Seq<char>, Seq<char>);

/// The view of a key.
pub open spec fn key_view(k: (String, String)) -> KeyView {
    (k.0@, k.1@)
}

/// The map that a list of entries stands for; a later entry for a key overrides an
/// earlier one.
pub open spec fn map_of<V>(s: Seq<((String, String), V)>) -> Map<KeyView, V>
    decreases s.len(),
{
    if s.len() == 0 {
        Map::empty()
    } else {
        map_of(s.drop_last()).insert(key_view(s.last().0), s.last().1)
    }
}

/// Whether no two entries have the same key.
pub open spec fn keys_distinct<V>(s: Seq<((String, String), V)>) -> bool {
    forall|i: int, j: int|
        0 <= i < s.len() && 0 <= j < s.len() && i != j ==> key_view(#[trigger] s[i].0)
            != key_view(#[trigger] s[j].0)
}

/// A key is in the map exactly when some entry has it, and then it maps to that
/// entry's value.
pub proof fn lemma_map_of_lookup<V>(s: Seq<((String, String), V)>, k: KeyView)
    requires
        keys_distinct(s),
    ensures
        map_of(s).contains_key(k) <==> exists|i: int| 0 <= i < s.len() && key_view(s[i].0) == k,
        forall|i: int|
            0 <= i < s.len() && key_view(#[trigger] s[i].0) == k ==> map_of(s)[k] == s[i].1,
    decreases s.len(),
{
    if s.len() > 0 {
        let t = s.drop_last();
        assert(keys_distinct(t));
        lemma_map_of_lookup(t, k);
        if key_view(s.last().0) != k {
            if exists|i: int| 0 <= i < s.len() && key_view(s[i].0) == k {
                let i = choose|i: int| 0 <= i < s.len() && key_view(s[i].0) == k;
                assert(i < t.len());
                assert(t[i] == s[i]);
            }
            assert forall|i: int|
                0 <= i < s.len() && key_view(#[trigger] s[i].0) == k implies map_of(s)[k]
                == s[i].1 by {
                assert(i < t.len());
                assert(t[i] == s[i]);
            }
        } else {
            assert forall|i: int|
                0 <= i < s.len() && key_view(#[trigger] s[i].0) == k implies map_of(s)[k]
                == s[i].1 by {
                if i != s.len() - 1 {
                    assert(key_view(s[i].0) != key_view(s[s.len() - 1].0));
                }
            }
        }
    }
}

/// Replacing the entry at `i` by one with the same key updates the map at that key.
pub proof fn lemma_map_of_update<V>(s: Seq<((String, String), V)>, i: int, e: ((String, String), V))
    requires
        keys_distinct(s),
        0 <= i < s.len(),
        key_view(e.0) == key_view(s[i].0),
    ensures
        keys_distinct(s.update(i, e)),
        map_of(s.update(i, e)) == map_of(s).insert(key_view(e.0), e.1),
    decreases s.len(),
{
    let u = s.update(i, e);
    assert forall|a: int, b: int|
        0 <= a < u.len() && 0 <= b < u.len() && a != b implies key_view(#[trigger] u[a].0)
        != key_view(#[trigger] u[b].0) by {
        assert(key_view(u[a].0) == key_view(s[a].0));
        assert(key_view(u[b].0) == key_view(s[b].0));
    }
    if i == s.len() - 1 {
        assert(u.drop_last() =~= s.drop_last());
        assert(map_of(u) =~= map_of(s).insert(key_view(e.0), e.1));
    } else {
        let t = s.drop_last();
        assert(u.drop_last() =~= t.update(i, e));
        assert(keys_distinct(t));
        lemma_map_of_update(t, i, e);
        assert(key_view(s.last().0) != key_view(s[i].0));
        assert(u.last() == s.last());
        assert(map_of(u) =~= map_of(s).insert(key_view(e.0), e.1));
    }
}

/// Entries keyed by `(data id, group id)`, no key twice, in the order the keys first came.
pub struct KeyedList<V> {
    entries: Vec<((String, String), V)>,
}

impl<V> KeyedList<V> {
    /// The entries, in order.
    pub closed spec fn entries(&self) -> Seq<((String, String), V)> {
        self.entries@
    }

    /// The map from keys to values.
    pub open spec fn view(&self) -> Map<KeyView, V> {
        map_of(self.entries())
    }

    /// Whether no key occurs twice.
    pub open spec fn wf(&self) -> bool {
        keys_distinct(self.entries())
    }

    /// An empty list.
    pub fn new() -> (r: Self)
        ensures
            r.wf(),
            r.entries() == Seq::<((String, String), V)>::empty(),
            r@ == Map::<KeyView, V>::empty(),
    {
        KeyedList { entries: Vec::new() }
    }

    /// The number of entries.
    pub fn len(&self) -> (n: usize)
        ensures
            n == self.entries().len(),
    {
        self.entries.len()
    }

    /// The key of entry `i`.
    pub fn key_at(&self, i: usize) -> (k: &(String, String))
        requires
            i < self.entries().len(),
        ensures
            *k == self.entries()[i as int].0,
    {
        &self.entries[i].0
    }

    /// The value of entry `i`.
    pub fn value_at(&self, i: usize) -> (v: &V)
        requires
            i < self.entries().len(),
        ensures
            *v == self.entries()[i as int].1,
    {
        &self.entries[i].1
    }

    /// The position of the entry for `data_id` and `group_id`, if there is one.
    pub fn find(&self, data_id: &str, group_id: &str) -> (r: Option<usize>)
        requires
            self.wf(),
        ensures
            r matches Some(i) ==> i < self.entries().len() && key_view(self.entries()[i as int].0)
                == (data_id@, group_id@),
            r is None ==> !self@.contains_key((data_id@, group_id@)),
    {
        let n = self.entries.len();
        let mut i: usize = 0;
        while i < n
            invariant
                n == self.entries@.len(),
                i <= n,
                forall|j: int|
                    0 <= j < i ==> key_view(#[trigger] self.entries@[j].0) != (data_id@, group_id@),
            decreases n - i,
        {
            let e = &self.entries[i];
            if str_eq(e.0.0.as_str(), data_id) && str_eq(e.0.1.as_str(), group_id) {
                return Some(i);
            }
            i = i + 1;
        }
        proof {
            lemma_map_of_lookup(self.entries@, (data_id@, group_id@));
        }
        None
    }

    /// The value for `data_id` and `group_id`, if there is one.
    pub fn get(&self, data_id: &str, group_id: &str) -> (r: Option<&V>)
        requires
            self.wf(),
        ensures
            r matches Some(v) ==> self@.contains_key((data_id@, group_id@)) && *v == self@[(
                data_id@,
                group_id@,
            )],
            r is None ==> !self@.contains_key((data_id@, group_id@)),
    {
        match self.find(data_id, group_id) {
            Some(i) => {
                proof {
                    lemma_map_of_lookup(self.entries@, (data_id@, group_id@));
                }
                Some(&self.entries[i].1)
            },
            None => None,
        }
    }

    /// Sets the value for `key` to `v`, adding the key at the end if it is new.
    pub fn insert(&mut self, key: (String, String), v: V)
        requires
            old(self).wf(),
        ensures
            final(self).wf(),
            final(self)@ == old(self)@.insert(key_view(key), v),
            old(self)@.contains_key(key_view(key)) ==> final(self).entries().len()
                == old(self).entries().len(),
            !old(self)@.contains_key(key_view(key)) ==> final(self).entries() == old(
                self,
            ).entries().push((key, v)),
    {
        match self.find(key.0.as_str(), key.1.as_str()) {
            Some(i) => {
                let ghost before = self.entries@;
                proof {
                    lemma_map_of_lookup(before, key_view(key));
                    lemma_map_of_update(before, i as int, (key, v));
                }
                self.entries.set(i, (key, v));
            },
            None => {
                let ghost before = self.entries@;
                proof {
                    lemma_map_of_lookup(before, key_view(key));
                }
                self.entries.push((key, v));
                assert(self.entries@.drop_last() =~= before);
                assert forall|a: int, b: int|
                    0 <= a < self.entries@.len() && 0 <= b < self.entries@.len() && a != b implies
                    key_view(#[trigger] self.entries@[a].0) != key_view(
                    #[trigger] self.entries@[b].0) by {
                    if a < before.len() && b < before.len() {
                        assert(self.entries@[a] == before[a]);
                        assert(self.entries@[b] == before[b]);
                    } else if a < before.len() {
                        assert(self.entries@[a] == before[a]);
                    } else {
                        assert(self.entries@[b] == before[b]);
                    }
                }
            },
        }
    }
}

impl<T> KeyedList<Vec<T>> {
    /// Appends `x` to the list of values of `key`, starting a new list if the key is new.
    pub fn push_value(&mut self, key: (String, String), x: T)
        requires
            old(self).wf(),
        ensures
            final(self).wf(),
            final(self)@.dom() == old(self)@.dom().insert(key_view(key)),
            final(self)@[key_view(key)]@ == if old(self)@.contains_key(key_view(key)) {
                old(self)@[key_view(key)]@.push(x)
            } else {
                seq![x]
            },
            forall|k: KeyView|
                k != key_view(key) && #[trigger] old(self)@.contains_key(k) ==> final(self)@[k]
                    == old(self)@[k],
    {
        match self.find(key.0.as_str(), key.1.as_str()) {
            Some(i) => {
                let ghost before = self.entries@;
                proof {
                    lemma_map_of_lookup(before, key_view(key));
                }
                let mut e = self.entries.remove(i);
                e.1.push(x);
                let ghost e2 = e;
                assert(key_view(e2.0) == key_view(key));
                self.entries.insert(i, e);
                assert(self.entries@ =~= before.update(i as int, e2));
                proof {
                    lemma_map_of_update(before, i as int, e2);
                }
            },
            None => {
                let ghost before = self.entries@;
                proof {
                    lemma_map_of_lookup(before, key_view(key));
                }
                let mut v: Vec<T> = Vec::new();
                v.push(x);
                assert(v@ =~= seq![x]);
                self.entries.push((key, v));
                assert(self.entries@.drop_last() =~= before);
                assert forall|a: int, b: int|
                    0 <= a < self.entries@.len() && 0 <= b < self.entries@.len() && a != b implies
                    key_view(#[trigger] self.entries@[a].0) != key_view(
                    #[trigger] self.entries@[b].0) by {
                    if a < before.len() && b < before.len() {
                        assert(self.entries@[a] == before[a]);
                        assert(self.entries@[b] == before[b]);
                    } else if a < before.len() {
                        assert(self.entries@[a] == before[a]);
                    } else {
                        assert(self.entries@[b] == before[b]);
                    }
                }
            },
        }
    }
}

/// Whether two strings are equal.
pub fn str_eq(a: &str, b: &str) -> (r: bool)
    ensures
        r == (a@ == b@),
{
    let x = String::from_str(a);
    let y = String::from_str(b);
    x == y
}

} // verus!
