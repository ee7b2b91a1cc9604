//! A small map, scanned linearly.
use vstd::prelude::*;
use vstd::std_specs::cmp::PartialEqSpec;

verus! {

/// Values by key, at most one for each. A linear scan is best for the handful
/// of entries that an output carries.
pub struct Extensions<K, V> {
    entries: Vec<(K, V)>,
}

/// Whether `==` on keys means that they are the same.
pub open spec fn has_plain_keys<K: PartialEq>() -> bool {
    &&& K::obeys_eq_spec()
    &&& forall|a: K, b: K| #[trigger] a.eq_spec(&b) == (a == b)
}

/// The map that a list of entries stands for.
pub open spec fn map_of<K, V>(entries: Seq<(K, V)>) -> Map<K, V>
    decreases entries.len(),
{
    if entries.len() == 0 {
        Map::empty()
    } else {
        map_of(entries.drop_last()).insert(entries.last().0, entries.last().1)
    }
}

/// Whether no key occurs twice.
pub open spec fn keys_differ<K, V>(entries: Seq<(K, V)>) -> bool {
    forall|i: int, j: int|
        0 <= i < j < entries.len() ==> (#[trigger] entries[i]).0 != (#[trigger] entries[j]).0
}

/// The map holds each entry, and nothing else.
proof fn lemma_map_of<K, V>(entries: Seq<(K, V)>)
    requires
        keys_differ(entries),
    ensures
        map_of(entries).dom().finite(),
        map_of(entries).len() == entries.len(),
        forall|i: int|
            0 <= i < entries.len() ==> map_of(entries).contains_key((#[trigger] entries[i]).0)
                && map_of(entries)[entries[i].0] == entries[i].1,
        forall|k: K| #[trigger]
            map_of(entries).contains_key(k) ==> exists|i: int|
                0 <= i < entries.len() && (#[trigger] entries[i]).0 == k,
    decreases entries.len(),
{
    if entries.len() > 0 {
        let before = entries.drop_last();
        let last = entries.last();
        assert(keys_differ(before));
        lemma_map_of(before);
        if map_of(before).contains_key(last.0) {
            let i = choose|i: int| 0 <= i < before.len() && (#[trigger] before[i]).0 == last.0;
            assert(entries[i].0 == entries[entries.len() - 1].0);
        }
        assert forall|i: int| 0 <= i < entries.len() implies map_of(entries).contains_key(
            (#[trigger] entries[i]).0,
        ) && map_of(entries)[entries[i].0] == entries[i].1 by {
            if i < before.len() {
                assert(before[i] == entries[i]);
                assert(entries[i].0 != entries[entries.len() - 1].0);
            }
        }
        assert forall|k: K| #[trigger] map_of(entries).contains_key(k) implies exists|i: int|
            0 <= i < entries.len() && (#[trigger] entries[i]).0 == k by {
            if k == last.0 {
                assert(entries[entries.len() - 1].0 == k);
            } else {
                assert(map_of(before).contains_key(k));
                let i = choose|i: int| 0 <= i < before.len() && (#[trigger] before[i]).0 == k;
                assert(entries[i].0 == k);
            }
        }
    }
}

/// A key that no entry has is not in the map.
proof fn lemma_absent<K, V>(entries: Seq<(K, V)>, key: K)
    requires
        keys_differ(entries),
        forall|i: int| 0 <= i < entries.len() ==> (#[trigger] entries[i]).0 != key,
    ensures
        !map_of(entries).contains_key(key),
{
    lemma_map_of(entries);
}

/// Two lists that hold the same entries stand for the same map.
proof fn lemma_same_map<K, V>(a: Seq<(K, V)>, m: Map<K, V>)
    requires
        keys_differ(a),
        forall|i: int|
            0 <= i < a.len() ==> m.contains_key((#[trigger] a[i]).0) && m[a[i].0] == a[i].1,
        forall|k: K| #[trigger]
            m.contains_key(k) ==> exists|i: int| 0 <= i < a.len() && (#[trigger] a[i]).0 == k,
    ensures
        map_of(a) == m,
{
    lemma_map_of(a);
    assert forall|k: K| #[trigger] m.contains_key(k) implies map_of(a).contains_key(k) && map_of(
        a,
    )[k] == m[k] by {
        let i = choose|i: int| 0 <= i < a.len() && (#[trigger] a[i]).0 == k;
        assert(map_of(a).contains_key(a[i].0));
    }
    assert forall|k: K| #[trigger] map_of(a).contains_key(k) implies m.contains_key(k) by {
        let i = choose|i: int| 0 <= i < a.len() && (#[trigger] a[i]).0 == k;
        assert(m.contains_key(a[i].0));
    }
    assert(map_of(a) =~= m);
}

impl<K, V> View for Extensions<K, V> {
    type V = Map<K, V>;

    closed spec fn view(&self) -> Map<K, V> {
        map_of(self.entries@)
    }
}

impl<K, V> Extensions<K, V> {
    #[verifier::type_invariant]
    spec fn well_formed(self) -> bool {
        keys_differ(self.entries@)
    }

    /// An empty map.
    pub fn new() -> (r: Self)
        ensures
            r@ == Map::<K, V>::empty(),
    {
        Extensions { entries: Vec::new() }
    }

    /// Number of values.
    pub fn len(&self) -> (r: usize)
        ensures
            r == self@.len(),
            self@.dom().finite(),
    {
        proof {
            use_type_invariant(self);
            lemma_map_of(self.entries@);
        }
        self.entries.len()
    }

    /// Whether there is no value.
    pub fn is_empty(&self) -> (r: bool)
        ensures
            r == (self@ == Map::<K, V>::empty()),
    {
        proof {
            use_type_invariant(self);
            lemma_map_of(self.entries@);
            if self.entries@.len() > 0 {
                assert(self@.contains_key(self.entries@[0].0));
            }
        }
        self.entries.len() == 0
    }
}

impl<K: PartialEq, V> Extensions<K, V> {
    /// The place of `key`, or the length if it is not there.
    fn position(&self, key: &K) -> (i: usize)
        requires
            has_plain_keys::<K>(),
        ensures
            i <= self.entries@.len(),
            i < self.entries@.len() ==> self.entries@[i as int].0 == *key && self@.contains_key(*key)
                && self@[*key] == self.entries@[i as int].1,
            i == self.entries@.len() ==> !self@.contains_key(*key),
    {
        proof {
            use_type_invariant(self);
            lemma_map_of(self.entries@);
        }
        let n: usize = self.entries.len();
        let mut i: usize = 0;
        while i < n
            invariant
                i <= n == self.entries@.len(),
                has_plain_keys::<K>(),
                keys_differ(self.entries@),
                forall|j: int| 0 <= j < i ==> (#[trigger] self.entries@[j]).0 != *key,
            decreases n - i,
        {
            if self.entries[i].0 == *key {
                proof {
                    lemma_map_of(self.entries@);
                }
                return i;
            }
            i += 1;
        }
        proof {
            lemma_absent(self.entries@, *key);
        }
        n
    }

    /// The value of `key`.
    pub fn get(&self, key: &K) -> (r: Option<&V>)
        requires
            has_plain_keys::<K>(),
        ensures
            r == (if self@.contains_key(*key) {
                Some(&self@[*key])
            } else {
                None
            }),
    {
        let i: usize = self.position(key);
        if i < self.entries.len() {
            Some(&self.entries[i].1)
        } else {
            None
        }
    }

    /// Whether `key` has a value.
    pub fn contains(&self, key: &K) -> (r: bool)
        requires
            has_plain_keys::<K>(),
        ensures
            r == self@.contains_key(*key),
    {
        self.position(key) < self.entries.len()
    }

    /// Take the value of `key` out.
    pub fn remove(&mut self, key: &K) -> (r: Option<V>)
        requires
            has_plain_keys::<K>(),
        ensures
            final(self)@ == old(self)@.remove(*key),
            final(self)@.len() == old(self)@.len() - (if old(self)@.contains_key(*key) {
                1int
            } else {
                0
            }),
            r == (if old(self)@.contains_key(*key) {
                Some(old(self)@[*key])
            } else {
                None
            }),
    {
        let i: usize = self.position(key);
        proof {
            use_type_invariant(&*self);
        }
        let n: usize = self.entries.len();
        if i >= n {
            assert(self@.remove(*key) =~= self@);
            return None;
        }
        let ghost before = self.entries@;
        let mut entries: Vec<(K, V)> = Vec::new();
        std::mem::swap(&mut entries, &mut self.entries);
        let (_, value) = entries.swap_remove(i);
        let ghost after = entries@;
        proof {
            lemma_map_of(before);
            assert(keys_differ(after));
            let m = map_of(before).remove(*key);
            assert forall|j: int| 0 <= j < after.len() implies m.contains_key(
                (#[trigger] after[j]).0,
            ) && m[after[j].0] == after[j].1 by {
                let k = if j == i {
                    before.len() - 1
                } else {
                    j
                };
                assert(after[j] == before[k]);
                assert(before[k].0 != before[i as int].0);
            }
            assert forall|k: K| #[trigger] m.contains_key(k) implies exists|j: int|
                0 <= j < after.len() && (#[trigger] after[j]).0 == k by {
                let z = choose|z: int| 0 <= z < before.len() && (#[trigger] before[z]).0 == k;
                let j = if z == before.len() - 1 {
                    i as int
                } else {
                    z
                };
                assert(after[j].0 == k);
            }
            lemma_same_map(after, m);
            lemma_map_of(after);
        }
        self.entries = entries;
        Some(value)
    }

    /// Give `key` a value; the one it had is returned.
    pub fn insert(&mut self, key: K, value: V) -> (r: Option<V>)
        requires
            has_plain_keys::<K>(),
        ensures
            final(self)@ == old(self)@.insert(key, value),
            final(self)@.len() == old(self)@.len() + (if old(self)@.contains_key(key) {
                0int
            } else {
                1
            }),
            r == (if old(self)@.contains_key(key) {
                Some(old(self)@[key])
            } else {
                None
            }),
    {
        let old_value = self.remove(&key);
        proof {
            use_type_invariant(&*self);
            lemma_map_of(self.entries@);
        }
        let ghost before = self.entries@;
        let mut entries: Vec<(K, V)> = Vec::new();
        std::mem::swap(&mut entries, &mut self.entries);
        entries.push((key, value));
        proof {
            assert(entries@.drop_last() =~= before);
            assert forall|i: int, j: int| 0 <= i < j < entries@.len() implies (
            #[trigger] entries@[i]).0 != (#[trigger] entries@[j]).0 by {
                if j == before.len() {
                    assert(map_of(before).contains_key(before[i].0));
                }
            }
            assert(map_of(entries@) == map_of(before).insert(key, value));
            lemma_map_of(entries@);
            assert(old(self)@.remove(key).insert(key, value) =~= old(self)@.insert(key, value));
        }
        self.entries = entries;
        old_value
    }
}

/// A copy has the same keys, each with a clone of its value.
impl<K: Copy, V: Clone> Clone for Extensions<K, V> {
    fn clone(&self) -> (r: Self)
        ensures
            r@.dom() == self@.dom(),
            forall|k: K| #[trigger] r@.contains_key(k) ==> cloned::<V>(self@[k], r@[k]),
    {
        proof {
            use_type_invariant(self);
        }
        let n: usize = self.entries.len();
        let mut entries: Vec<(K, V)> = Vec::new();
        let mut i: usize = 0;
        while i < n
            invariant
                i <= n == self.entries@.len(),
                entries@.len() == i,
                forall|j: int|
                    0 <= j < i ==> (#[trigger] entries@[j]).0 == self.entries@[j].0 && cloned::<V>(
                        self.entries@[j].1,
                        entries@[j].1,
                    ),
            decreases n - i,
        {
            let value = self.entries[i].1.clone();
            entries.push((self.entries[i].0, value));
            i += 1;
        }
        proof {
            let a = self.entries@;
            let b = entries@;
            assert forall|x: int, y: int| 0 <= x < y < b.len() implies (#[trigger] b[x]).0 != (
            #[trigger] b[y]).0 by {
                assert(a[x].0 != a[y].0);
            }
            lemma_map_of(a);
            lemma_map_of(b);
            assert forall|k: K| #[trigger] map_of(b).contains_key(k) implies map_of(a).contains_key(
                k,
            ) && cloned::<V>(map_of(a)[k], map_of(b)[k]) by {
                let x = choose|x: int| 0 <= x < b.len() && (#[trigger] b[x]).0 == k;
                assert(a[x].0 == k);
            }
            assert forall|k: K| #[trigger] map_of(a).contains_key(k) implies map_of(b).contains_key(
                k,
            ) by {
                let x = choose|x: int| 0 <= x < a.len() && (#[trigger] a[x]).0 == k;
                assert(b[x].0 == k);
            }
            assert(map_of(b).dom() =~= map_of(a).dom());
        }
        Extensions { entries }
    }
}

/// What a key was last given is what it has; every other key is as it was, and
/// the map grows only by a key that it did not have.
pub proof fn law_insert_sets_one_key<K, V>(m: Map<K, V>, key: K, value: V, other: K)
    requires
        m.dom().finite(),
        other != key,
    ensures
        m.insert(key, value).contains_key(key) && m.insert(key, value)[key] == value,
        m.insert(key, value).contains_key(other) == m.contains_key(other),
        m.contains_key(other) ==> m.insert(key, value)[other] == m[other],
        m.insert(key, value).len() == m.len() + (if m.contains_key(key) {
            0int
        } else {
            1
        }),
{
}

/// A key that was taken out is gone; every other key is as it was.
pub proof fn law_remove_clears_one_key<K, V>(m: Map<K, V>, key: K, other: K)
    requires
        m.dom().finite(),
        other != key,
    ensures
        !m.remove(key).contains_key(key),
        m.remove(key).contains_key(other) == m.contains_key(other),
        m.contains_key(other) ==> m.remove(key)[other] == m[other],
        m.remove(key).len() == m.len() - (if m.contains_key(key) {
            1int
        } else {
            0
        }),
{
}

impl<K, V> Default for Extensions<K, V> {
    fn default() -> (r: Self)
        ensures
            r@ == Map::<K, V>::empty(),
    {
        Extensions::new()
    }
}

} // verus!
