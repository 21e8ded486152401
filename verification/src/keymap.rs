//! An association map kept as a vector of distinct-key entries.
//!
//! `KeyMap` stands in for the ordered maps of the contracts: its abstract
//! value is a `Map` from key views to values, and it keeps the order in which
//! keys were first inserted, which is also the order in which `key_at` and
//! `value_at` hand the entries out.
use vstd::prelude::*;

verus! {

/// A key that can be compared with another key of its type by value.
pub trait MapKey: View + Sized {
    /// Whether two keys have the same value.
    fn same_key(&self, other: &Self) -> (r: bool)
        ensures
            r == (self@ == other@),
    ;

    /// A copy of the key with the same value.
    fn copy_key(&self) -> (r: Self)
        ensures
            r@ == self@,
    ;
}

impl MapKey for [u8; 32] {
    fn same_key(&self, other: &Self) -> (r: bool) {
        let mut i: usize = 0;
        while i < 32
            invariant
                i <= 32,
                self@.len() == 32,
                other@.len() == 32,
                forall|j: int| 0 <= j < i ==> self@[j] == other@[j],
            decreases 32 - i,
        {
            if self[i] != other[i] {
                assert(self@[i as int] != other@[i as int]);
                return false;
            }
            i += 1;
        }
        assert(self@ =~= other@);
        true
    }

    fn copy_key(&self) -> (r: Self) {
        *self
    }
}

impl MapKey for u64 {
    fn same_key(&self, other: &Self) -> (r: bool) {
        *self == *other
    }

    fn copy_key(&self) -> (r: Self) {
        *self
    }
}

impl MapKey for u32 {
    fn same_key(&self, other: &Self) -> (r: bool) {
        *self == *other
    }

    fn copy_key(&self) -> (r: Self) {
        *self
    }
}

impl MapKey for u16 {
    fn same_key(&self, other: &Self) -> (r: bool) {
        *self == *other
    }

    fn copy_key(&self) -> (r: Self) {
        *self
    }
}

impl MapKey for String {
    fn same_key(&self, other: &Self) -> (r: bool) {
        *self == *other
    }

    fn copy_key(&self) -> (r: Self) {
        self.clone()
    }
}

impl<A: MapKey, B: MapKey> MapKey for (A, B) {
    fn same_key(&self, other: &Self) -> (r: bool) {
        self.0.same_key(&other.0) && self.1.same_key(&other.1)
    }

    fn copy_key(&self) -> (r: Self) {
        (self.0.copy_key(), self.1.copy_key())
    }
}

/// The key views of a sequence of entries, in order.
pub open spec fn key_views<K: View, V>(s: Seq<(K, V)>) -> Seq<K::V> {
    s.map_values(|e: (K, V)| e.0@)
}

/// Whether no two entries have keys of the same value.
pub open spec fn keys_unique<K: View, V>(s: Seq<(K, V)>) -> bool {
    forall|i: int, j: int|
        0 <= i < s.len() && 0 <= j < s.len() && i != j ==> #[trigger] s[i].0@ != #[trigger] s[j].0@
}

/// Whether the entry at index `i` has a key of value `kv`.
pub open spec fn key_at_index<K: View, V>(s: Seq<(K, V)>, kv: K::V, i: int) -> bool {
    0 <= i < s.len() && s[i].0@ == kv
}

/// The map that a sequence of entries stands for.
pub open spec fn entries_map<K: View, V>(s: Seq<(K, V)>) -> Map<K::V, V> {
    Map::new(
        |kv: K::V| exists|i: int| #[trigger] key_at_index(s, kv, i),
        |kv: K::V| s[choose|i: int| #[trigger] key_at_index(s, kv, i)].1,
    )
}

/// Entry `i` of a sequence with distinct keys is what its map holds for that key.
pub proof fn lemma_entries_map_at<K: View, V>(s: Seq<(K, V)>, i: int)
    requires
        keys_unique(s),
        0 <= i < s.len(),
    ensures
        entries_map(s).contains_key(s[i].0@),
        entries_map(s)[s[i].0@] == s[i].1,
{
    let kv = s[i].0@;
    assert(key_at_index(s, kv, i));
    let j = choose|j: int| #[trigger] key_at_index(s, kv, j);
    assert(j == i);
}

/// A key of the map is the key of some entry.
pub proof fn lemma_entries_map_key<K: View, V>(s: Seq<(K, V)>, kv: K::V)
    requires
        keys_unique(s),
        entries_map(s).contains_key(kv),
    ensures
        exists|i: int| #[trigger] key_at_index(s, kv, i),
{
}

/// The domain of the map is the set of key views, and its size the number of entries.
pub proof fn lemma_entries_map_len<K: View, V>(s: Seq<(K, V)>)
    requires
        keys_unique(s),
    ensures
        entries_map(s).dom() =~= key_views(s).to_set(),
        entries_map(s).dom().len() == s.len(),
        entries_map(s).dom().finite(),
{
    let ks = key_views(s);
    assert forall|kv: K::V| entries_map(s).dom().contains(kv) implies ks.to_set().contains(kv) by {
        let i = choose|i: int| #[trigger] key_at_index(s, kv, i);
        assert(ks[i] == kv);
    }
    assert forall|kv: K::V| ks.to_set().contains(kv) implies entries_map(s).dom().contains(kv) by {
        let i = choose|i: int| 0 <= i < ks.len() && ks[i] == kv;
        assert(key_at_index(s, kv, i));
    }
    assert(ks.no_duplicates()) by {
        assert forall|i: int, j: int| 0 <= i < ks.len() && 0 <= j < ks.len() && i != j implies ks[i]
            != ks[j] by {
            assert(s[i].0@ != s[j].0@);
        }
    }
    ks.unique_seq_to_set();
    vstd::seq_lib::seq_to_set_is_finite(ks);
}

/// Replacing entry `i` by one with a key of the same value updates that key in the map.
pub proof fn lemma_entries_map_update<K: View, V>(s: Seq<(K, V)>, i: int, e: (K, V))
    requires
        keys_unique(s),
        0 <= i < s.len(),
        e.0@ == s[i].0@,
    ensures
        keys_unique(s.update(i, e)),
        entries_map(s.update(i, e)) =~= entries_map(s).insert(e.0@, e.1),
{
    let t = s.update(i, e);
    assert forall|a: int, b: int|
        0 <= a < t.len() && 0 <= b < t.len() && a != b implies #[trigger] t[a].0@ != #[trigger] t[b].0@ by {
        assert(t[a].0@ == s[a].0@);
        assert(t[b].0@ == s[b].0@);
    }
    let m = entries_map(s).insert(e.0@, e.1);
    assert forall|kv: K::V| #[trigger] entries_map(t).contains_key(kv) <==> m.contains_key(kv) by {
        if entries_map(t).contains_key(kv) {
            let j = choose|j: int| #[trigger] key_at_index(t, kv, j);
            if j != i {
                assert(key_at_index(s, kv, j));
            }
        }
        if m.contains_key(kv) && kv != e.0@ {
            let j = choose|j: int| #[trigger] key_at_index(s, kv, j);
            assert(key_at_index(t, kv, j));
        }
        if kv == e.0@ {
            assert(key_at_index(t, kv, i));
        }
    }
    assert forall|kv: K::V| #[trigger] entries_map(t).contains_key(kv) implies entries_map(t)[kv]
        == m[kv] by {
        let j = choose|j: int| #[trigger] key_at_index(t, kv, j);
        lemma_entries_map_at(t, j);
        if j != i {
            lemma_entries_map_at(s, j);
        }
    }
}

/// Appending an entry with a new key adds that key to the map.
pub proof fn lemma_entries_map_push<K: View, V>(s: Seq<(K, V)>, e: (K, V))
    requires
        keys_unique(s),
        !entries_map(s).contains_key(e.0@),
    ensures
        keys_unique(s.push(e)),
        entries_map(s.push(e)) =~= entries_map(s).insert(e.0@, e.1),
{
    let t = s.push(e);
    assert forall|a: int, b: int|
        0 <= a < t.len() && 0 <= b < t.len() && a != b implies #[trigger] t[a].0@ != #[trigger] t[b].0@ by {
        if a == s.len() {
            assert(!key_at_index(s, e.0@, b));
        } else if b == s.len() {
            assert(!key_at_index(s, e.0@, a));
        }
    }
    let m = entries_map(s).insert(e.0@, e.1);
    assert forall|kv: K::V| #[trigger] entries_map(t).contains_key(kv) <==> m.contains_key(kv) by {
        if entries_map(t).contains_key(kv) {
            let j = choose|j: int| #[trigger] key_at_index(t, kv, j);
            if j != s.len() {
                assert(key_at_index(s, kv, j));
            }
        }
        if m.contains_key(kv) && kv != e.0@ {
            let j = choose|j: int| #[trigger] key_at_index(s, kv, j);
            assert(key_at_index(t, kv, j));
        }
        if kv == e.0@ {
            assert(key_at_index(t, kv, s.len() as int));
        }
    }
    assert forall|kv: K::V| #[trigger] entries_map(t).contains_key(kv) implies entries_map(t)[kv]
        == m[kv] by {
        let j = choose|j: int| #[trigger] key_at_index(t, kv, j);
        lemma_entries_map_at(t, j);
        if j != s.len() {
            lemma_entries_map_at(s, j);
        }
    }
}

/// Removing entry `i` removes its key from the map.
pub proof fn lemma_entries_map_remove<K: View, V>(s: Seq<(K, V)>, i: int)
    requires
        keys_unique(s),
        0 <= i < s.len(),
    ensures
        keys_unique(s.remove(i)),
        entries_map(s.remove(i)) =~= entries_map(s).remove(s[i].0@),
{
    let t = s.remove(i);
    let kr = s[i].0@;
    assert forall|a: int, b: int|
        0 <= a < t.len() && 0 <= b < t.len() && a != b implies #[trigger] t[a].0@ != #[trigger] t[b].0@ by {
        let sa = if a < i { a } else { a + 1 };
        let sb = if b < i { b } else { b + 1 };
        assert(t[a] == s[sa]);
        assert(t[b] == s[sb]);
    }
    let m = entries_map(s).remove(kr);
    assert forall|kv: K::V| #[trigger] entries_map(t).contains_key(kv) <==> m.contains_key(kv) by {
        if entries_map(t).contains_key(kv) {
            let j = choose|j: int| #[trigger] key_at_index(t, kv, j);
            let sj = if j < i { j } else { j + 1 };
            assert(t[j] == s[sj]);
            assert(key_at_index(s, kv, sj));
        }
        if m.contains_key(kv) {
            let j = choose|j: int| #[trigger] key_at_index(s, kv, j);
            assert(j != i);
            let tj = if j < i { j } else { j - 1 };
            assert(t[tj] == s[j]);
            assert(key_at_index(t, kv, tj));
        }
    }
    assert forall|kv: K::V| #[trigger] entries_map(t).contains_key(kv) implies entries_map(t)[kv]
        == m[kv] by {
        let j = choose|j: int| #[trigger] key_at_index(t, kv, j);
        let sj = if j < i { j } else { j + 1 };
        assert(t[j] == s[sj]);
        lemma_entries_map_at(t, j);
        lemma_entries_map_at(s, sj);
    }
}

/// A map from keys to values, kept as a vector of entries with distinct keys.
#[derive(Clone, Debug)]
pub struct KeyMap<K, V> {
    entries: Vec<(K, V)>,
}

impl<K: View, V> KeyMap<K, V> {
    /// The entries, in the order in which their keys were first inserted.
    pub closed spec fn entries(&self) -> Seq<(K, V)> {
        self.entries@
    }

    /// The invariant of the map: no key occurs twice.
    pub open spec fn wf(&self) -> bool {
        keys_unique(self.entries())
    }

    /// The keys of the map, in entry order.
    pub open spec fn key_seq(&self) -> Seq<K::V> {
        key_views(self.entries())
    }

    /// The value stored for `kv`, or `dflt` where there is none.
    pub open spec fn get_or(&self, kv: K::V, dflt: V) -> V {
        if self@.contains_key(kv) {
            self@[kv]
        } else {
            dflt
        }
    }
}

impl<K: View, V> View for KeyMap<K, V> {
    type V = Map<K::V, V>;

    open spec fn view(&self) -> Map<K::V, V> {
        entries_map(self.entries())
    }
}

impl<K: MapKey, V> KeyMap<K, V> {
    /// An empty map.
    pub fn new() -> (m: Self)
        ensures
            m.wf(),
            m@ == Map::<K::V, V>::empty(),
            m.entries() == Seq::<(K, V)>::empty(),
    {
        let m = KeyMap { entries: Vec::new() };
        assert(m@ =~= Map::<K::V, V>::empty());
        m
    }

    /// The index of the entry for `k`, if there is one.
    pub fn find(&self, k: &K) -> (r: Option<usize>)
        requires
            self.wf(),
        ensures
            match r {
                Some(i) => i < self.entries().len() && self.entries()[i as int].0@ == k@,
                None => !self@.contains_key(k@),
            },
            r is Some <==> self@.contains_key(k@),
    {
        let mut i: usize = 0;
        while i < self.entries.len()
            invariant
                i <= self.entries@.len(),
                keys_unique(self.entries@),
                forall|j: int| 0 <= j < i ==> self.entries@[j].0@ != k@,
            decreases self.entries@.len() - i,
        {
            if self.entries[i].0.same_key(k) {
                proof {
                    lemma_entries_map_at(self.entries@, i as int);
                }
                return Some(i);
            }
            i += 1;
        }
        proof {
            if self@.contains_key(k@) {
                let j = choose|j: int| #[trigger] key_at_index(self.entries@, k@, j);
                assert(self.entries@[j].0@ == k@);
            }
        }
        None
    }

    /// The value stored for `k`.
    pub fn get(&self, k: &K) -> (r: Option<&V>)
        requires
            self.wf(),
        ensures
            match r {
                Some(v) => self@.contains_key(k@) && *v == self@[k@],
                None => !self@.contains_key(k@),
            },
    {
        match self.find(k) {
            Some(i) => {
                proof {
                    lemma_entries_map_at(self.entries@, i as int);
                }
                Some(&self.entries[i].1)
            },
            None => None,
        }
    }

    /// Whether the map holds a value for `k`.
    pub fn contains_key(&self, k: &K) -> (r: bool)
        requires
            self.wf(),
        ensures
            r == self@.contains_key(k@),
    {
        self.find(k).is_some()
    }

    /// Stores `v` for `k`, handing back the value it replaces.
    pub fn insert(&mut self, k: K, v: V) -> (r: Option<V>)
        requires
            old(self).wf(),
        ensures
            final(self).wf(),
            final(self)@ == old(self)@.insert(k@, v),
            match r {
                Some(ov) => old(self)@.contains_key(k@) && ov == old(self)@[k@],
                None => !old(self)@.contains_key(k@),
            },
            old(self)@.contains_key(k@) ==> final(self).key_seq() == old(self).key_seq(),
            !old(self)@.contains_key(k@) ==> final(self).key_seq() == old(self).key_seq().push(k@),
            old(self)@.contains_key(k@) ==> exists|i: int|
                #[trigger] key_at_index(old(self).entries(), k@, i) && final(self).entries()
                    == old(self).entries().update(i, (k, v)),
            !old(self)@.contains_key(k@) ==> final(self).entries() == old(self).entries().push((k, v)),
    {
        match self.find(&k) {
            Some(i) => {
                let ghost s = self.entries@;
                proof {
                    lemma_entries_map_at(s, i as int);
                    lemma_entries_map_update(s, i as int, (k, v));
                }
                self.entries.push((k, v));
                let old_entry = self.entries.swap_remove(i);
                assert(self.entries@ =~= s.update(i as int, (k, v)));
                assert(key_at_index(s, k@, i as int));
                assert(key_views(self.entries@) =~= key_views(s));
                Some(old_entry.1)
            },
            None => {
                let ghost s = self.entries@;
                proof {
                    lemma_entries_map_push(s, (k, v));
                }
                self.entries.push((k, v));
                assert(key_views(self.entries@) =~= key_views(s).push(k@));
                None
            },
        }
    }

    /// Removes the entry for `k`, handing back its value.
    pub fn remove(&mut self, k: &K) -> (r: Option<V>)
        requires
            old(self).wf(),
        ensures
            final(self).wf(),
            final(self)@ == old(self)@.remove(k@),
            old(self)@.contains_key(k@) ==> exists|i: int|
                #[trigger] key_at_index(old(self).entries(), k@, i) && final(self).entries()
                    == old(self).entries().remove(i),
            !old(self)@.contains_key(k@) ==> final(self).entries() == old(self).entries(),
            match r {
                Some(ov) => old(self)@.contains_key(k@) && ov == old(self)@[k@],
                None => !old(self)@.contains_key(k@),
            },
    {
        match self.find(k) {
            Some(i) => {
                let ghost s = self.entries@;
                proof {
                    lemma_entries_map_at(s, i as int);
                    lemma_entries_map_remove(s, i as int);
                }
                let e = self.entries.remove(i);
                assert(key_at_index(s, k@, i as int));
                Some(e.1)
            },
            None => {
                assert(self@.remove(k@) =~= self@);
                None
            },
        }
    }

    /// The number of entries.
    pub fn len(&self) -> (r: usize)
        requires
            self.wf(),
        ensures
            r == self@.len(),
            r == self.entries().len(),
            self@.dom().finite(),
    {
        proof {
            lemma_entries_map_len(self.entries@);
        }
        self.entries.len()
    }

    /// Whether the map is empty.
    pub fn is_empty(&self) -> (r: bool)
        requires
            self.wf(),
        ensures
            r == (self@.len() == 0),
    {
        self.len() == 0
    }

    /// The key of entry `i`.
    pub fn key_at(&self, i: usize) -> (r: &K)
        requires
            i < self.entries().len(),
        ensures
            *r == self.entries()[i as int].0,
    {
        &self.entries[i].0
    }

    /// The value of entry `i`.
    pub fn value_at(&self, i: usize) -> (r: &V)
        requires
            i < self.entries().len(),
        ensures
            *r == self.entries()[i as int].1,
    {
        &self.entries[i].1
    }

    /// A mutable reference to the value of entry `i`; the entry keeps its key and place.
    pub fn value_mut_at(&mut self, i: usize) -> (r: &mut V)
        requires
            i < old(self).entries().len(),
        ensures
            *r == old(self).entries()[i as int].1,
            final(self).entries() == old(self).entries().update(
                i as int,
                (old(self).entries()[i as int].0, *final(r)),
            ),
    {
        &mut self.entries[i].1
    }

    /// Setting the value of entry `i` in place stores it for that entry's key.
    pub proof fn lemma_set_at(old_map: Self, new_map: Self, i: int)
        requires
            old_map.wf(),
            0 <= i < old_map.entries().len(),
            new_map.entries() == old_map.entries().update(
                i,
                (old_map.entries()[i].0, new_map.entries()[i].1),
            ),
        ensures
            new_map.wf(),
            new_map@ == old_map@.insert(old_map.entries()[i].0@, new_map.entries()[i].1),
            new_map.key_seq() == old_map.key_seq(),
    {
        lemma_entries_map_update(
            old_map.entries(),
            i,
            (old_map.entries()[i].0, new_map.entries()[i].1),
        );
        assert(key_views(new_map.entries()) =~= key_views(old_map.entries()));
    }

    /// Entry `i` is what the map holds for its key.
    pub proof fn lemma_entry(&self, i: int)
        requires
            self.wf(),
            0 <= i < self.entries().len(),
        ensures
            self@.contains_key(self.entries()[i].0@),
            self@[self.entries()[i].0@] == self.entries()[i].1,
    {
        lemma_entries_map_at(self.entries(), i);
    }

    /// Every key of the map is the key of some entry.
    pub proof fn lemma_key(&self, kv: K::V)
        requires
            self.wf(),
            self@.contains_key(kv),
        ensures
            exists|i: int| #[trigger] key_at_index(self.entries(), kv, i),
    {
    }
}

/// The sum of the values of a sequence of entries.
pub open spec fn seq_sum<K>(s: Seq<(K, u64)>) -> int
    decreases s.len(),
{
    if s.len() == 0 {
        0
    } else {
        seq_sum(s.drop_last()) + s.last().1
    }
}

/// Replacing the value of entry `i` changes the sum by the difference.
pub proof fn lemma_seq_sum_update<K>(s: Seq<(K, u64)>, i: int, e: (K, u64))
    requires
        0 <= i < s.len(),
    ensures
        seq_sum(s.update(i, e)) == seq_sum(s) - s[i].1 + e.1,
    decreases s.len(),
{
    let t = s.update(i, e);
    if i == s.len() - 1 {
        assert(t.drop_last() =~= s.drop_last());
    } else {
        assert(t.drop_last() =~= s.drop_last().update(i, e));
        lemma_seq_sum_update(s.drop_last(), i, e);
    }
}

/// Removing entry `i` lowers the sum by its value.
pub proof fn lemma_seq_sum_remove<K>(s: Seq<(K, u64)>, i: int)
    requires
        0 <= i < s.len(),
    ensures
        seq_sum(s.remove(i)) == seq_sum(s) - s[i].1,
    decreases s.len(),
{
    let t = s.remove(i);
    if i == s.len() - 1 {
        assert(t =~= s.drop_last());
    } else {
        assert(t.drop_last() =~= s.drop_last().remove(i));
        assert(t.last() == s.last());
        lemma_seq_sum_remove(s.drop_last(), i);
    }
}

/// The sum of a sequence of entries is at least each of its values.
pub proof fn lemma_seq_sum_ge<K>(s: Seq<(K, u64)>, i: int)
    requires
        0 <= i < s.len(),
    ensures
        seq_sum(s) >= s[i].1,
        seq_sum(s) >= 0,
    decreases s.len(),
{
    lemma_seq_sum_nonneg(s.drop_last());
    if i < s.len() - 1 {
        lemma_seq_sum_ge(s.drop_last(), i);
    }
}

/// The sum of a sequence of entries is not negative.
pub proof fn lemma_seq_sum_nonneg<K>(s: Seq<(K, u64)>)
    ensures
        seq_sum(s) >= 0,
    decreases s.len(),
{
    if s.len() > 0 {
        lemma_seq_sum_nonneg(s.drop_last());
    }
}

impl<K: View> KeyMap<K, u64> {
    /// The sum of all values of the map.
    pub open spec fn total(&self) -> int {
        seq_sum(self.entries())
    }
}

impl<K: MapKey> KeyMap<K, u64> {
    /// Storing `v` for a key changes the sum by the difference with the value it replaces.
    pub proof fn lemma_total_insert(old_map: Self, new_map: Self, k: K, v: u64)
        requires
            old_map.wf(),
            old_map@.contains_key(k@) ==> exists|i: int|
                #[trigger] key_at_index(old_map.entries(), k@, i) && new_map.entries()
                    == old_map.entries().update(i, (k, v)),
            !old_map@.contains_key(k@) ==> new_map.entries() == old_map.entries().push((k, v)),
        ensures
            new_map.total() == old_map.total() - old_map.get_or(k@, 0) + v,
    {
        if old_map@.contains_key(k@) {
            let i = choose|i: int|
                #[trigger] key_at_index(old_map.entries(), k@, i) && new_map.entries()
                    == old_map.entries().update(i, (k, v));
            lemma_entries_map_at(old_map.entries(), i);
            lemma_seq_sum_update(old_map.entries(), i, (k, v));
        } else {
            assert(new_map.entries().drop_last() =~= old_map.entries());
        }
    }

    /// Removing a key lowers the sum by its value.
    pub proof fn lemma_total_remove(old_map: Self, new_map: Self, k: K)
        requires
            old_map.wf(),
            old_map@.contains_key(k@) ==> exists|i: int|
                #[trigger] key_at_index(old_map.entries(), k@, i) && new_map.entries()
                    == old_map.entries().remove(i),
            !old_map@.contains_key(k@) ==> new_map.entries() == old_map.entries(),
        ensures
            new_map.total() == old_map.total() - old_map.get_or(k@, 0),
    {
        if old_map@.contains_key(k@) {
            let i = choose|i: int|
                #[trigger] key_at_index(old_map.entries(), k@, i) && new_map.entries()
                    == old_map.entries().remove(i);
            lemma_entries_map_at(old_map.entries(), i);
            lemma_seq_sum_remove(old_map.entries(), i);
        }
    }

    /// Each value of the map is at most the sum of all values.
    pub proof fn lemma_total_ge(&self, kv: K::V)
        requires
            self.wf(),
        ensures
            self.total() >= self.get_or(kv, 0),
            self.total() >= 0,
    {
        lemma_seq_sum_nonneg(self.entries());
        if self@.contains_key(kv) {
            let i = choose|i: int| #[trigger] key_at_index(self.entries(), kv, i);
            lemma_entries_map_at(self.entries(), i);
            lemma_seq_sum_ge(self.entries(), i);
        }
    }

    /// The value stored for `k`, or zero where there is none.
    pub fn get_or_zero(&self, k: &K) -> (r: u64)
        requires
            self.wf(),
        ensures
            r == self.get_or(k@, 0),
    {
        match self.get(k) {
            Some(v) => *v,
            None => 0,
        }
    }
}

impl<K: MapKey> KeyMap<K, bool> {
    /// The flag stored for `k`, or `false` where there is none.
    pub fn get_or_false(&self, k: &K) -> (r: bool)
        requires
            self.wf(),
        ensures
            r == self.get_or(k@, false),
    {
        match self.get(k) {
            Some(v) => *v,
            None => false,
        }
    }
}


/// How one key stands to another.
#[derive(Clone, Copy, Debug, PartialEq, Eq, Structural)]
pub enum KeyOrder {
    Less,
    Equal,
    Greater,
}

/// A key with a strict total order on its values.
pub trait OrdKey: MapKey {
    /// Whether key value `a` comes strictly before key value `b`.
    spec fn key_lt(a: Self::V, b: Self::V) -> bool;

    proof fn lemma_key_lt_irreflexive(a: Self::V)
        ensures
            !Self::key_lt(a, a),
    ;

    proof fn lemma_key_lt_transitive(a: Self::V, b: Self::V, c: Self::V)
        requires
            Self::key_lt(a, b),
            Self::key_lt(b, c),
        ensures
            Self::key_lt(a, c),
    ;

    proof fn lemma_key_lt_total(a: Self::V, b: Self::V)
        requires
            a != b,
        ensures
            Self::key_lt(a, b) || Self::key_lt(b, a),
    ;

    /// Where this key stands with respect to `other`.
    fn compare_key(&self, other: &Self) -> (r: KeyOrder)
        ensures
            r == KeyOrder::Less <==> Self::key_lt(self@, other@),
            r == KeyOrder::Equal <==> self@ == other@,
            r == KeyOrder::Greater <==> Self::key_lt(other@, self@),
    ;
}

/// Lexicographic order on byte strings: a proper prefix comes first.
pub open spec fn bytes_lt(a: Seq<u8>, b: Seq<u8>) -> bool
    decreases a.len(),
{
    if a.len() == 0 {
        b.len() > 0
    } else if b.len() == 0 {
        false
    } else if a[0] != b[0] {
        a[0] < b[0]
    } else {
        bytes_lt(a.drop_first(), b.drop_first())
    }
}

pub proof fn lemma_bytes_lt_irreflexive(a: Seq<u8>)
    ensures
        !bytes_lt(a, a),
    decreases a.len(),
{
    if a.len() > 0 {
        lemma_bytes_lt_irreflexive(a.drop_first());
    }
}

pub proof fn lemma_bytes_lt_transitive(a: Seq<u8>, b: Seq<u8>, c: Seq<u8>)
    requires
        bytes_lt(a, b),
        bytes_lt(b, c),
    ensures
        bytes_lt(a, c),
    decreases a.len(),
{
    if a.len() > 0 && b.len() > 0 && c.len() > 0 && a[0] == b[0] && b[0] == c[0] {
        lemma_bytes_lt_transitive(a.drop_first(), b.drop_first(), c.drop_first());
    }
}

pub proof fn lemma_bytes_lt_total(a: Seq<u8>, b: Seq<u8>)
    requires
        a != b,
    ensures
        bytes_lt(a, b) || bytes_lt(b, a),
    decreases a.len(),
{
    if a.len() == 0 {
        assert(b.len() > 0) by {
            if b.len() == 0 {
                assert(a =~= b);
            }
        }
    } else if b.len() > 0 && a[0] == b[0] {
        if a.drop_first() == b.drop_first() {
            assert(a =~= seq![a[0]] + a.drop_first());
            assert(b =~= seq![b[0]] + b.drop_first());
        }
        lemma_bytes_lt_total(a.drop_first(), b.drop_first());
    }
}

/// Two byte strings that agree on their first `i` bytes compare as their rests do.
pub proof fn lemma_bytes_lt_skip(a: Seq<u8>, b: Seq<u8>, i: int)
    requires
        0 <= i <= a.len(),
        i <= b.len(),
        a.subrange(0, i) == b.subrange(0, i),
    ensures
        bytes_lt(a, b) == bytes_lt(a.subrange(i, a.len() as int), b.subrange(i, b.len() as int)),
    decreases i,
{
    if i == 0 {
        assert(a.subrange(0, a.len() as int) =~= a);
        assert(b.subrange(0, b.len() as int) =~= b);
    } else {
        assert(a[0] == a.subrange(0, i)[0]);
        assert(b[0] == b.subrange(0, i)[0]);
        let a1 = a.drop_first();
        let b1 = b.drop_first();
        assert(a1.subrange(0, i - 1) =~= a.subrange(0, i).drop_first());
        assert(b1.subrange(0, i - 1) =~= b.subrange(0, i).drop_first());
        lemma_bytes_lt_skip(a1, b1, i - 1);
        assert(a1.subrange(i - 1, a1.len() as int) =~= a.subrange(i, a.len() as int));
        assert(b1.subrange(i - 1, b1.len() as int) =~= b.subrange(i, b.len() as int));
    }
}

/// Compares two byte strings lexicographically.
pub fn compare_bytes(a: &[u8], b: &[u8]) -> (r: KeyOrder)
    ensures
        r == KeyOrder::Less <==> bytes_lt(a@, b@),
        r == KeyOrder::Equal <==> a@ == b@,
        r == KeyOrder::Greater <==> bytes_lt(b@, a@),
{
    proof {
        lemma_bytes_lt_irreflexive(a@);
        if a@ != b@ {
            lemma_bytes_lt_total(a@, b@);
        }
        if bytes_lt(a@, b@) && bytes_lt(b@, a@) {
            lemma_bytes_lt_transitive(a@, b@, a@);
        }
    }
    let mut i: usize = 0;
    while i < a.len() && i < b.len()
        invariant
            i <= a@.len(),
            i <= b@.len(),
            a@.subrange(0, i as int) == b@.subrange(0, i as int),
        decreases a@.len() - i,
    {
        if a[i] != b[i] {
            proof {
                lemma_bytes_lt_skip(a@, b@, i as int);
                lemma_bytes_lt_skip(b@, a@, i as int);
                let ra = a@.subrange(i as int, a@.len() as int);
                let rb = b@.subrange(i as int, b@.len() as int);
                assert(ra[0] == a@[i as int]);
                assert(rb[0] == b@[i as int]);
                assert(a@ != b@) by {
                    assert(a@[i as int] != b@[i as int]);
                }
            }
            if a[i] < b[i] {
                return KeyOrder::Less;
            } else {
                return KeyOrder::Greater;
            }
        }
        proof {
            assert(a@.subrange(0, i + 1) =~= a@.subrange(0, i as int).push(a@[i as int]));
            assert(b@.subrange(0, i + 1) =~= b@.subrange(0, i as int).push(b@[i as int]));
        }
        i += 1;
    }
    proof {
        lemma_bytes_lt_skip(a@, b@, i as int);
        lemma_bytes_lt_skip(b@, a@, i as int);
    }
    if a.len() == b.len() {
        assert(a@ =~= a@.subrange(0, i as int));
        assert(b@ =~= b@.subrange(0, i as int));
        KeyOrder::Equal
    } else if i == a.len() {
        assert(a@ != b@);
        KeyOrder::Less
    } else {
        assert(a@ != b@);
        KeyOrder::Greater
    }
}

/// Whether two strings have the same characters.
pub fn str_eq(a: &str, b: &str) -> (r: bool)
    ensures
        r == (a@ == b@),
{
    proof {
        vstd::utf8::encode_utf8_decode_utf8(a@);
        vstd::utf8::encode_utf8_decode_utf8(b@);
    }
    compare_bytes(a.as_bytes(), b.as_bytes()) == KeyOrder::Equal
}

/// Whether `a` comes after `b` in the order of strings.
pub fn str_gt(a: &str, b: &str) -> (r: bool)
    ensures
        r == String::key_lt(b@, a@),
{
    compare_bytes(a.as_bytes(), b.as_bytes()) == KeyOrder::Greater
}

impl OrdKey for String {
    /// Strings are ordered by their UTF-8 bytes, as `str` orders them.
    open spec fn key_lt(a: Seq<char>, b: Seq<char>) -> bool {
        bytes_lt(vstd::utf8::encode_utf8(a), vstd::utf8::encode_utf8(b))
    }

    proof fn lemma_key_lt_irreflexive(a: Seq<char>) {
        lemma_bytes_lt_irreflexive(vstd::utf8::encode_utf8(a));
    }

    proof fn lemma_key_lt_transitive(a: Seq<char>, b: Seq<char>, c: Seq<char>) {
        lemma_bytes_lt_transitive(
            vstd::utf8::encode_utf8(a),
            vstd::utf8::encode_utf8(b),
            vstd::utf8::encode_utf8(c),
        );
    }

    proof fn lemma_key_lt_total(a: Seq<char>, b: Seq<char>) {
        vstd::utf8::encode_utf8_decode_utf8(a);
        vstd::utf8::encode_utf8_decode_utf8(b);
        lemma_bytes_lt_total(vstd::utf8::encode_utf8(a), vstd::utf8::encode_utf8(b));
    }

    fn compare_key(&self, other: &Self) -> (r: KeyOrder) {
        let a = self.as_str();
        let b = other.as_str();
        proof {
            vstd::utf8::encode_utf8_decode_utf8(self@);
            vstd::utf8::encode_utf8_decode_utf8(other@);
        }
        compare_bytes(a.as_bytes(), b.as_bytes())
    }
}

impl OrdKey for u64 {
    open spec fn key_lt(a: u64, b: u64) -> bool {
        a < b
    }

    proof fn lemma_key_lt_irreflexive(a: u64) {
    }

    proof fn lemma_key_lt_transitive(a: u64, b: u64, c: u64) {
    }

    proof fn lemma_key_lt_total(a: u64, b: u64) {
    }

    fn compare_key(&self, other: &Self) -> (r: KeyOrder) {
        if *self < *other {
            KeyOrder::Less
        } else if *self == *other {
            KeyOrder::Equal
        } else {
            KeyOrder::Greater
        }
    }
}

impl OrdKey for u16 {
    open spec fn key_lt(a: u16, b: u16) -> bool {
        a < b
    }

    proof fn lemma_key_lt_irreflexive(a: u16) {
    }

    proof fn lemma_key_lt_transitive(a: u16, b: u16, c: u16) {
    }

    proof fn lemma_key_lt_total(a: u16, b: u16) {
    }

    fn compare_key(&self, other: &Self) -> (r: KeyOrder) {
        if *self < *other {
            KeyOrder::Less
        } else if *self == *other {
            KeyOrder::Equal
        } else {
            KeyOrder::Greater
        }
    }
}

impl<A: OrdKey, B: OrdKey> OrdKey for (A, B) {
    /// Pairs are ordered by their first part, then by their second.
    open spec fn key_lt(a: (A::V, B::V), b: (A::V, B::V)) -> bool {
        A::key_lt(a.0, b.0) || (a.0 == b.0 && B::key_lt(a.1, b.1))
    }

    proof fn lemma_key_lt_irreflexive(a: (A::V, B::V)) {
        A::lemma_key_lt_irreflexive(a.0);
        B::lemma_key_lt_irreflexive(a.1);
    }

    proof fn lemma_key_lt_transitive(a: (A::V, B::V), b: (A::V, B::V), c: (A::V, B::V)) {
        if A::key_lt(a.0, b.0) && A::key_lt(b.0, c.0) {
            A::lemma_key_lt_transitive(a.0, b.0, c.0);
        }
        if a.0 == b.0 && b.0 == c.0 && B::key_lt(a.1, b.1) && B::key_lt(b.1, c.1) {
            B::lemma_key_lt_transitive(a.1, b.1, c.1);
        }
    }

    proof fn lemma_key_lt_total(a: (A::V, B::V), b: (A::V, B::V)) {
        if a.0 != b.0 {
            A::lemma_key_lt_total(a.0, b.0);
        } else {
            B::lemma_key_lt_total(a.1, b.1);
        }
    }

    fn compare_key(&self, other: &Self) -> (r: KeyOrder) {
        proof {
            A::lemma_key_lt_irreflexive(self.0@);
            B::lemma_key_lt_irreflexive(self.1@);
        }
        match self.0.compare_key(&other.0) {
            KeyOrder::Less => KeyOrder::Less,
            KeyOrder::Greater => {
                proof {
                    if A::key_lt(self.0@, other.0@) {
                        A::lemma_key_lt_transitive(self.0@, other.0@, self.0@);
                    }
                }
                KeyOrder::Greater
            },
            KeyOrder::Equal => {
                proof {
                    if B::key_lt(self.1@, other.1@) && B::key_lt(other.1@, self.1@) {
                        B::lemma_key_lt_transitive(self.1@, other.1@, self.1@);
                    }
                }
                self.1.compare_key(&other.1)
            },
        }
    }
}

/// Whether a sequence of key values is strictly ascending.
pub open spec fn ascending<K: OrdKey>(ks: Seq<K::V>) -> bool {
    forall|i: int, j: int| 0 <= i < j < ks.len() ==> K::key_lt(#[trigger] ks[i], #[trigger] ks[j])
}

/// A sub-sequence of an ascending sequence is ascending.
pub proof fn lemma_ascending_remove<K: OrdKey>(ks: Seq<K::V>, i: int)
    requires
        ascending::<K>(ks),
        0 <= i < ks.len(),
    ensures
        ascending::<K>(ks.remove(i)),
{
    let t = ks.remove(i);
    assert forall|a: int, b: int| 0 <= a < b < t.len() implies K::key_lt(#[trigger] t[a], #[trigger] t[b]) by {
        let sa = if a < i { a } else { a + 1 };
        let sb = if b < i { b } else { b + 1 };
        assert(t[a] == ks[sa]);
        assert(t[b] == ks[sb]);
    }
}

impl<K: OrdKey, V> KeyMap<K, V> {
    /// Whether the entries are in ascending key order.
    pub open spec fn sorted(&self) -> bool {
        ascending::<K>(self.key_seq())
    }

    /// An empty map is in order.
    pub proof fn lemma_new_sorted(&self)
        requires
            self.entries() == Seq::<(K, V)>::empty(),
        ensures
            self.sorted(),
    {
    }

    /// Removing an entry keeps the others in order.
    pub proof fn lemma_remove_sorted(old_map: Self, new_map: Self, kv: K::V)
        requires
            old_map.sorted(),
            old_map@.contains_key(kv) ==> exists|i: int|
                #[trigger] key_at_index(old_map.entries(), kv, i) && new_map.entries()
                    == old_map.entries().remove(i),
            !old_map@.contains_key(kv) ==> new_map.entries() == old_map.entries(),
        ensures
            new_map.sorted(),
    {
        if old_map@.contains_key(kv) {
            let i = choose|i: int|
                #[trigger] key_at_index(old_map.entries(), kv, i) && new_map.entries()
                    == old_map.entries().remove(i);
            assert(new_map.key_seq() =~= old_map.key_seq().remove(i));
            lemma_ascending_remove::<K>(old_map.key_seq(), i);
        }
    }

    /// Stores `v` for `k`, keeping the entries in ascending key order: a new
    /// key takes its place among the others.
    pub fn insert_sorted(&mut self, k: K, v: V) -> (r: Option<V>)
        requires
            old(self).wf(),
            old(self).sorted(),
        ensures
            final(self).wf(),
            final(self).sorted(),
            final(self)@ == old(self)@.insert(k@, v),
            match r {
                Some(ov) => old(self)@.contains_key(k@) && ov == old(self)@[k@],
                None => !old(self)@.contains_key(k@),
            },
            old(self)@.contains_key(k@) ==> final(self).key_seq() == old(self).key_seq(),
            old(self)@.contains_key(k@) ==> exists|i: int|
                #[trigger] key_at_index(old(self).entries(), k@, i) && final(self).entries()
                    == old(self).entries().update(i, (k, v)),
            !old(self)@.contains_key(k@) ==> exists|p: int|
                0 <= p <= old(self).entries().len() && final(self).entries()
                    == #[trigger] old(self).entries().insert(p, (k, v)),
    {
        if self.contains_key(&k) {
            return self.insert(k, v);
        }
        let ghost s = self.entries@;
        let ghost ks = key_views(s);
        let mut p: usize = 0;
        while p < self.entries.len()
            invariant
                self.entries@ == s,
                ks == key_views(s),
                p <= s.len(),
                ascending::<K>(ks),
                !entries_map(s).contains_key(k@),
                forall|j: int| 0 <= j < p ==> K::key_lt(#[trigger] ks[j], k@),
            ensures
                p < s.len() ==> K::key_lt(k@, ks[p as int]),
            decreases s.len() - p,
        {
            let o = k.compare_key(&self.entries[p].0);
            if o == KeyOrder::Less {
                assert(ks[p as int] == s[p as int].0@);
                break;
            }
            proof {
                assert(ks[p as int] == s[p as int].0@);
                if s[p as int].0@ == k@ {
                    assert(key_at_index(s, k@, p as int));
                }
                K::lemma_key_lt_total(k@, ks[p as int]);
            }
            p += 1;
        }
        let ghost e = (k, v);
        let ghost kv = k@;
        proof {
            let t = s.insert(p as int, e);
            let kt = key_views(t);
            assert(kt =~= ks.insert(p as int, kv));
            assert forall|a: int, b: int| 0 <= a < b < kt.len() implies K::key_lt(
                #[trigger] kt[a],
                #[trigger] kt[b],
            ) by {
                if b < p {
                } else if b == p {
                    assert(kt[a] == ks[a]);
                } else if a < p {
                    assert(kt[a] == ks[a]);
                    assert(kt[b] == ks[b - 1]);
                } else if a == p {
                    assert(kt[b] == ks[b - 1]);
                    assert(K::key_lt(kv, ks[p as int]));
                    if b - 1 > p {
                        K::lemma_key_lt_transitive(kv, ks[p as int], ks[b - 1]);
                    }
                } else {
                    assert(kt[a] == ks[a - 1]);
                    assert(kt[b] == ks[b - 1]);
                }
            }
            lemma_entries_map_insert_at(s, p as int, e);
        }
        self.entries.insert(p, (k, v));
        proof {
            assert(self.entries@ == s.insert(p as int, e));
        }
        None
    }
}

/// Inserting an entry with a new key at any place adds that key to the map.
pub proof fn lemma_entries_map_insert_at<K: View, V>(s: Seq<(K, V)>, p: int, e: (K, V))
    requires
        keys_unique(s),
        0 <= p <= s.len(),
        !entries_map(s).contains_key(e.0@),
    ensures
        keys_unique(s.insert(p, e)),
        entries_map(s.insert(p, e)) =~= entries_map(s).insert(e.0@, e.1),
{
    let t = s.insert(p, e);
    assert forall|a: int| 0 <= a < t.len() && a != p implies #[trigger] t[a] == s[if a < p { a } else { a - 1 }] by {
    }
    assert forall|a: int, b: int|
        0 <= a < t.len() && 0 <= b < t.len() && a != b implies #[trigger] t[a].0@ != #[trigger] t[b].0@ by {
        if a == p {
            let sb = if b < p { b } else { b - 1 };
            assert(t[b] == s[sb]);
            assert(!key_at_index(s, e.0@, sb));
        } else if b == p {
            let sa = if a < p { a } else { a - 1 };
            assert(t[a] == s[sa]);
            assert(!key_at_index(s, e.0@, sa));
        } else {
            let sa = if a < p { a } else { a - 1 };
            let sb = if b < p { b } else { b - 1 };
            assert(t[a] == s[sa]);
            assert(t[b] == s[sb]);
        }
    }
    let m = entries_map(s).insert(e.0@, e.1);
    assert forall|kv: K::V| #[trigger] entries_map(t).contains_key(kv) <==> m.contains_key(kv) by {
        if entries_map(t).contains_key(kv) {
            let j = choose|j: int| #[trigger] key_at_index(t, kv, j);
            if j != p {
                let sj = if j < p { j } else { j - 1 };
                assert(t[j] == s[sj]);
                assert(key_at_index(s, kv, sj));
            }
        }
        if m.contains_key(kv) && kv != e.0@ {
            let j = choose|j: int| #[trigger] key_at_index(s, kv, j);
            let tj = if j < p { j } else { j + 1 };
            assert(t[tj] == s[j]);
            assert(key_at_index(t, kv, tj));
        }
        if kv == e.0@ {
            assert(key_at_index(t, kv, p));
        }
    }
    assert forall|kv: K::V| #[trigger] entries_map(t).contains_key(kv) implies entries_map(t)[kv]
        == m[kv] by {
        let j = choose|j: int| #[trigger] key_at_index(t, kv, j);
        lemma_entries_map_at(t, j);
        if j != p {
            let sj = if j < p { j } else { j - 1 };
            assert(t[j] == s[sj]);
            lemma_entries_map_at(s, sj);
        }
    }
}

} // verus!
